//! The taskbar configuration.

use vstd::prelude::*;
use crate::text::{collected, slice_texts};
use crate::text_map::TextMap;

verus! {

/// A regular expression as the regex crate holds it once it is compiled.
#[verifier::external_type_specification]
#[verifier::external_body]
pub struct ExRegex(regex::Regex);

/// What the regex crate compiles `pattern` to under its default limits:
/// the regular expression, or `None` where the pattern is none or asks for
/// too large a one.
pub uninterp spec fn regex_compiled(pattern: Seq<char>) -> Option<regex::Regex>;

/// Whether the regular expression that `pattern` writes matches somewhere
/// in `text`.
pub uninterp spec fn regex_matches(pattern: Seq<char>, text: Seq<char>) -> bool;

/// Whether `pattern` is a regular expression that the regex crate compiles
/// under its default limits.
pub open spec fn regex_compiles(pattern: Seq<char>) -> bool {
    regex_compiled(pattern) is Some
}

/// Calls `Regex::new` of the regex crate. Trusted: what it gives depends on
/// the pattern alone.
#[verifier::external_body]
fn compile(pattern: &str) -> (re: Option<regex::Regex>)
    ensures
        re == regex_compiled(pattern@),
{
    regex::Regex::new(pattern).ok()
}

/// Calls `Regex::is_match` of the regex crate on the regular expression
/// that a rule holds. Trusted: for the expression that the rule's pattern
/// was compiled to, the answer depends on the pattern and the text alone.
#[verifier::external_body]
fn is_match(rule: &AppConfig, text: &str) -> (found: bool)
    requires
        regex_compiled(rule.pattern@) == Some(rule.re),
    ensures
        found == regex_matches(rule.pattern@, text@),
{
    rule.re.is_match(text)
}

/// A rule that gives windows of an application a CSS class while their title
/// matches a regular expression.
#[derive(Debug)]
pub struct AppConfig {
    pattern: String,
    re: regex::Regex,
    class: String,
}

/// The mathematical value of an [`AppConfig`].
pub struct AppConfigView {
    pub pattern: Seq<char>,
    pub class: Seq<char>,
}

impl View for AppConfig {
    type V = AppConfigView;

    closed spec fn view(&self) -> AppConfigView {
        AppConfigView { pattern: self.pattern@, class: self.class@ }
    }
}

impl AppConfig {
    /// The rule holds the regular expression that its pattern compiles to.
    #[verifier::type_invariant]
    spec fn inv(self) -> bool {
        regex_compiled(self.pattern@) == Some(self.re)
    }

    /// A rule for `pattern` and `class`; `None` where `pattern` is no
    /// regular expression. The pattern is compiled once, here.
    pub fn new(pattern: String, class: String) -> (rule: Option<Self>)
        ensures
            rule is Some <==> regex_compiles(pattern@),
            rule matches Some(r) ==> r@ == (AppConfigView { pattern: pattern@, class: class@ }),
    {
        match compile(pattern.as_str()) {
            Some(re) => Some(AppConfig { pattern, re, class }),
            None => None,
        }
    }

    /// The class that the rule gives.
    pub fn class(&self) -> (class: &str)
        ensures
            class@ == self@.class,
    {
        self.class.as_str()
    }

    /// The regular expression of the rule.
    pub fn pattern(&self) -> (pattern: &str)
        ensures
            pattern@ == self@.pattern,
            regex_compiles(pattern@),
    {
        proof {
            use_type_invariant(self);
        }
        self.pattern.as_str()
    }

    /// Whether the rule applies to a window with this title.
    pub fn is_match(&self, title: &str) -> (found: bool)
        ensures
            found == regex_matches(self@.pattern, title@),
    {
        proof {
            use_type_invariant(self);
        }
        is_match(self, title)
    }
}

/// The settings for notifications.
#[derive(Debug)]
pub struct Notifications {
    enabled: bool,
    ignore_desktop_entry: bool,
    use_fuzzy_matching: bool,
    map_app_ids: TextMap<String>,
}

/// The mathematical value of [`Notifications`].
pub struct NotificationsView {
    pub enabled: bool,
    pub ignore_desktop_entry: bool,
    pub use_fuzzy_matching: bool,
    pub map_app_ids: Map<Seq<char>, Seq<char>>,
}

impl View for Notifications {
    type V = NotificationsView;

    closed spec fn view(&self) -> NotificationsView {
        NotificationsView {
            enabled: self.enabled,
            ignore_desktop_entry: self.ignore_desktop_entry,
            use_fuzzy_matching: self.use_fuzzy_matching,
            map_app_ids: self.map_app_ids@.map_values(|s: String| s@),
        }
    }
}

impl Notifications {
    #[verifier::type_invariant]
    spec fn inv(self) -> bool {
        self.map_app_ids.wf()
    }

    /// The settings with these values. `map_app_ids` maps the desktop entry
    /// that a notification names to the application identifier of its
    /// windows; of two entries with the same key the later one counts.
    pub fn new(
        enabled: bool,
        ignore_desktop_entry: bool,
        use_fuzzy_matching: bool,
        map_app_ids: Vec<(String, String)>,
    ) -> (settings: Self)
        ensures
            settings@ == (NotificationsView {
                enabled,
                ignore_desktop_entry,
                use_fuzzy_matching,
                map_app_ids: collected(map_app_ids@).map_values(|s: String| s@),
            }),
    {
        Notifications {
            enabled,
            ignore_desktop_entry,
            use_fuzzy_matching,
            map_app_ids: TextMap::from_entries(map_app_ids),
        }
    }
}

/// The taskbar configuration.
#[derive(Debug)]
pub struct Config {
    apps: TextMap<Vec<AppConfig>>,
    notifications: Option<Notifications>,
}

/// The mathematical value of a [`Config`].
pub struct ConfigView {
    pub apps: Map<Seq<char>, Seq<AppConfigView>>,
    pub notifications: Option<NotificationsView>,
}

/// The values of a list of rules, in the list's order.
pub open spec fn rule_views(rules: Seq<AppConfig>) -> Seq<AppConfigView> {
    rules.map_values(|r: AppConfig| r@)
}

/// The classes of the rules of `rules` that apply to `title`, in the
/// order of the rules.
pub open spec fn matching_classes(rules: Seq<AppConfigView>, title: Seq<char>) -> Seq<Seq<char>>
    decreases rules.len(),
{
    if rules.len() == 0 {
        Seq::empty()
    } else {
        let front = matching_classes(rules.drop_last(), title);
        if regex_matches(rules.last().pattern, title) {
            front.push(rules.last().class)
        } else {
            front
        }
    }
}

/// The classes of `rules` whose verdict in `verdicts` is `true`, in the
/// order of the rules.
pub open spec fn selected_classes(rules: Seq<AppConfigView>, verdicts: Seq<bool>) -> Seq<
    Seq<char>,
>
    decreases rules.len(),
{
    if rules.len() == 0 || verdicts.len() != rules.len() {
        Seq::empty()
    } else {
        let front = selected_classes(rules.drop_last(), verdicts.drop_last());
        if verdicts.last() {
            front.push(rules.last().class)
        } else {
            front
        }
    }
}

/// The classes of the rules that `verdicts` selects: the `i`-th rule's
/// class is in the result exactly when the `i`-th verdict is `true`. The
/// verdicts have to be as many as the rules, else none counts.
pub fn select_classes<'a>(rules: &'a Vec<AppConfig>, verdicts: &Vec<bool>) -> (classes: Vec<
    &'a str,
>)
    ensures
        slice_texts(classes@) == selected_classes(rule_views(rules@), verdicts@),
{
    let mut classes: Vec<&'a str> = Vec::new();
    if verdicts.len() != rules.len() {
        assert(slice_texts(classes@) =~= Seq::<Seq<char>>::empty());
        return classes;
    }
    let mut i: usize = 0;
    while i < rules.len()
        invariant
            i <= rules@.len(),
            verdicts@.len() == rules@.len(),
            slice_texts(classes@) == selected_classes(
                rule_views(rules@).take(i as int),
                verdicts@.take(i as int),
            ),
        decreases rules@.len() - i,
    {
        proof {
            let all = rule_views(rules@);
            assert(all.take(i + 1).drop_last() == all.take(i as int));
            assert(verdicts@.take(i + 1).drop_last() == verdicts@.take(i as int));
            assert(all.take(i + 1).last() == rules@[i as int]@);
        }
        let ghost before = slice_texts(classes@);
        if verdicts[i] {
            classes.push(rules[i].class());
            proof {
                assert(slice_texts(classes@) =~= before.push(rules@[i as int]@.class));
            }
        }
        i += 1;
    }
    proof {
        assert(rule_views(rules@).take(rules@.len() as int) == rule_views(rules@));
        assert(verdicts@.take(rules@.len() as int) == verdicts@);
    }
    classes
}

/// Selecting by each rule's own verdict on `title` gives the classes that
/// match `title`.
pub proof fn lemma_selected_by_match(
    rules: Seq<AppConfigView>,
    verdicts: Seq<bool>,
    title: Seq<char>,
)
    requires
        verdicts.len() == rules.len(),
        forall|i: int|
            0 <= i < rules.len() ==> verdicts[i] == regex_matches(
                (#[trigger] rules[i]).pattern,
                title,
            ),
    ensures
        selected_classes(rules, verdicts) == matching_classes(rules, title),
    decreases rules.len(),
{
    if rules.len() > 0 {
        assert forall|i: int| 0 <= i < rules.drop_last().len() implies verdicts.drop_last()[i]
            == regex_matches((#[trigger] rules.drop_last()[i]).pattern, title) by {
            assert(rules.drop_last()[i] == rules[i]);
        }
        lemma_selected_by_match(rules.drop_last(), verdicts.drop_last(), title);
        assert(verdicts.last() == regex_matches(rules[rules.len() - 1].pattern, title));
    }
}

impl View for Config {
    type V = ConfigView;

    closed spec fn view(&self) -> ConfigView {
        ConfigView {
            apps: self.apps@.map_values(|rules: Vec<AppConfig>| rule_views(rules@)),
            notifications: match self.notifications {
                Some(n) => Some(n@),
                None => None,
            },
        }
    }
}

impl ConfigView {
    /// The rules for an application; none where the configuration names
    /// none.
    pub open spec fn rules_for(self, app_id: Seq<char>) -> Seq<AppConfigView> {
        if self.apps.contains_key(app_id) {
            self.apps[app_id]
        } else {
            Seq::empty()
        }
    }

    /// Whether notifications are watched: yes, unless the configuration
    /// says otherwise.
    pub open spec fn notifications_enabled(self) -> bool {
        match self.notifications {
            Some(n) => n.enabled,
            None => true,
        }
    }

    /// The application identifier that the configuration maps a desktop
    /// entry to, if it maps it.
    pub open spec fn notifications_app_map(self, app_id: Seq<char>) -> Option<Seq<char>> {
        match self.notifications {
            Some(n) => if n.map_app_ids.contains_key(app_id) {
                Some(n.map_app_ids[app_id])
            } else {
                None
            },
            None => None,
        }
    }

    /// Whether the desktop entry of a notification may be used to find its
    /// window: yes, unless the configuration says otherwise.
    pub open spec fn notifications_should_use_desktop_entry(self) -> bool {
        match self.notifications {
            Some(n) => !n.ignore_desktop_entry,
            None => true,
        }
    }

    /// Whether a desktop entry may match an application identifier loosely:
    /// only where the configuration says so.
    pub open spec fn notifications_use_fuzzy_matching(self) -> bool {
        match self.notifications {
            Some(n) => n.use_fuzzy_matching,
            None => false,
        }
    }

    /// The application identifier to look for, given the desktop entry of a
    /// notification: what the configuration maps it to, else the entry.
    pub open spec fn mapped_entry(self, desktop_entry: Seq<char>) -> Seq<char> {
        match self.notifications_app_map(desktop_entry) {
            Some(mapped) => mapped,
            None => desktop_entry,
        }
    }
}

impl Config {
    #[verifier::type_invariant]
    spec fn inv(self) -> bool {
        self.apps.wf()
    }

    /// The configuration with these rules and settings. `apps` lists the
    /// rules of each application; of two entries for the same application
    /// the later one counts.
    pub fn new(apps: Vec<(String, Vec<AppConfig>)>, notifications: Option<Notifications>) -> (config:
        Self)
        ensures
            config@ == (ConfigView {
                apps: collected(apps@).map_values(|rules: Vec<AppConfig>| rule_views(rules@)),
                notifications: match notifications {
                    Some(n) => Some(n@),
                    None => None,
                },
            }),
    {
        Config { apps: TextMap::from_entries(apps), notifications }
    }

    /// Returns all possible CSS classes that a particular application might
    /// have set.
    pub fn app_classes(&self, app_id: &str) -> (classes: Vec<&str>)
        ensures
            slice_texts(classes@) == self@.rules_for(app_id@).map_values(
                |r: AppConfigView| r.class,
            ),
    {
        proof {
            use_type_invariant(self);
        }
        let mut classes: Vec<&str> = Vec::new();
        match self.apps.get(app_id) {
            Some(rules) => {
                let mut i: usize = 0;
                while i < rules.len()
                    invariant
                        i <= rules@.len(),
                        classes@.len() == i,
                        forall|k: int| 0 <= k < i ==> (#[trigger] classes@[k])@ == rules@[k]@.class,
                    decreases rules@.len() - i,
                {
                    classes.push(rules[i].class());
                    i += 1;
                }
                proof {
                    assert(self@.rules_for(app_id@) == rule_views(rules@));
                    assert(slice_texts(classes@) =~= rule_views(rules@).map_values(
                        |r: AppConfigView| r.class,
                    ));
                }
            },
            None => {
                proof {
                    assert(slice_texts(classes@) =~= self@.rules_for(app_id@).map_values(
                        |r: AppConfigView| r.class,
                    ));
                }
            },
        }
        classes
    }

    /// Returns the actual CSS classes that should be set for the given
    /// application and title.
    pub fn app_matches(&self, app_id: &str, title: &str) -> (classes: Vec<&str>)
        ensures
            slice_texts(classes@) == matching_classes(self@.rules_for(app_id@), title@),
    {
        proof {
            use_type_invariant(self);
        }
        match self.apps.get(app_id) {
            Some(rules) => {
                let mut verdicts: Vec<bool> = Vec::new();
                let mut i: usize = 0;
                while i < rules.len()
                    invariant
                        i <= rules@.len(),
                        verdicts@.len() == i,
                        forall|k: int|
                            0 <= k < i ==> verdicts@[k] == regex_matches(
                                (#[trigger] rules@[k])@.pattern,
                                title@,
                            ),
                    decreases rules@.len() - i,
                {
                    verdicts.push(rules[i].is_match(title));
                    i += 1;
                }
                proof {
                    assert(self@.rules_for(app_id@) == rule_views(rules@));
                    assert forall|k: int| 0 <= k < rules@.len() implies verdicts@[k]
                        == regex_matches((#[trigger] rule_views(rules@)[k]).pattern, title@) by {
                        assert(rule_views(rules@)[k] == rules@[k]@);
                    }
                    lemma_selected_by_match(rule_views(rules@), verdicts@, title@);
                }
                select_classes(rules, &verdicts)
            },
            None => {
                let classes: Vec<&str> = Vec::new();
                proof {
                    assert(slice_texts(classes@) =~= Seq::<Seq<char>>::empty());
                }
                classes
            },
        }
    }

    /// Returns true if notification support is enabled.
    pub fn notifications_enabled(&self) -> (enabled: bool)
        ensures
            enabled == self@.notifications_enabled(),
    {
        match &self.notifications {
            Some(notifications) => notifications.enabled,
            None => true,
        }
    }

    /// Returns any mapping that might exist for this app ID.
    pub fn notifications_app_map(&self, app_id: &str) -> (mapped: Option<&str>)
        ensures
            match mapped {
                Some(m) => self@.notifications_app_map(app_id@) == Some(m@),
                None => self@.notifications_app_map(app_id@) is None,
            },
    {
        match &self.notifications {
            Some(notifications) => {
                proof {
                    use_type_invariant(notifications);
                }
                match notifications.map_app_ids.get(app_id) {
                    Some(mapped) => Some(mapped.as_str()),
                    None => None,
                }
            },
            None => None,
        }
    }

    /// Returns true if notification support should use the desktop entry as
    /// a fallback.
    pub fn notifications_should_use_desktop_entry(&self) -> (allowed: bool)
        ensures
            allowed == self@.notifications_should_use_desktop_entry(),
    {
        match &self.notifications {
            Some(notifications) => !notifications.ignore_desktop_entry,
            None => true,
        }
    }

    /// Returns true if a desktop entry may match an application identifier
    /// loosely.
    pub fn notifications_use_fuzzy_matching(&self) -> (allowed: bool)
        ensures
            allowed == self@.notifications_use_fuzzy_matching(),
    {
        match &self.notifications {
            Some(notifications) => notifications.use_fuzzy_matching,
            None => false,
        }
    }
}

impl Default for Config {
    /// The configuration without rules and without settings for
    /// notifications.
    fn default() -> (config: Self)
        ensures
            config@ == (ConfigView { apps: Map::empty(), notifications: None }),
    {
        let config = Config { apps: TextMap::new(), notifications: None };
        proof {
            assert(config@.apps =~= Map::<Seq<char>, Seq<AppConfigView>>::empty());
        }
        config
    }
}

} // verus!
