use niri_taskbar::config::{Config, Notifications};
use niri_taskbar::correlator::{
    desktop_entry_marks, fallback, fuzzy_rule_holds, matches_fuzzily, Correlation, PidWindowMap,
    Target,
};
use niri_taskbar::niri::ipc::{Event, Window, WindowLayout, Workspace};
use niri_taskbar::niri::{Snapshot, WindowSet};
use niri_taskbar::notify::{Actions, EnrichedNotification, Hints, Notification};
use niri_taskbar::process::{Error, Process};

struct Toplevel {
    id: u64,
    pid: Option<i32>,
    app_id: Option<&'static str>,
    focused: bool,
}

fn toplevel(id: u64, pid: Option<i32>, app_id: Option<&'static str>, focused: bool) -> Toplevel {
    Toplevel { id, pid, app_id, focused }
}

fn snapshot_of(toplevels: Vec<Toplevel>) -> Snapshot {
    let windows = toplevels
        .into_iter()
        .map(|s| Window {
            id: s.id,
            title: None,
            app_id: s.app_id.map(|a| a.to_string()),
            pid: s.pid,
            workspace_id: Some(1),
            is_focused: s.focused,
            layout: WindowLayout { pos_in_scrolling_layout: None },
        })
        .collect();
    let mut set = WindowSet::new();
    set.with_event(Event::WorkspacesChanged {
        workspaces: vec![Workspace { id: 1, idx: 0, output: None, is_focused: true }],
    });
    set.with_event(Event::WindowsChanged { windows }).expect("ready")
}

fn hints(desktop_entry: Option<&str>, sender_pid: Option<i64>) -> Hints {
    Hints {
        action_icons: None,
        category: None,
        desktop_entry: desktop_entry.map(|e| e.to_string()),
        resident: None,
        sound_file: None,
        sound_name: None,
        suppress_sound: None,
        transient: None,
        sender_pid,
        urgency: None,
        x: None,
        y: None,
    }
}

fn notification(pid: Option<u32>, desktop_entry: Option<&str>) -> EnrichedNotification {
    EnrichedNotification::new(
        Notification {
            app_name: None,
            replaces_id: None,
            app_icon: None,
            summary: "hello".to_string(),
            body: None,
            actions: Actions::from_flat(vec![]),
            hints: hints(desktop_entry, None),
            expire_timeout: -1,
        },
        pid,
    )
}

fn config(use_desktop_entry: bool, fuzzy: bool, map: Vec<(&str, &str)>) -> Config {
    let map = map.into_iter().map(|(k, v)| (k.to_string(), v.to_string())).collect();
    Config::new(vec![], Some(Notifications::new(true, !use_desktop_entry, fuzzy, map)))
}

fn parent(ppid: i64) -> Result<Process, Error> {
    Ok(Process { ppid: Some(ppid) })
}

fn root() -> Result<Process, Error> {
    Ok(Process { ppid: None })
}

fn done(correlation: &Correlation) -> Vec<u64> {
    correlation.urgent().expect("finished").clone()
}

#[test]
fn ancestry_match_marks_the_window_after_one_hop() {
    let snapshot = snapshot_of(vec![toplevel(10, Some(500), None, false)]);
    let c = Correlation::begin(&notification(Some(500), None), Some(&snapshot), &Config::default());
    assert_eq!(c.pending(), Some(500));
    assert!(c.urgent().is_none());
    match &c {
        Correlation::Walking(walk) => assert_eq!(walk.pid(), 500),
        Correlation::Done(_) => panic!("the walk has to look 500 up"),
    }
    let c = c.advance(&root());
    assert_eq!(c.pending(), None);
    assert_eq!(done(&c), vec![10]);
}

#[test]
fn ancestry_walk_through_parents_takes_three_hops() {
    let snapshot = snapshot_of(vec![toplevel(11, Some(777), None, false)]);
    let mut c =
        Correlation::begin(&notification(Some(999), None), Some(&snapshot), &Config::default());
    let mut looked_up = Vec::new();
    while let Some(pid) = c.pending() {
        looked_up.push(pid);
        let lookup = match pid {
            999 => parent(888),
            888 => parent(777),
            777 => root(),
            other => panic!("unexpected lookup of {other}"),
        };
        c = c.advance(&lookup);
    }
    assert_eq!(looked_up, vec![999, 888, 777]);
    assert_eq!(done(&c), vec![11]);
}

#[test]
fn no_pid_and_no_desktop_entry_drops_the_notification() {
    let snapshot = snapshot_of(vec![toplevel(1, Some(5), Some("org.example.Foo"), false)]);
    let c = Correlation::begin(&notification(None, None), Some(&snapshot), &config(true, true, vec![]));
    assert_eq!(c.pending(), None);
    assert_eq!(done(&c), Vec::<u64>::new());
}

#[test]
fn fuzzy_match_on_last_segment_marks_the_window() {
    let snapshot = snapshot_of(vec![toplevel(3, None, Some("org.example.Foo"), false)]);
    let c =
        Correlation::begin(&notification(None, Some("Foo")), Some(&snapshot), &config(true, true, vec![]));
    assert_eq!(c.pending(), None);
    assert_eq!(done(&c), vec![3]);
}

#[test]
fn fuzzy_match_needs_fuzzy_matching_enabled() {
    let snapshot = snapshot_of(vec![toplevel(3, None, Some("org.example.Foo"), false)]);
    let c = Correlation::begin(
        &notification(None, Some("Foo")),
        Some(&snapshot),
        &config(true, false, vec![]),
    );
    assert_eq!(done(&c), Vec::<u64>::new());
    let c = Correlation::begin(&notification(None, Some("Foo")), Some(&snapshot), &Config::default());
    assert_eq!(done(&c), Vec::<u64>::new());
}

#[test]
fn without_snapshot_the_notification_is_dropped() {
    let c = Correlation::begin(&notification(Some(500), Some("Foo")), None, &config(true, true, vec![]));
    assert_eq!(c.pending(), None);
    assert_eq!(done(&c), Vec::<u64>::new());
}

#[test]
fn focused_window_is_not_marked_and_the_walk_falls_back() {
    let snapshot = snapshot_of(vec![
        toplevel(1, Some(500), Some("a"), true),
        toplevel(2, None, Some("firefox"), false),
    ]);
    let c = Correlation::begin(
        &notification(Some(500), Some("firefox")),
        Some(&snapshot),
        &Config::default(),
    );
    assert_eq!(c.pending(), Some(500));
    let c = c.advance(&root());
    assert_eq!(done(&c), vec![2]);
}

#[test]
fn walk_marks_win_over_the_desktop_entry() {
    let snapshot = snapshot_of(vec![
        toplevel(1, Some(500), Some("a"), false),
        toplevel(2, None, Some("firefox"), false),
    ]);
    let c = Correlation::begin(
        &notification(Some(500), Some("firefox")),
        Some(&snapshot),
        &Config::default(),
    );
    let c = c.advance(&root());
    assert_eq!(done(&c), vec![1]);
}

#[test]
fn walk_marks_every_window_on_the_chain() {
    let snapshot = snapshot_of(vec![
        toplevel(1, Some(30), None, false),
        toplevel(2, Some(10), None, false),
        toplevel(3, Some(20), None, true),
    ]);
    let c = Correlation::begin(&notification(Some(10), None), Some(&snapshot), &Config::default());
    let c = c.advance(&parent(20));
    assert_eq!(c.pending(), Some(20));
    let c = c.advance(&parent(30));
    assert_eq!(c.pending(), Some(30));
    let c = c.advance(&root());
    assert_eq!(done(&c), vec![2, 1]);
}

#[test]
fn lookup_error_ends_the_walk() {
    let snapshot = snapshot_of(vec![toplevel(1, Some(30), None, false)]);
    let errors = vec![
        Error::InsufficientFields { pid: 10 },
        Error::ParentMalformedNumber { parent: "x".to_string(), pid: 10 },
        Error::Open { reason: "gone".to_string(), pid: 10 },
        Error::Read { reason: "short".to_string(), pid: 10 },
    ];
    for e in errors {
        let c =
            Correlation::begin(&notification(Some(10), None), Some(&snapshot), &Config::default());
        let c = c.advance(&Err(e));
        assert_eq!(c.pending(), None);
        assert_eq!(done(&c), Vec::<u64>::new());
    }
}

#[test]
fn advance_after_the_end_changes_nothing() {
    let snapshot = snapshot_of(vec![toplevel(1, Some(30), None, false)]);
    let c = Correlation::begin(&notification(Some(30), None), Some(&snapshot), &Config::default());
    let c = c.advance(&root());
    let c = c.advance(&parent(30));
    assert_eq!(c.pending(), None);
    assert_eq!(done(&c), vec![1]);
}

#[test]
fn sender_pid_hint_starts_the_walk_without_connection_pid() {
    let snapshot = snapshot_of(vec![toplevel(4, Some(321), None, false)]);
    let mut n = notification(None, None).notification().clone();
    n.hints.sender_pid = Some(321);
    let c = Correlation::begin(&EnrichedNotification::new(n, None), Some(&snapshot), &Config::default());
    assert_eq!(c.pending(), Some(321));
    assert_eq!(done(&c.advance(&root())), vec![4]);
}

#[test]
fn exact_desktop_entry_match_marks_all_windows_of_the_application() {
    let snapshot = snapshot_of(vec![
        toplevel(1, None, Some("firefox"), false),
        toplevel(2, None, Some("Firefox"), false),
        toplevel(3, None, Some("firefox"), true),
        toplevel(4, None, None, false),
    ]);
    let c = Correlation::begin(
        &notification(None, Some("firefox")),
        Some(&snapshot),
        &config(true, true, vec![]),
    );
    assert_eq!(done(&c), vec![1, 3]);
}

#[test]
fn fuzzy_matches_apply_only_without_exact_match() {
    let snapshot = snapshot_of(vec![
        toplevel(1, None, Some("FIREFOX"), false),
        toplevel(2, None, Some("org.mozilla.firefox"), false),
        toplevel(3, None, Some("other"), false),
    ]);
    let c = Correlation::begin(
        &notification(None, Some("firefox")),
        Some(&snapshot),
        &config(true, true, vec![]),
    );
    assert_eq!(done(&c), vec![1, 2]);
}

#[test]
fn desktop_entry_is_ignored_when_the_configuration_says_so() {
    let snapshot = snapshot_of(vec![toplevel(1, None, Some("firefox"), false)]);
    let c = Correlation::begin(
        &notification(None, Some("firefox")),
        Some(&snapshot),
        &config(false, true, vec![]),
    );
    assert_eq!(done(&c), Vec::<u64>::new());
}

#[test]
fn desktop_entry_is_mapped_through_the_configuration() {
    let snapshot = snapshot_of(vec![
        toplevel(1, None, Some("org.telegram.desktop"), false),
        toplevel(2, None, Some("telegram"), false),
    ]);
    let c = Correlation::begin(
        &notification(None, Some("telegram")),
        Some(&snapshot),
        &config(true, false, vec![("telegram", "org.telegram.desktop")]),
    );
    assert_eq!(done(&c), vec![1]);
}

#[test]
fn pid_window_map_keeps_the_last_window_of_a_process() {
    let snapshot = snapshot_of(vec![
        toplevel(1, Some(7), None, false),
        toplevel(2, None, None, false),
        toplevel(3, Some(7), None, true),
        toplevel(4, Some(8), None, false),
    ]);
    let map = PidWindowMap::new(&snapshot.windows);
    assert_eq!(map.get(7), Some(Target { id: 3, is_focused: true }));
    assert_eq!(map.get(8), Some(Target { id: 4, is_focused: false }));
    assert_eq!(map.get(9), None);
}

#[test]
fn fuzzy_rule_on_lowered_texts() {
    assert!(fuzzy_rule_holds("foo", "foo", false, "", ""));
    assert!(fuzzy_rule_holds("org.a.foo", "foo", true, "foo", "foo"));
    assert!(!fuzzy_rule_holds("org.a.foo", "foo", false, "foo", "foo"));
    assert!(!fuzzy_rule_holds("org.a.foo", "bar", true, "foo", "bar"));
    assert!(!fuzzy_rule_holds("foo", "bar", false, "x", "x"));
}

#[test]
fn matches_fuzzily_lowers_the_application_identifier() {
    assert!(matches_fuzzily("FooBar", "foobar", "foobar"));
    assert!(matches_fuzzily("org.example.Foo", "foo", "foo"));
    assert!(matches_fuzzily("org.example.Foo", "com.other.foo", "foo"));
    assert!(!matches_fuzzily("Foo", "com.other.foo", "foo"));
    assert!(!matches_fuzzily("org.example.Foo", "bar", "bar"));
    assert!(!matches_fuzzily("org.example.Foo.", "foo", "foo"));
    assert!(matches_fuzzily("ÄPP", "äpp", "äpp"));
}

#[test]
fn desktop_entry_marks_prefers_exact_matches() {
    let snapshot = snapshot_of(vec![
        toplevel(1, None, Some("a.Foo"), false),
        toplevel(2, None, Some("Foo"), false),
        toplevel(3, None, Some("foo"), false),
    ]);
    assert_eq!(desktop_entry_marks(&snapshot.windows, "Foo", true), vec![2]);
    assert_eq!(desktop_entry_marks(&snapshot.windows, "FOO", true), vec![1, 2, 3]);
    assert_eq!(desktop_entry_marks(&snapshot.windows, "FOO", false), Vec::<u64>::new());
    assert_eq!(desktop_entry_marks(&snapshot.windows, "b.foo", true), vec![1]);
}

#[test]
fn fallback_uses_entry_as_is_without_mapping() {
    let snapshot = snapshot_of(vec![toplevel(1, None, Some("kitty"), false)]);
    let marks = fallback(
        &snapshot.windows,
        &notification(None, Some("kitty")),
        &config(true, false, vec![("other", "thing")]),
    );
    assert_eq!(marks, vec![1]);
}
