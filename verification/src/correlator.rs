//! Finding the windows that a notification belongs to.
//!
//! The rules, in order: the windows of the sending process and of its
//! ancestors; else the windows whose application identifier is the
//! notification's desktop entry; else, where the configuration allows it,
//! the windows whose application identifier resembles the desktop entry.
//! A notification that no rule places is dropped.

use vstd::prelude::*;
use std::collections::HashMap;
use crate::config::{Config, ConfigView};
use crate::niri::model::PlacedWindow;
use crate::niri::state::{placed_views, Snapshot, Window};
use crate::notify::EnrichedNotification;
use crate::process::{Error, Process};
use crate::text::{has_dot, last_segment, last_segment_of, lowercased, str_eq, to_lowercase};

verus! {

/// What the walk up the process tree needs to know of a window.
#[derive(Debug, Clone, Copy, PartialEq, Eq)]
pub struct Target {
    /// The window's identifier.
    pub id: u64,
    /// Whether the window has the focus.
    pub is_focused: bool,
}

/// The windows by process: each window that names a process stands under
/// it, a later window in place of an earlier one of the same process.
pub open spec fn pid_table(windows: Seq<PlacedWindow>) -> Map<i64, Target>
    decreases windows.len(),
{
    if windows.len() == 0 {
        Map::empty()
    } else {
        let front = pid_table(windows.drop_last());
        let last = windows.last().window;
        match last.pid {
            Some(pid) => front.insert(
                pid as i64,
                Target { id: last.id, is_focused: last.is_focused },
            ),
            None => front,
        }
    }
}

/// The window that one hop of the walk marks: the window of `pid`, unless
/// it has the focus already.
pub open spec fn hop_marks(table: Map<i64, Target>, pid: i64) -> Seq<u64> {
    if table.contains_key(pid) && !table[pid].is_focused {
        seq![table[pid].id]
    } else {
        Seq::empty()
    }
}

/// The windows that the walk marks along a chain of processes, each process
/// the parent of the one before it.
pub open spec fn walk_marks(table: Map<i64, Target>, chain: Seq<i64>) -> Seq<u64>
    decreases chain.len(),
{
    if chain.len() == 0 {
        Seq::empty()
    } else {
        walk_marks(table, chain.drop_last()) + hop_marks(table, chain.last())
    }
}

/// The loose rule, on texts that are in lower case already: the whole
/// identifiers are the same, or the window's identifier holds a `.` and the
/// last segments are the same.
pub open spec fn fuzzy_rule(
    app_lower: Seq<char>,
    mapped_lower: Seq<char>,
    dotted: bool,
    app_last_lower: Seq<char>,
    mapped_last_lower: Seq<char>,
) -> bool {
    app_lower == mapped_lower || (dotted && app_last_lower == mapped_last_lower)
}

/// Whether an application identifier resembles a desktop entry: they are
/// the same but for case, or the identifier holds a `.` and the last
/// `.`-delimited segments of both are the same but for case.
pub open spec fn is_fuzzy_match(app_id: Seq<char>, mapped: Seq<char>) -> bool {
    fuzzy_rule(
        lowercased(app_id),
        lowercased(mapped),
        app_id.contains('.'),
        lowercased(last_segment_of(app_id)),
        lowercased(last_segment_of(mapped)),
    )
}

/// The windows whose application identifier is `mapped`, in their order.
pub open spec fn exact_matches(windows: Seq<PlacedWindow>, mapped: Seq<char>) -> Seq<u64>
    decreases windows.len(),
{
    if windows.len() == 0 {
        Seq::empty()
    } else {
        let front = exact_matches(windows.drop_last(), mapped);
        let last = windows.last().window;
        if last.app_id == Some(mapped) {
            front.push(last.id)
        } else {
            front
        }
    }
}

/// The windows whose application identifier is not `mapped` but resembles
/// it, in their order.
pub open spec fn fuzzy_matches(windows: Seq<PlacedWindow>, mapped: Seq<char>) -> Seq<u64>
    decreases windows.len(),
{
    if windows.len() == 0 {
        Seq::empty()
    } else {
        let front = fuzzy_matches(windows.drop_last(), mapped);
        let last = windows.last().window;
        match last.app_id {
            Some(app_id) => if app_id != mapped && is_fuzzy_match(app_id, mapped) {
                front.push(last.id)
            } else {
                front
            },
            None => front,
        }
    }
}

/// The windows that the application identifier `mapped` marks: those that
/// have it exactly; where there is none and `use_fuzzy` holds, those that
/// resemble it.
pub open spec fn entry_marks(windows: Seq<PlacedWindow>, mapped: Seq<char>, use_fuzzy: bool) -> Seq<
    u64,
> {
    let exact = exact_matches(windows, mapped);
    if exact.len() > 0 {
        exact
    } else if use_fuzzy {
        fuzzy_matches(windows, mapped)
    } else {
        Seq::empty()
    }
}

/// The windows that the desktop entry of a notification marks, where the
/// walk up the process tree has marked none.
pub open spec fn fallback_marks(
    windows: Seq<PlacedWindow>,
    desktop_entry: Option<Seq<char>>,
    config: ConfigView,
) -> Seq<u64> {
    match desktop_entry {
        Some(entry) if config.notifications_should_use_desktop_entry() => entry_marks(
            windows,
            config.mapped_entry(entry),
            config.notifications_use_fuzzy_matching(),
        ),
        _ => Seq::empty(),
    }
}

/// A basic map of PIDs to windows.
///
/// Windows that don't have a PID are ignored, since we can't match on them
/// anyway.
#[derive(Debug)]
pub struct PidWindowMap(HashMap<i64, Target>);

impl View for PidWindowMap {
    type V = Map<i64, Target>;

    closed spec fn view(&self) -> Map<i64, Target> {
        self.0@
    }
}

impl PidWindowMap {
    /// The map of the windows of a snapshot.
    pub fn new(windows: &Vec<Window>) -> (map: Self)
        ensures
            map@ == pid_table(placed_views(windows@)),
    {
        let ghost all = placed_views(windows@);
        let mut map: HashMap<i64, Target> = HashMap::new();
        let mut i: usize = 0;
        while i < windows.len()
            invariant
                i <= windows@.len(),
                all == placed_views(windows@),
                map@ == pid_table(all.take(i as int)),
            decreases windows@.len() - i,
        {
            proof {
                assert(all.take(i + 1).drop_last() == all.take(i as int));
                assert(all.take(i + 1).last() == windows@[i as int]@);
            }
            let window = windows[i].window();
            if let Some(pid) = window.pid {
                map.insert(pid as i64, Target { id: window.id, is_focused: window.is_focused });
            }
            i += 1;
        }
        proof {
            assert(all.take(windows@.len() as int) == all);
        }
        PidWindowMap(map)
    }

    /// The window of the process `pid`, if one names it.
    pub fn get(&self, pid: i64) -> (target: Option<Target>)
        ensures
            target == if self@.contains_key(pid) {
                Some(self@[pid])
            } else {
                None
            },
    {
        match self.0.get(&pid) {
            Some(target) => Some(*target),
            None => None,
        }
    }
}

/// Decides the loose rule on texts that are in lower case already.
pub fn fuzzy_rule_holds(
    app_lower: &str,
    mapped_lower: &str,
    dotted: bool,
    app_last_lower: &str,
    mapped_last_lower: &str,
) -> (holds: bool)
    ensures
        holds == fuzzy_rule(
            app_lower@,
            mapped_lower@,
            dotted,
            app_last_lower@,
            mapped_last_lower@,
        ),
{
    str_eq(app_lower, mapped_lower) || (dotted && str_eq(app_last_lower, mapped_last_lower))
}

/// Whether the application identifier `app_id` resembles a desktop entry,
/// given the entry and its last segment in lower case.
pub fn matches_fuzzily(app_id: &str, mapped_lower: &str, mapped_last_lower: &str) -> (holds: bool)
    ensures
        holds == fuzzy_rule(
            lowercased(app_id@),
            mapped_lower@,
            app_id@.contains('.'),
            lowercased(last_segment_of(app_id@)),
            mapped_last_lower@,
        ),
{
    let app_lower = to_lowercase(app_id);
    let app_last_lower = to_lowercase(last_segment(app_id));
    fuzzy_rule_holds(
        app_lower.as_str(),
        mapped_lower,
        has_dot(app_id),
        app_last_lower.as_str(),
        mapped_last_lower,
    )
}

/// The windows that the application identifier `mapped` marks.
pub fn desktop_entry_marks(windows: &Vec<Window>, mapped: &str, use_fuzzy: bool) -> (marks: Vec<
    u64,
>)
    ensures
        marks@ == entry_marks(placed_views(windows@), mapped@, use_fuzzy),
{
    let ghost all = placed_views(windows@);
    let mapped_lower = to_lowercase(mapped);
    let mapped_last_lower = to_lowercase(last_segment(mapped));
    // So we only have to walk the window list once, we keep track of the
    // fuzzy matches we find, even if we don't use them.
    let mut exact: Vec<u64> = Vec::new();
    let mut fuzzy: Vec<u64> = Vec::new();
    let mut i: usize = 0;
    while i < windows.len()
        invariant
            i <= windows@.len(),
            all == placed_views(windows@),
            mapped_lower@ == lowercased(mapped@),
            mapped_last_lower@ == lowercased(last_segment_of(mapped@)),
            exact@ == exact_matches(all.take(i as int), mapped@),
            use_fuzzy ==> fuzzy@ == fuzzy_matches(all.take(i as int), mapped@),
            !use_fuzzy ==> fuzzy@.len() == 0,
        decreases windows@.len() - i,
    {
        proof {
            assert(all.take(i + 1).drop_last() == all.take(i as int));
            assert(all.take(i + 1).last() == windows@[i as int]@);
        }
        let window = windows[i].window();
        if let Some(app_id) = &window.app_id {
            if str_eq(app_id.as_str(), mapped) {
                exact.push(window.id);
            } else if use_fuzzy {
                if matches_fuzzily(
                    app_id.as_str(),
                    mapped_lower.as_str(),
                    mapped_last_lower.as_str(),
                ) {
                    fuzzy.push(window.id);
                }
            }
        }
        i += 1;
    }
    proof {
        assert(all.take(windows@.len() as int) == all);
    }
    if exact.len() > 0 {
        exact
    } else {
        fuzzy
    }
}

/// The windows that the desktop entry of `notification` marks.
pub fn fallback(windows: &Vec<Window>, notification: &EnrichedNotification, config: &Config) -> (marks:
    Vec<u64>)
    ensures
        marks@ == fallback_marks(placed_views(windows@), notification.desktop_entry(), config@),
{
    if !config.notifications_should_use_desktop_entry() {
        return Vec::new();
    }
    match &notification.notification().hints.desktop_entry {
        Some(desktop_entry) => {
            let mapped = match config.notifications_app_map(desktop_entry.as_str()) {
                Some(mapped) => mapped,
                None => desktop_entry.as_str(),
            };
            desktop_entry_marks(windows, mapped, config.notifications_use_fuzzy_matching())
        },
        None => Vec::new(),
    }
}

/// The mathematical value of a [`Correlation`].
pub enum CorrelationView {
    /// The walk has come to `pid` and waits for its parent.
    Walking { pid: i64, marked: Seq<u64>, table: Map<i64, Target>, fallback: Seq<u64> },
    /// The windows to mark as urgent have been found.
    Done { urgent: Seq<u64> },
}

impl CorrelationView {
    /// Where the correlation of a notification starts: without a snapshot
    /// it is dropped; without a sender the desktop entry decides; else the
    /// walk starts at the sender.
    pub open spec fn begin(
        windows: Option<Seq<PlacedWindow>>,
        sender: Option<i64>,
        desktop_entry: Option<Seq<char>>,
        config: ConfigView,
    ) -> CorrelationView {
        match windows {
            Some(windows) => {
                let fallback = fallback_marks(windows, desktop_entry, config);
                match sender {
                    Some(pid) => CorrelationView::Walking {
                        pid,
                        marked: hop_marks(pid_table(windows), pid),
                        table: pid_table(windows),
                        fallback,
                    },
                    None => CorrelationView::Done { urgent: fallback },
                }
            },
            None => CorrelationView::Done { urgent: Seq::empty() },
        }
    }

    /// The state after the parent of the walk's process has been looked up:
    /// with a parent the walk goes on there; without one it ends, with the
    /// windows it has marked or, if there is none, with those of the
    /// desktop entry.
    pub open spec fn advance(self, parent: Option<i64>) -> CorrelationView {
        match self {
            CorrelationView::Walking { pid, marked, table, fallback } => match parent {
                Some(parent) => CorrelationView::Walking {
                    pid: parent,
                    marked: marked + hop_marks(table, parent),
                    table,
                    fallback,
                },
                None => CorrelationView::Done {
                    urgent: if marked.len() > 0 {
                        marked
                    } else {
                        fallback
                    },
                },
            },
            CorrelationView::Done { .. } => self,
        }
    }

    /// The state after the walk has been told each process of `parents` in
    /// turn as the parent of the one before.
    pub open spec fn climb(self, parents: Seq<i64>) -> CorrelationView
        decreases parents.len(),
    {
        if parents.len() == 0 {
            self
        } else {
            self.climb(parents.drop_last()).advance(Some(parents.last()))
        }
    }
}

/// What a lookup of a process tells the walk: its parent, or that the walk
/// ends, because the process has none or because the lookup failed.
pub open spec fn parent_in(lookup: Result<Process, Error>) -> Option<i64> {
    match lookup {
        Ok(process) => process.ppid,
        Err(_) => None,
    }
}

/// The walk along a chain of processes, each the parent of the one before,
/// marks the windows of the chain; when the chain ends, those are the
/// windows to mark, or those of the desktop entry if the walk marked none.
pub proof fn lemma_walk_marks_chain(
    table: Map<i64, Target>,
    fallback: Seq<u64>,
    chain: Seq<i64>,
)
    requires
        chain.len() > 0,
    ensures
        ({
            let start = CorrelationView::Walking {
                pid: chain[0],
                marked: hop_marks(table, chain[0]),
                table,
                fallback,
            };
            let marked = walk_marks(table, chain);
            &&& start.climb(chain.skip(1)) == CorrelationView::Walking {
                pid: chain.last(),
                marked,
                table,
                fallback,
            }
            &&& start.climb(chain.skip(1)).advance(None) == CorrelationView::Done {
                urgent: if marked.len() > 0 {
                    marked
                } else {
                    fallback
                },
            }
        }),
    decreases chain.len(),
{
    let start = CorrelationView::Walking {
        pid: chain[0],
        marked: hop_marks(table, chain[0]),
        table,
        fallback,
    };
    if chain.len() == 1 {
        assert(chain.drop_last() =~= Seq::<i64>::empty());
        assert(walk_marks(table, chain) =~= hop_marks(table, chain[0]));
        assert(chain.skip(1) =~= Seq::<i64>::empty());
    } else {
        let front = chain.drop_last();
        lemma_walk_marks_chain(table, fallback, front);
        assert(front[0] == chain[0]);
        assert(chain.skip(1).drop_last() =~= front.skip(1));
        assert(chain.skip(1).last() == chain.last());
    }
}

/// The correlation of one notification with the windows of a snapshot.
///
/// Looking up the parent of a process is left to the caller: while the
/// correlation is [`Correlation::Walking`], the caller looks up the process
/// it names and hands the result to [`Correlation::advance`].
#[derive(Debug)]
pub enum Correlation {
    /// The walk up the process tree waits for the parent of a process.
    Walking(Walk),
    /// The windows to mark as urgent; none where the notification is
    /// dropped.
    Done(Vec<u64>),
}

/// A walk up the process tree that waits for the parent of a process.
#[derive(Debug)]
pub struct Walk {
    pid: i64,
    marked: Vec<u64>,
    table: PidWindowMap,
    fallback: Vec<u64>,
}

impl Walk {
    /// The process whose parent the walk waits for.
    pub closed spec fn at(&self) -> i64 {
        self.pid
    }

    /// The process whose parent the walk waits for.
    pub fn pid(&self) -> (pid: i64)
        ensures
            pid == self.at(),
    {
        self.pid
    }
}

impl View for Correlation {
    type V = CorrelationView;

    closed spec fn view(&self) -> CorrelationView {
        match self {
            Correlation::Walking(walk) => CorrelationView::Walking {
                pid: walk.pid,
                marked: walk.marked@,
                table: walk.table@,
                fallback: walk.fallback@,
            },
            Correlation::Done(urgent) => CorrelationView::Done { urgent: urgent@ },
        }
    }
}

/// The windows that a snapshot holds, if there is a snapshot.
pub open spec fn windows_of(snapshot: Option<&Snapshot>) -> Option<Seq<PlacedWindow>> {
    match snapshot {
        Some(snapshot) => Some(snapshot@.windows),
        None => None,
    }
}

impl Correlation {
    /// Starts to correlate `notification` with the windows of the latest
    /// snapshot, if there is one.
    pub fn begin(
        notification: &EnrichedNotification,
        snapshot: Option<&Snapshot>,
        config: &Config,
    ) -> (correlation: Self)
        ensures
            correlation@ == CorrelationView::begin(
                windows_of(snapshot),
                notification.sender(),
                notification.desktop_entry(),
                config@,
            ),
    {
        // Obviously, to match a notification to a toplevel we need toplevels.
        let toplevels = match snapshot {
            Some(toplevels) => toplevels,
            None => {
                return Correlation::Done(Vec::new());
            },
        };
        let fallback = fallback(&toplevels.windows, notification, config);
        match notification.pid() {
            Some(pid) => {
                // With the sender's PID, the heuristic is to walk up from it
                // and see if any of the parents are toplevels.
                let table = PidWindowMap::new(&toplevels.windows);
                let mut walk = Walk { pid, marked: Vec::new(), table, fallback };
                walk.mark(pid);
                Correlation::Walking(walk)
            },
            None => Correlation::Done(fallback),
        }
    }

    /// Takes the result of looking up the process that the walk waits for.
    ///
    /// A failed lookup ends the walk as a process without a parent does: the
    /// process may simply have exited.
    pub fn advance(self, lookup: &Result<Process, Error>) -> (correlation: Self)
        ensures
            correlation@ == self@.advance(parent_in(*lookup)),
    {
        match self {
            Correlation::Walking(mut walk) => {
                let parent = match lookup {
                    Ok(process) => process.ppid,
                    Err(_) => None,
                };
                match parent {
                    Some(ppid) => {
                        // Keep walking up.
                        walk.mark(ppid);
                        walk.pid = ppid;
                        Correlation::Walking(walk)
                    },
                    None => {
                        // There are no more parents.
                        if walk.marked.len() > 0 {
                            Correlation::Done(walk.marked)
                        } else {
                            Correlation::Done(walk.fallback)
                        }
                    },
                }
            },
            Correlation::Done(urgent) => Correlation::Done(urgent),
        }
    }

    /// The process to look up next, while the walk goes on.
    pub fn pending(&self) -> (pid: Option<i64>)
        ensures
            pid == match self@ {
                CorrelationView::Walking { pid, .. } => Some(pid),
                CorrelationView::Done { .. } => None,
            },
    {
        match self {
            Correlation::Walking(walk) => Some(walk.pid),
            Correlation::Done(_) => None,
        }
    }

    /// The windows to mark as urgent, once they have been found.
    pub fn urgent(&self) -> (urgent: Option<&Vec<u64>>)
        ensures
            match urgent {
                Some(ids) => self@ == (CorrelationView::Done { urgent: ids@ }),
                None => self@ is Walking,
            },
    {
        match self {
            Correlation::Walking(_) => None,
            Correlation::Done(urgent) => Some(urgent),
        }
    }
}

impl Walk {
    /// Marks the window of `pid`, unless it has the focus: there isn't
    /// really much to do for a window that is focused already.
    fn mark(&mut self, pid: i64)
        ensures
            final(self).pid == old(self).pid,
            final(self).table == old(self).table,
            final(self).fallback == old(self).fallback,
            final(self).marked@ == old(self).marked@ + hop_marks(old(self).table@, pid),
    {
        if let Some(target) = self.table.get(pid) {
            if !target.is_focused {
                self.marked.push(target.id);
                proof {
                    assert(self.marked@ =~= old(self).marked@ + seq![target.id]);
                }
                return;
            }
        }
        proof {
            assert(self.marked@ =~= old(self).marked@ + Seq::<u64>::empty());
        }
    }
}

} // verus!
