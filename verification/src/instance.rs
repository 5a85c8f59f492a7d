//! What a taskbar instance shows: the workspaces of its outputs in order,
//! each with its windows in order, and the notifications they attract.

use vstd::prelude::*;
use crate::config::Config;
use crate::correlator::{Correlation, CorrelationView};
use crate::niri::ipc::{workspace_views, Workspace, WorkspaceView};
use crate::niri::model::{PlacedWindow, SnapshotView};
use crate::niri::state::Snapshot;
use crate::notify::EnrichedNotification;
use crate::order::lemma_strict_order_unique;
use crate::output::{Filter, FilterView};
use crate::state::Event;

verus! {

/// The name under which an output is filtered: its own, or the empty name
/// where it has none.
pub open spec fn output_name(output: Option<Seq<char>>) -> Seq<char> {
    match output {
        Some(name) => name,
        None => Seq::empty(),
    }
}

/// Whether the workspace `before` is shown ahead of the workspace `after`,
/// both given by their place in the snapshot: the lower index first, and of
/// two workspaces with the same index the one that the snapshot lists first.
pub open spec fn workspace_precedes(workspaces: Seq<WorkspaceView>, before: int, after: int) -> bool {
    workspaces[before].idx < workspaces[after].idx || (workspaces[before].idx
        == workspaces[after].idx && before < after)
}

/// Whether a window at `before` is shown ahead of one at `after`: by row,
/// then by column; a window without a position behind those that have one.
pub open spec fn position_precedes(
    before: Option<(usize, usize)>,
    after: Option<(usize, usize)>,
) -> bool {
    match (before, after) {
        (Some((row1, col1)), Some((row2, col2))) => row1 < row2 || (row1 == row2 && col1 < col2),
        (Some(_), None) => true,
        (None, _) => false,
    }
}

/// Whether the window `before` is shown ahead of the window `after`, both
/// given by their place in the snapshot: by position, and of two windows
/// with the same position the one that the snapshot lists first.
pub open spec fn window_precedes(windows: Seq<PlacedWindow>, before: int, after: int) -> bool {
    let b = windows[before].window.layout.pos_in_scrolling_layout;
    let a = windows[after].window.layout.pos_in_scrolling_layout;
    position_precedes(b, a) || (b == a && before < after)
}

/// Whether the window at `window` belongs into the row of the workspace at
/// `workspace`: it is on that workspace, and the filter shows its output.
pub open spec fn in_row(
    snapshot: SnapshotView,
    filter: FilterView,
    workspace: int,
    window: int,
) -> bool {
    &&& 0 <= window < snapshot.windows.len()
    &&& snapshot.windows[window].window.workspace_id == Some(snapshot.workspaces[workspace].id)
    &&& filter.shows(output_name(snapshot.windows[window].output))
}

/// One workspace of the bar: the workspace, its windows in the order of
/// their buttons, and whether its label is shown. Workspace and windows are
/// given by their places in the snapshot.
#[derive(Debug, Clone, PartialEq, Eq)]
pub struct Row {
    /// The place of the workspace in the snapshot's workspaces.
    pub workspace: usize,
    /// The places of its windows in the snapshot's windows, in button order.
    pub windows: Vec<usize>,
    /// Whether the label of the workspace is shown: that of an empty
    /// workspace is hidden, unless the workspace has the focus.
    pub show_label: bool,
}

/// Whether `order` lists the workspaces that the filter shows, each once,
/// in the order in which the bar shows them.
pub open spec fn is_workspace_order(
    workspaces: Seq<WorkspaceView>,
    filter: FilterView,
    order: Seq<usize>,
) -> bool {
    &&& forall|k: int|
        0 <= k < order.len() ==> (#[trigger] order[k]) < workspaces.len() && filter.shows(
            output_name(workspaces[order[k] as int].output),
        )
    &&& forall|a: int, b: int|
        0 <= a < b < order.len() ==> workspace_precedes(
            workspaces,
            #[trigger] order[a] as int,
            #[trigger] order[b] as int,
        )
    &&& forall|i: int|
        0 <= i < workspaces.len() && filter.shows(output_name(#[trigger] workspaces[i].output))
            ==> exists|k: int| 0 <= k < order.len() && order[k] == i
}

/// Whether `order` lists the windows of the row of `workspace`, each once,
/// in the order of their buttons.
pub open spec fn is_window_order(
    snapshot: SnapshotView,
    filter: FilterView,
    workspace: int,
    order: Seq<usize>,
) -> bool {
    &&& forall|k: int|
        0 <= k < order.len() ==> in_row(snapshot, filter, workspace, #[trigger] order[k] as int)
    &&& forall|a: int, b: int|
        0 <= a < b < order.len() ==> window_precedes(
            snapshot.windows,
            #[trigger] order[a] as int,
            #[trigger] order[b] as int,
        )
    &&& forall|j: int| #[trigger]
        in_row(snapshot, filter, workspace, j) ==> exists|k: int|
            0 <= k < order.len() && order[k] == j
}

/// The places of the workspaces of the rows.
pub open spec fn row_workspaces(rows: Seq<Row>) -> Seq<usize> {
    rows.map_values(|row: Row| row.workspace)
}

/// Whether `rows` is what the bar shows of `snapshot` under `filter`: one
/// row for each shown workspace, in order, with that workspace's windows in
/// order.
pub open spec fn is_plan(snapshot: SnapshotView, filter: FilterView, rows: Seq<Row>) -> bool {
    &&& is_workspace_order(snapshot.workspaces, filter, row_workspaces(rows))
    &&& forall|k: int|
        0 <= k < rows.len() ==> is_window_order(
            snapshot,
            filter,
            (#[trigger] rows[k]).workspace as int,
            rows[k].windows@,
        )
    &&& forall|k: int|
        0 <= k < rows.len() ==> (#[trigger] rows[k]).show_label == (
        snapshot.workspaces[rows[k].workspace as int].is_focused || rows[k].windows@.len() > 0)
}

/// The workspaces that a filter shows have one order.
pub proof fn lemma_workspace_order_unique(
    workspaces: Seq<WorkspaceView>,
    filter: FilterView,
    a: Seq<usize>,
    b: Seq<usize>,
)
    requires
        is_workspace_order(workspaces, filter, a),
        is_workspace_order(workspaces, filter, b),
    ensures
        a == b,
{
    let before = |x: usize, y: usize| workspace_precedes(workspaces, x as int, y as int);
    assert forall|x: usize| a.contains(x) <==> b.contains(x) by {
        if a.contains(x) {
            let k = choose|k: int| 0 <= k < a.len() && a[k] == x;
            assert(a[k] < workspaces.len());
            assert(filter.shows(output_name(workspaces[x as int].output)));
            let m = choose|m: int| 0 <= m < b.len() && b[m] == x as int;
            assert(b[m] == x);
        }
        if b.contains(x) {
            let k = choose|k: int| 0 <= k < b.len() && b[k] == x;
            assert(b[k] < workspaces.len());
            assert(filter.shows(output_name(workspaces[x as int].output)));
            let m = choose|m: int| 0 <= m < a.len() && a[m] == x as int;
            assert(a[m] == x);
        }
    }
    assert forall|i: int, j: int| 0 <= i < j < a.len() implies before(a[i], a[j]) by {
        assert(workspace_precedes(workspaces, a[i] as int, a[j] as int));
    }
    assert forall|i: int, j: int| 0 <= i < j < b.len() implies before(b[i], b[j]) by {
        assert(workspace_precedes(workspaces, b[i] as int, b[j] as int));
    }
    lemma_strict_order_unique(a, b, before);
}

/// The windows of a row have one order.
pub proof fn lemma_window_order_unique(
    snapshot: SnapshotView,
    filter: FilterView,
    workspace: int,
    a: Seq<usize>,
    b: Seq<usize>,
)
    requires
        is_window_order(snapshot, filter, workspace, a),
        is_window_order(snapshot, filter, workspace, b),
    ensures
        a == b,
{
    let before = |x: usize, y: usize| window_precedes(snapshot.windows, x as int, y as int);
    assert forall|x: usize| a.contains(x) <==> b.contains(x) by {
        if a.contains(x) {
            let k = choose|k: int| 0 <= k < a.len() && a[k] == x;
            assert(in_row(snapshot, filter, workspace, a[k] as int));
            let m = choose|m: int| 0 <= m < b.len() && b[m] == x as int;
            assert(b[m] == x);
        }
        if b.contains(x) {
            let k = choose|k: int| 0 <= k < b.len() && b[k] == x;
            assert(in_row(snapshot, filter, workspace, b[k] as int));
            let m = choose|m: int| 0 <= m < a.len() && a[m] == x as int;
            assert(a[m] == x);
        }
    }
    assert forall|i: int, j: int| 0 <= i < j < a.len() implies before(a[i], a[j]) by {
        assert(window_precedes(snapshot.windows, a[i] as int, a[j] as int));
    }
    assert forall|i: int, j: int| 0 <= i < j < b.len() implies before(b[i], b[j]) by {
        assert(window_precedes(snapshot.windows, b[i] as int, b[j] as int));
    }
    lemma_strict_order_unique(a, b, before);
}

/// A snapshot has one plan under a filter: the same workspaces in the same
/// order, with the same windows in the same order and the same labels.
pub proof fn lemma_plan_unique(snapshot: SnapshotView, filter: FilterView, a: Seq<Row>, b: Seq<Row>)
    requires
        is_plan(snapshot, filter, a),
        is_plan(snapshot, filter, b),
    ensures
        a.len() == b.len(),
        forall|k: int|
            0 <= k < a.len() ==> {
                &&& (#[trigger] a[k]).workspace == b[k].workspace
                &&& a[k].windows@ == b[k].windows@
                &&& a[k].show_label == b[k].show_label
            },
{
    lemma_workspace_order_unique(snapshot.workspaces, filter, row_workspaces(a), row_workspaces(b));
    assert(a.len() == row_workspaces(a).len());
    assert(b.len() == row_workspaces(b).len());
    assert forall|k: int| 0 <= k < a.len() implies ({
        &&& (#[trigger] a[k]).workspace == b[k].workspace
        &&& a[k].windows@ == b[k].windows@
        &&& a[k].show_label == b[k].show_label
    }) by {
        assert(row_workspaces(a)[k] == a[k].workspace);
        assert(row_workspaces(b)[k] == b[k].workspace);
        lemma_window_order_unique(
            snapshot,
            filter,
            a[k].workspace as int,
            a[k].windows@,
            b[k].windows@,
        );
    }
}

/// Whether the filter shows an output that may be without a name.
fn shows(filter: &Filter, output: &Option<String>) -> (shown: bool)
    ensures
        shown == filter@.shows(
            output_name(
                match output {
                    Some(name) => Some(name@),
                    None => None,
                },
            ),
        ),
{
    match output {
        Some(name) => filter.should_show(name.as_str()),
        None => {
            proof {
                reveal_strlit("");
            }
            assert(""@ =~= Seq::<char>::empty());
            filter.should_show("")
        },
    }
}

/// Decides [`position_precedes`].
fn position_before(before: Option<(usize, usize)>, after: Option<(usize, usize)>) -> (precedes: bool)
    ensures
        precedes == position_precedes(before, after),
{
    match (before, after) {
        (Some((row1, col1)), Some((row2, col2))) => row1 < row2 || (row1 == row2 && col1 < col2),
        (Some(_), None) => true,
        (None, _) => false,
    }
}

/// The workspaces that the filter shows, by their place in `workspaces`, in
/// the order in which the bar shows them.
pub fn workspace_order(workspaces: &Vec<Workspace>, filter: &Filter) -> (order: Vec<usize>)
    ensures
        is_workspace_order(workspace_views(workspaces@), filter@, order@),
{
    let ghost all = workspace_views(workspaces@);
    let mut order: Vec<usize> = Vec::new();
    let mut i: usize = 0;
    while i < workspaces.len()
        invariant
            i <= workspaces@.len(),
            all == workspace_views(workspaces@),
            forall|k: int|
                0 <= k < order@.len() ==> (#[trigger] order@[k]) < i && filter@.shows(
                    output_name(all[order@[k] as int].output),
                ),
            forall|a: int, b: int|
                0 <= a < b < order@.len() ==> workspace_precedes(
                    all,
                    #[trigger] order@[a] as int,
                    #[trigger] order@[b] as int,
                ),
            forall|j: int|
                0 <= j < i && filter@.shows(output_name(#[trigger] all[j].output)) ==> exists|
                    k: int,
                | 0 <= k < order@.len() && order@[k] == j,
        decreases workspaces@.len() - i,
    {
        assert(all[i as int] == workspaces@[i as int]@);
        if shows(filter, &workspaces[i].output) {
            let idx = workspaces[i].idx;
            let mut at: usize = 0;
            while at < order.len() && workspaces[order[at]].idx <= idx
                invariant
                    at <= order@.len(),
                    i < workspaces@.len(),
                    all == workspace_views(workspaces@),
                    idx == all[i as int].idx,
                    forall|k: int| 0 <= k < order@.len() ==> (#[trigger] order@[k]) < i,
                    forall|k: int|
                        0 <= k < at ==> workspace_precedes(all, #[trigger] order@[k] as int, i as int),
                decreases order@.len() - at,
            {
                assert(all[order@[at as int] as int] == workspaces@[order@[at as int] as int]@);
                at += 1;
            }
            let ghost before = order@;
            proof {
                if at < before.len() {
                    assert(all[before[at as int] as int] == workspaces@[before[at as int] as int]@);
                }
            }
            order.insert(at, i);
            proof {
                assert(order@ == before.insert(at as int, i));
                assert forall|a: int, b: int| 0 <= a < b < order@.len() implies workspace_precedes(
                    all,
                    #[trigger] order@[a] as int,
                    #[trigger] order@[b] as int,
                ) by {
                    let oa = if a < at { a } else { a - 1 };
                    let ob = if b < at { b } else { b - 1 };
                    if a != at && b != at {
                        assert(order@[a] == before[oa]);
                        assert(order@[b] == before[ob]);
                    } else if a == at {
                        assert(order@[b] == before[ob]);
                        if ob > at {
                            assert(workspace_precedes(
                                all,
                                before[at as int] as int,
                                before[ob] as int,
                            ));
                        }
                    } else {
                        assert(order@[a] == before[oa]);
                    }
                }
                assert forall|j: int|
                    0 <= j < i + 1 && filter@.shows(
                        output_name(#[trigger] all[j].output),
                    ) implies exists|k: int| 0 <= k < order@.len() && order@[k] == j by {
                    if j < i {
                        let k = choose|k: int| 0 <= k < before.len() && before[k] == j;
                        let nk = if k < at { k } else { k + 1 };
                        assert(order@[nk] == j);
                    } else {
                        assert(order@[at as int] == j);
                    }
                }
                assert forall|k: int| 0 <= k < order@.len() implies (#[trigger] order@[k]) < i + 1
                    && filter@.shows(output_name(all[order@[k] as int].output)) by {
                    let ok = if k < at { k } else { k - 1 };
                    if k != at {
                        assert(order@[k] == before[ok]);
                    }
                }
            }
        }
        i += 1;
    }
    order
}

/// The windows of the row of the workspace at `workspace`, by their place
/// in the snapshot, in the order of their buttons. A place behind the last
/// workspace has no row, and no windows.
pub fn window_order(snapshot: &Snapshot, filter: &Filter, workspace: usize) -> (order: Vec<usize>)
    ensures
        workspace < snapshot@.workspaces.len() ==> is_window_order(
            snapshot@,
            filter@,
            workspace as int,
            order@,
        ),
        workspace >= snapshot@.workspaces.len() ==> order@.len() == 0,
{
    if workspace >= snapshot.workspaces.len() {
        return Vec::new();
    }
    let ghost all = snapshot@.windows;
    let ghost view = snapshot@;
    let id = snapshot.workspaces[workspace].id;
    assert(view.workspaces[workspace as int] == snapshot.workspaces@[workspace as int]@);
    let mut order: Vec<usize> = Vec::new();
    let mut j: usize = 0;
    while j < snapshot.windows.len()
        invariant
            j <= snapshot.windows@.len(),
            workspace < view.workspaces.len(),
            view == snapshot@,
            all == view.windows,
            id == view.workspaces[workspace as int].id,
            forall|k: int|
                0 <= k < order@.len() ==> (#[trigger] order@[k]) < j && in_row(
                    view,
                    filter@,
                    workspace as int,
                    order@[k] as int,
                ),
            forall|a: int, b: int|
                0 <= a < b < order@.len() ==> window_precedes(
                    all,
                    #[trigger] order@[a] as int,
                    #[trigger] order@[b] as int,
                ),
            forall|w: int|
                0 <= w < j && #[trigger] in_row(view, filter@, workspace as int, w) ==> exists|
                    k: int,
                | 0 <= k < order@.len() && order@[k] == w,
        decreases snapshot.windows@.len() - j,
    {
        let window = &snapshot.windows[j];
        assert(all[j as int] == window@);
        let on_workspace = match window.window().workspace_id {
            Some(ws) => ws == id,
            None => false,
        };
        let shown = match window.output() {
            Some(name) => filter.should_show(name),
            None => {
                proof {
                    reveal_strlit("");
                }
                assert(""@ =~= Seq::<char>::empty());
                filter.should_show("")
            },
        };
        if on_workspace && shown {
            assert(in_row(view, filter@, workspace as int, j as int));
            let position = window.window().layout.pos_in_scrolling_layout;
            let mut at: usize = 0;
            while at < order.len() && !position_before(
                position,
                snapshot.windows[order[at]].window().layout.pos_in_scrolling_layout,
            )
                invariant
                    at <= order@.len(),
                    j < snapshot.windows@.len(),
                    view == snapshot@,
                    all == view.windows,
                    position == all[j as int].window.layout.pos_in_scrolling_layout,
                    forall|k: int| 0 <= k < order@.len() ==> (#[trigger] order@[k]) < j,
                    forall|k: int|
                        0 <= k < at ==> window_precedes(all, #[trigger] order@[k] as int, j as int),
                decreases order@.len() - at,
            {
                assert(all[order@[at as int] as int] == snapshot.windows@[order@[at as int] as int]@);
                at += 1;
            }
            let ghost before = order@;
            proof {
                if at < before.len() {
                    assert(all[before[at as int] as int]
                        == snapshot.windows@[before[at as int] as int]@);
                }
            }
            order.insert(at, j);
            proof {
                assert(order@ == before.insert(at as int, j));
                assert forall|a: int, b: int| 0 <= a < b < order@.len() implies window_precedes(
                    all,
                    #[trigger] order@[a] as int,
                    #[trigger] order@[b] as int,
                ) by {
                    let oa = if a < at { a } else { a - 1 };
                    let ob = if b < at { b } else { b - 1 };
                    if a != at && b != at {
                        assert(order@[a] == before[oa]);
                        assert(order@[b] == before[ob]);
                    } else if a == at {
                        assert(order@[b] == before[ob]);
                        if ob > at {
                            assert(window_precedes(
                                all,
                                before[at as int] as int,
                                before[ob] as int,
                            ));
                        }
                    } else {
                        assert(order@[a] == before[oa]);
                    }
                }
                assert forall|w: int|
                    0 <= w < j + 1 && #[trigger] in_row(
                        view,
                        filter@,
                        workspace as int,
                        w,
                    ) implies exists|k: int| 0 <= k < order@.len() && order@[k] == w by {
                    if w < j {
                        let k = choose|k: int| 0 <= k < before.len() && before[k] == w;
                        let nk = if k < at { k } else { k + 1 };
                        assert(order@[nk] == w);
                    } else {
                        assert(order@[at as int] == w);
                    }
                }
                assert forall|k: int| 0 <= k < order@.len() implies (#[trigger] order@[k]) < j + 1
                    && in_row(view, filter@, workspace as int, order@[k] as int) by {
                    let ok = if k < at { k } else { k - 1 };
                    if k != at {
                        assert(order@[k] == before[ok]);
                    }
                }
            }
        }
        j += 1;
    }
    order
}

/// What the bar shows of `snapshot` under `filter`.
pub fn plan(snapshot: &Snapshot, filter: &Filter) -> (rows: Vec<Row>)
    ensures
        is_plan(snapshot@, filter@, rows@),
{
    let order = workspace_order(&snapshot.workspaces, filter);
    let mut rows: Vec<Row> = Vec::new();
    let mut k: usize = 0;
    while k < order.len()
        invariant
            k <= order@.len(),
            is_workspace_order(snapshot@.workspaces, filter@, order@),
            rows@.len() == k,
            forall|r: int| 0 <= r < k ==> (#[trigger] rows@[r]).workspace == order@[r],
            forall|r: int|
                0 <= r < k ==> is_window_order(
                    snapshot@,
                    filter@,
                    (#[trigger] rows@[r]).workspace as int,
                    rows@[r].windows@,
                ),
            forall|r: int|
                0 <= r < k ==> (#[trigger] rows@[r]).show_label == (
                snapshot@.workspaces[rows@[r].workspace as int].is_focused
                    || rows@[r].windows@.len() > 0),
        decreases order@.len() - k,
    {
        let workspace = order[k];
        assert(order@[k as int] < snapshot@.workspaces.len());
        assert(snapshot@.workspaces[workspace as int] == snapshot.workspaces@[workspace as int]@);
        let windows = window_order(snapshot, filter, workspace);
        // Hide empty workspaces, unless focused.
        let show_label = snapshot.workspaces[workspace].is_focused || windows.len() > 0;
        rows.push(Row { workspace, windows, show_label });
        k += 1;
    }
    proof {
        assert(row_workspaces(rows@) =~= order@);
    }
    rows
}

/// What an event asks the bar to do.
#[derive(Debug)]
pub enum Update {
    /// A notification is being correlated with the windows: once the
    /// correlation is done, the buttons of its windows are marked urgent.
    Notification(Correlation),
    /// The rows of the bar are to be brought in line with these.
    Snapshot(Vec<Row>),
}

/// A taskbar instance: what it remembers between the events it is given.
#[derive(Debug)]
pub struct Instance {
    last_snapshot: Option<Snapshot>,
}

impl Instance {
    /// The snapshot that the instance has seen last.
    pub closed spec fn snapshot(&self) -> Option<Snapshot> {
        self.last_snapshot
    }

    /// An instance that has seen no snapshot.
    pub fn new() -> (instance: Self)
        ensures
            instance.snapshot() is None,
    {
        Instance { last_snapshot: None }
    }

    /// The snapshot that the instance has seen last, if any.
    pub fn last_snapshot(&self) -> (snapshot: Option<&Snapshot>)
        ensures
            match snapshot {
                Some(s) => self.snapshot() == Some(*s),
                None => self.snapshot() is None,
            },
    {
        self.last_snapshot.as_ref()
    }

    /// Starts to correlate a notification with the windows that the
    /// instance has seen last. Without a snapshot the notification is
    /// dropped.
    pub fn process_notification(&self, notification: &EnrichedNotification, config: &Config) -> (correlation:
        Correlation)
        ensures
            correlation@ == CorrelationView::begin(
                match self.snapshot() {
                    Some(s) => Some(s@.windows),
                    None => None,
                },
                notification.sender(),
                notification.desktop_entry(),
                config@,
            ),
    {
        Correlation::begin(notification, self.last_snapshot.as_ref(), config)
    }

    /// The workspaces to show, by their place in `workspaces`, in the order
    /// in which the bar shows them.
    pub fn process_workspace_update(&self, workspaces: &Vec<Workspace>, filter: &Filter) -> (order:
        Vec<usize>)
        ensures
            is_workspace_order(workspace_views(workspaces@), filter@, order@),
    {
        workspace_order(workspaces, filter)
    }

    /// Takes a snapshot: says what the bar shows of it, and remembers it
    /// for the notifications to come.
    pub fn process_window_snapshot(&mut self, snapshot: Snapshot, filter: &Filter) -> (rows: Vec<Row>)
        ensures
            final(self).snapshot() == Some(snapshot),
            is_plan(snapshot@, filter@, rows@),
    {
        let rows = plan(&snapshot, filter);
        self.last_snapshot = Some(snapshot);
        rows
    }

    /// Takes the next event of the instance's stream.
    pub fn handle(&mut self, event: Event, filter: &Filter, config: &Config) -> (update: Update)
        ensures
            match event {
                Event::Notification(notification) => {
                    &&& final(self).snapshot() == old(self).snapshot()
                    &&& update matches Update::Notification(correlation)
                    &&& correlation@ == CorrelationView::begin(
                        match old(self).snapshot() {
                            Some(s) => Some(s@.windows),
                            None => None,
                        },
                        notification.sender(),
                        notification.desktop_entry(),
                        config@,
                    )
                },
                Event::WindowSnapshot(snapshot) => {
                    &&& final(self).snapshot() == Some(snapshot)
                    &&& update matches Update::Snapshot(rows)
                    &&& is_plan(snapshot@, filter@, rows@)
                },
            },
    {
        match event {
            Event::Notification(notification) => Update::Notification(
                self.process_notification(&*notification, config),
            ),
            Event::WindowSnapshot(snapshot) => Update::Snapshot(
                self.process_window_snapshot(snapshot, filter),
            ),
        }
    }
}

} // verus!
