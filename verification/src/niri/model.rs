//! The mathematical model of the window set: its states, its transitions
//! and its snapshots, with what holds of them.

use vstd::prelude::*;
use super::ipc::{EventView, WindowLayout, WindowView, WorkspaceView};
use crate::order::lemma_strict_order_unique;

verus! {

/// The map that a full window list stands for: each window under its
/// identifier, a later window in place of an earlier one with the same
/// identifier.
pub open spec fn window_map(list: Seq<WindowView>) -> Map<u64, WindowView>
    decreases list.len(),
{
    if list.len() == 0 {
        Map::empty()
    } else {
        window_map(list.drop_last()).insert(list.last().id, list.last())
    }
}

/// The map that a full workspace list stands for, built as [`window_map`] is.
pub open spec fn workspace_map(list: Seq<WorkspaceView>) -> Map<u64, WorkspaceView>
    decreases list.len(),
{
    if list.len() == 0 {
        Map::empty()
    } else {
        workspace_map(list.drop_last()).insert(list.last().id, list.last())
    }
}

/// A window of a snapshot: the window and the output of its workspace.
pub struct PlacedWindow {
    pub window: WindowView,
    pub output: Option<Seq<char>>,
}

/// The mathematical value of a [`Snapshot`].
pub struct SnapshotView {
    pub windows: Seq<PlacedWindow>,
    pub workspaces: Seq<WorkspaceView>,
}

/// The compositor's state once both full lists have been seen.
pub struct NiriView {
    pub windows: Map<u64, WindowView>,
    pub workspaces: Map<u64, WorkspaceView>,
}

impl NiriView {
    /// Every record is stored under its own identifier.
    pub open spec fn wf(self) -> bool {
        &&& forall|id: u64| #[trigger] self.windows.contains_key(id) ==> self.windows[id].id == id
        &&& forall|id: u64| #[trigger]
            self.workspaces.contains_key(id) ==> self.workspaces[id].id == id
    }

    /// The state that the two full lists give.
    pub open spec fn new(windows: Seq<WindowView>, workspaces: Seq<WorkspaceView>) -> NiriView {
        NiriView { windows: window_map(windows), workspaces: workspace_map(workspaces) }
    }

    /// The window `id` is gone; nothing changes where there is none.
    pub open spec fn remove_window(self, id: u64) -> NiriView {
        NiriView { windows: self.windows.remove(id), ..self }
    }

    /// The windows are those of the full list `windows`, and no others.
    pub open spec fn replace_windows(self, windows: Seq<WindowView>) -> NiriView {
        NiriView { windows: window_map(windows), ..self }
    }

    /// The workspaces are those of the full list `workspaces`, and no
    /// others.
    pub open spec fn replace_workspaces(self, workspaces: Seq<WorkspaceView>) -> NiriView {
        NiriView { workspaces: workspace_map(workspaces), ..self }
    }

    /// The window with identifier `id` has the focus, and no other.
    pub open spec fn set_focus(self, id: Option<u64>) -> NiriView {
        NiriView {
            windows: self.windows.map_values(
                |w: WindowView| WindowView { is_focused: Some(w.id) == id, ..w },
            ),
            ..self
        }
    }

    /// The window `id` gets `layout`, if there is such a window.
    pub open spec fn update_window_layout(self, id: u64, layout: WindowLayout) -> NiriView {
        if self.windows.contains_key(id) {
            NiriView {
                windows: self.windows.insert(id, WindowView { layout, ..self.windows[id] }),
                ..self
            }
        } else {
            self
        }
    }

    /// The layout changes of one event, applied in their order.
    pub open spec fn update_window_layouts(self, changes: Seq<(u64, WindowLayout)>) -> NiriView
        decreases changes.len(),
    {
        if changes.len() == 0 {
            self
        } else {
            self.update_window_layouts(changes.drop_last()).update_window_layout(
                changes.last().0,
                changes.last().1,
            )
        }
    }

    /// `window` is stored under its identifier; where it has the focus, every
    /// other window loses it.
    pub open spec fn upsert_window(self, window: WindowView) -> NiriView {
        let others = if window.is_focused {
            self.windows.map_values(|w: WindowView| WindowView { is_focused: false, ..w })
        } else {
            self.windows
        };
        NiriView { windows: others.insert(window.id, window), ..self }
    }

    /// Workspace `id` has the focus if `focused` says so, and no other has.
    pub open spec fn activate_workspace(self, id: u64, focused: bool) -> NiriView {
        NiriView {
            workspaces: self.workspaces.map_values(
                |w: WorkspaceView| WorkspaceView { is_focused: focused && id == w.id, ..w },
            ),
            ..self
        }
    }

    /// Whether window `id` can be attributed to an output: it is known, and
    /// so is the workspace it names.
    pub open spec fn attributable(self, id: u64) -> bool {
        &&& self.windows.contains_key(id)
        &&& self.windows[id].workspace_id matches Some(workspace)
        &&& self.workspaces.contains_key(workspace)
    }

    /// Window `id` with the output of its workspace.
    pub open spec fn placed(self, id: u64) -> PlacedWindow {
        PlacedWindow {
            window: self.windows[id],
            output: self.workspaces[self.windows[id].workspace_id.unwrap()].output,
        }
    }

    /// Whether `snapshot` is the snapshot of this state: the attributable
    /// windows, each once and with its output, and all workspaces, both in
    /// ascending order of identifier.
    pub open spec fn snapshot_is(self, snapshot: SnapshotView) -> bool {
        let windows = snapshot.windows;
        let workspaces = snapshot.workspaces;
        &&& forall|i: int, j: int|
            0 <= i < j < windows.len() ==> windows[i].window.id < windows[j].window.id
        &&& forall|i: int|
            0 <= i < windows.len() ==> self.attributable(#[trigger] windows[i].window.id)
                && windows[i] == self.placed(windows[i].window.id)
        &&& forall|id: u64| #[trigger]
            self.attributable(id) ==> exists|i: int|
                0 <= i < windows.len() && windows[i].window.id == id
        &&& forall|i: int, j: int|
            0 <= i < j < workspaces.len() ==> workspaces[i].id < workspaces[j].id
        &&& forall|i: int|
            0 <= i < workspaces.len() ==> self.workspaces.contains_key(
                #[trigger] workspaces[i].id,
            ) && workspaces[i] == self.workspaces[workspaces[i].id]
        &&& forall|id: u64| #[trigger]
            self.workspaces.contains_key(id) ==> exists|i: int|
                0 <= i < workspaces.len() && workspaces[i].id == id
    }
}

/// The mathematical value of a [`WindowSet`]: what it has seen so far.
pub enum WindowSetView {
    /// Neither full list has arrived.
    Uninitialized,
    /// The full window list has arrived and is held back.
    WindowsOnly(Seq<WindowView>),
    /// The full workspace list has arrived and is held back.
    WorkspacesOnly(Seq<WorkspaceView>),
    /// Both full lists have arrived.
    Ready(NiriView),
}

impl WindowSetView {
    /// The state after `event`.
    pub open spec fn with_event(self, event: EventView) -> WindowSetView {
        match event {
            EventView::WindowsChanged { windows } => match self {
                WindowSetView::WorkspacesOnly(workspaces) => WindowSetView::Ready(
                    NiriView::new(windows, workspaces),
                ),
                WindowSetView::WindowsOnly(_) | WindowSetView::Uninitialized => {
                    WindowSetView::WindowsOnly(windows)
                },
                WindowSetView::Ready(state) => WindowSetView::Ready(
                    state.replace_windows(windows),
                ),
            },
            EventView::WorkspacesChanged { workspaces } => match self {
                WindowSetView::WindowsOnly(windows) => WindowSetView::Ready(
                    NiriView::new(windows, workspaces),
                ),
                WindowSetView::WorkspacesOnly(_) | WindowSetView::Uninitialized => {
                    WindowSetView::WorkspacesOnly(workspaces)
                },
                WindowSetView::Ready(state) => WindowSetView::Ready(
                    state.replace_workspaces(workspaces),
                ),
            },
            EventView::WindowClosed { id } => match self {
                WindowSetView::Ready(state) => WindowSetView::Ready(state.remove_window(id)),
                _ => self,
            },
            EventView::WindowOpenedOrChanged { window } => match self {
                WindowSetView::Ready(state) => WindowSetView::Ready(state.upsert_window(window)),
                _ => self,
            },
            EventView::WindowFocusChanged { id } => match self {
                WindowSetView::Ready(state) => WindowSetView::Ready(state.set_focus(id)),
                _ => self,
            },
            EventView::WindowLayoutsChanged { changes } => match self {
                WindowSetView::Ready(state) => WindowSetView::Ready(
                    state.update_window_layouts(changes),
                ),
                _ => self,
            },
            EventView::WorkspaceActivated { id, focused } => match self {
                WindowSetView::Ready(state) => WindowSetView::Ready(
                    state.activate_workspace(id, focused),
                ),
                _ => self,
            },
            EventView::Other => self,
        }
    }

    /// Whether `event` comes unexpectedly: it is an update, and the machine
    /// is not ready for updates because a full list is still missing. Such
    /// an event changes nothing.
    pub open spec fn unexpected(self, event: EventView) -> bool {
        !(self is Ready) && !(event is WindowsChanged) && !(event is WorkspacesChanged) && !(event
            is Other)
    }

    /// The state after a sequence of events, taken in their order.
    pub open spec fn run(self, events: Seq<EventView>) -> WindowSetView
        decreases events.len(),
    {
        if events.len() == 0 {
            self
        } else {
            self.run(events.drop_last()).with_event(events.last())
        }
    }

    /// In the ready state, every record is stored under its own identifier.
    pub open spec fn wf(self) -> bool {
        match self {
            WindowSetView::Ready(state) => state.wf(),
            _ => true,
        }
    }

    /// Whether a snapshot goes out with `snapshot`'s value: one does exactly
    /// in the ready state, and it is the state's snapshot.
    pub open spec fn emits(self, snapshot: Option<SnapshotView>) -> bool {
        match self {
            WindowSetView::Ready(state) => snapshot matches Some(s) && state.snapshot_is(s),
            _ => snapshot is None,
        }
    }
}

/// Whether a full window list is among `events`.
pub open spec fn has_window_list(events: Seq<EventView>) -> bool {
    exists|i: int| 0 <= i < events.len() && events[i] is WindowsChanged
}

/// Whether a full workspace list is among `events`.
pub open spec fn has_workspace_list(events: Seq<EventView>) -> bool {
    exists|i: int| 0 <= i < events.len() && events[i] is WorkspacesChanged
}

/// Every window of a window map is stored under its own identifier.
pub proof fn lemma_window_map_keyed(list: Seq<WindowView>)
    ensures
        forall|id: u64| #[trigger]
            window_map(list).contains_key(id) ==> window_map(list)[id].id == id,
    decreases list.len(),
{
    if list.len() > 0 {
        lemma_window_map_keyed(list.drop_last());
    }
}

/// Every workspace of a workspace map is stored under its own identifier.
pub proof fn lemma_workspace_map_keyed(list: Seq<WorkspaceView>)
    ensures
        forall|id: u64| #[trigger]
            workspace_map(list).contains_key(id) ==> workspace_map(list)[id].id == id,
    decreases list.len(),
{
    if list.len() > 0 {
        lemma_workspace_map_keyed(list.drop_last());
    }
}

/// A window map holds an identifier exactly when a window of the list has
/// it.
pub proof fn lemma_window_map_contains(list: Seq<WindowView>, id: u64)
    ensures
        window_map(list).contains_key(id) <==> exists|i: int|
            0 <= i < list.len() && list[i].id == id,
    decreases list.len(),
{
    if list.len() > 0 {
        let front = list.drop_last();
        lemma_window_map_contains(front, id);
        if window_map(front).contains_key(id) {
            let i = choose|i: int| 0 <= i < front.len() && front[i].id == id;
            assert(list[i].id == id);
        }
        if list.last().id == id {
            assert(list[list.len() - 1].id == id);
        }
        if exists|i: int| 0 <= i < list.len() && list[i].id == id {
            let i = choose|i: int| 0 <= i < list.len() && list[i].id == id;
            if i < front.len() {
                assert(front[i].id == id);
            }
        }
    }
}

/// A window map holds, under an identifier, the last window of the list
/// with that identifier.
pub proof fn lemma_window_map_last_wins(list: Seq<WindowView>, i: int)
    requires
        0 <= i < list.len(),
        forall|j: int| i < j < list.len() ==> list[j].id != list[i].id,
    ensures
        window_map(list).contains_key(list[i].id),
        window_map(list)[list[i].id] == list[i],
    decreases list.len(),
{
    if i < list.len() - 1 {
        let front = list.drop_last();
        assert(front[i] == list[i]);
        assert forall|j: int| i < j < front.len() implies front[j].id != front[i].id by {
            assert(front[j] == list[j]);
        }
        lemma_window_map_last_wins(front, i);
        assert(list[list.len() - 1].id != list[i].id);
    }
}

/// Layout changes keep every window under its own identifier.
pub proof fn lemma_update_window_layouts_wf(state: NiriView, changes: Seq<(u64, WindowLayout)>)
    requires
        state.wf(),
    ensures
        state.update_window_layouts(changes).wf(),
        state.update_window_layouts(changes).windows.dom() == state.windows.dom(),
        state.update_window_layouts(changes).workspaces == state.workspaces,
    decreases changes.len(),
{
    if changes.len() > 0 {
        lemma_update_window_layouts_wf(state, changes.drop_last());
        let before = state.update_window_layouts(changes.drop_last());
        let after = before.update_window_layout(changes.last().0, changes.last().1);
        assert(after.windows.dom() =~= before.windows.dom());
    }
}

/// Every event leads from a well-formed state to a well-formed state: in
/// the ready state each record stays under its own identifier.
pub proof fn lemma_with_event_wf(state: WindowSetView, event: EventView)
    requires
        state.wf(),
    ensures
        state.with_event(event).wf(),
{
    match event {
        EventView::WindowsChanged { windows } => {
            lemma_window_map_keyed(windows);
            if let WindowSetView::WorkspacesOnly(workspaces) = state {
                lemma_workspace_map_keyed(workspaces);
            }
        },
        EventView::WorkspacesChanged { workspaces } => {
            lemma_workspace_map_keyed(workspaces);
            if let WindowSetView::WindowsOnly(windows) = state {
                lemma_window_map_keyed(windows);
            }
        },
        EventView::WindowLayoutsChanged { changes } => {
            if let WindowSetView::Ready(niri) = state {
                lemma_update_window_layouts_wf(niri, changes);
            }
        },
        _ => {},
    }
}

/// Every state that the events lead to from the start is well-formed.
pub proof fn lemma_run_wf(events: Seq<EventView>)
    ensures
        WindowSetView::Uninitialized.run(events).wf(),
    decreases events.len(),
{
    if events.len() > 0 {
        lemma_run_wf(events.drop_last());
        lemma_with_event_wf(WindowSetView::Uninitialized.run(events.drop_last()), events.last());
    }
}

/// What the machine holds after `events` says which full lists were among
/// them.
pub proof fn lemma_run_phase(events: Seq<EventView>)
    ensures
        match WindowSetView::Uninitialized.run(events) {
            WindowSetView::Uninitialized => !has_window_list(events) && !has_workspace_list(
                events,
            ),
            WindowSetView::WindowsOnly(_) => has_window_list(events) && !has_workspace_list(
                events,
            ),
            WindowSetView::WorkspacesOnly(_) => !has_window_list(events) && has_workspace_list(
                events,
            ),
            WindowSetView::Ready(_) => has_window_list(events) && has_workspace_list(events),
        },
    decreases events.len(),
{
    if events.len() > 0 {
        let front = events.drop_last();
        let last = events.last();
        lemma_run_phase(front);
        assert(has_window_list(events) <==> has_window_list(front) || last is WindowsChanged) by {
            if has_window_list(front) {
                let i = choose|i: int| 0 <= i < front.len() && front[i] is WindowsChanged;
                assert(events[i] is WindowsChanged);
            }
            if last is WindowsChanged {
                assert(events[events.len() - 1] is WindowsChanged);
            }
            if has_window_list(events) {
                let i = choose|i: int| 0 <= i < events.len() && events[i] is WindowsChanged;
                if i < front.len() {
                    assert(front[i] is WindowsChanged);
                }
            }
        }
        assert(has_workspace_list(events) <==> has_workspace_list(front)
            || last is WorkspacesChanged) by {
            if has_workspace_list(front) {
                let i = choose|i: int| 0 <= i < front.len() && front[i] is WorkspacesChanged;
                assert(events[i] is WorkspacesChanged);
            }
            if last is WorkspacesChanged {
                assert(events[events.len() - 1] is WorkspacesChanged);
            }
            if has_workspace_list(events) {
                let i = choose|i: int| 0 <= i < events.len() && events[i] is WorkspacesChanged;
                if i < front.len() {
                    assert(front[i] is WorkspacesChanged);
                }
            }
        }
    }
}

/// An update that comes unexpectedly leaves the machine as it is, and no
/// snapshot goes out.
pub proof fn lemma_unexpected_event_changes_nothing(state: WindowSetView, event: EventView)
    requires
        state.unexpected(event),
    ensures
        state.with_event(event) == state,
        state.with_event(event).emits(None),
{
}

/// From the start, the machine is ready, and a snapshot goes out, exactly
/// when both a full window list and a full workspace list are among the
/// events seen, whatever their order and whatever else came between.
pub proof fn lemma_ready_iff_both_lists_seen(events: Seq<EventView>, snapshot: Option<SnapshotView>)
    requires
        WindowSetView::Uninitialized.run(events).emits(snapshot),
    ensures
        WindowSetView::Uninitialized.run(events) is Ready <==> has_window_list(events)
            && has_workspace_list(events),
        snapshot is Some <==> has_window_list(events) && has_workspace_list(events),
{
    lemma_run_phase(events);
}

/// The two full lists lead from the start to the same ready state in either
/// order, and the state between them is not ready and sends no snapshot.
pub proof fn lemma_list_order_irrelevant(windows: Seq<WindowView>, workspaces: Seq<WorkspaceView>)
    ensures
        ({
            let start = WindowSetView::Uninitialized;
            let first_windows = start.with_event(EventView::WindowsChanged { windows });
            let first_workspaces = start.with_event(EventView::WorkspacesChanged { workspaces });
            let ready = WindowSetView::Ready(NiriView::new(windows, workspaces));
            &&& first_windows.with_event(EventView::WorkspacesChanged { workspaces }) == ready
            &&& first_workspaces.with_event(EventView::WindowsChanged { windows }) == ready
            &&& !(first_windows is Ready) && first_windows.emits(None)
            &&& !(first_workspaces is Ready) && first_workspaces.emits(None)
        }),
{
}

/// A full window list that arrives twice gives the window map that it gives
/// once; so does a full workspace list.
pub proof fn lemma_full_list_idempotent(
    state: WindowSetView,
    windows: Seq<WindowView>,
    workspaces: Seq<WorkspaceView>,
)
    ensures
        state.with_event(EventView::WindowsChanged { windows }).with_event(
            EventView::WindowsChanged { windows },
        ) == state.with_event(EventView::WindowsChanged { windows }),
        state.with_event(EventView::WorkspacesChanged { workspaces }).with_event(
            EventView::WorkspacesChanged { workspaces },
        ) == state.with_event(EventView::WorkspacesChanged { workspaces }),
{
}

/// After a focus change to `id`, the window with that identifier has the
/// focus if there is one, and no other window has it.
pub proof fn lemma_focus_is_exclusive(state: NiriView, id: Option<u64>)
    requires
        state.wf(),
    ensures
        WindowSetView::Ready(state).with_event(EventView::WindowFocusChanged { id })
            == WindowSetView::Ready(state.set_focus(id)),
        state.set_focus(id).windows.dom() == state.windows.dom(),
        forall|key: u64| #[trigger]
            state.windows.contains_key(key) ==> (state.set_focus(id).windows[key].is_focused
                <==> id == Some(key)),
        forall|key: u64| #[trigger]
            state.windows.contains_key(key) ==> state.set_focus(id).windows[key] == (WindowView {
                is_focused: id == Some(key),
                ..state.windows[key]
            }),
{
    assert(state.set_focus(id).windows.dom() =~= state.windows.dom());
}

/// Every window of a snapshot names a workspace that is known, and carries
/// that workspace's output; where every workspace has an output, so has
/// every window of the snapshot.
pub proof fn lemma_snapshot_windows_attributed(state: NiriView, snapshot: SnapshotView)
    requires
        state.snapshot_is(snapshot),
    ensures
        forall|i: int|
            0 <= i < snapshot.windows.len() ==> {
                let placed = #[trigger] snapshot.windows[i];
                &&& placed.window.workspace_id matches Some(workspace)
                &&& state.workspaces.contains_key(workspace)
                &&& placed.output == state.workspaces[workspace].output
            },
        (forall|id: u64| #[trigger]
            state.workspaces.contains_key(id) ==> state.workspaces[id].output is Some)
            ==> forall|i: int|
            0 <= i < snapshot.windows.len() ==> (#[trigger] snapshot.windows[i]).output is Some,
{
    assert forall|i: int| 0 <= i < snapshot.windows.len() implies ({
        let placed = #[trigger] snapshot.windows[i];
        &&& placed.window.workspace_id matches Some(workspace)
        &&& state.workspaces.contains_key(workspace)
        &&& placed.output == state.workspaces[workspace].output
    }) by {
        assert(state.attributable(snapshot.windows[i].window.id));
    }
}

/// A window whose workspace is unset or unknown is in no snapshot.
pub proof fn lemma_snapshot_omits_unattributed(state: NiriView, snapshot: SnapshotView, id: u64)
    requires
        state.snapshot_is(snapshot),
        !state.attributable(id),
    ensures
        forall|i: int| 0 <= i < snapshot.windows.len() ==> snapshot.windows[i].window.id != id,
{
    assert forall|i: int| 0 <= i < snapshot.windows.len() implies snapshot.windows[i].window.id
        != id by {
        assert(state.attributable(snapshot.windows[i].window.id));
    }
}

/// A well-formed state has one snapshot.
pub proof fn lemma_snapshot_unique(state: NiriView, a: SnapshotView, b: SnapshotView)
    requires
        state.wf(),
        state.snapshot_is(a),
        state.snapshot_is(b),
    ensures
        a == b,
{
    let wa = a.windows.map_values(|w: PlacedWindow| w.window.id);
    let wb = b.windows.map_values(|w: PlacedWindow| w.window.id);
    assert forall|x: u64| wa.contains(x) <==> wb.contains(x) by {
        if wa.contains(x) {
            let i = choose|i: int| 0 <= i < wa.len() && wa[i] == x;
            assert(state.attributable(a.windows[i].window.id));
            let j = choose|j: int| 0 <= j < b.windows.len() && b.windows[j].window.id == x;
            assert(wb[j] == x);
        }
        if wb.contains(x) {
            let i = choose|i: int| 0 <= i < wb.len() && wb[i] == x;
            assert(state.attributable(b.windows[i].window.id));
            let j = choose|j: int| 0 <= j < a.windows.len() && a.windows[j].window.id == x;
            assert(wa[j] == x);
        }
    }
    assert forall|i: int, j: int| 0 <= i < j < wa.len() implies wa[i] < wa[j] by {
        assert(a.windows[i].window.id < a.windows[j].window.id);
    }
    assert forall|i: int, j: int| 0 <= i < j < wb.len() implies wb[i] < wb[j] by {
        assert(b.windows[i].window.id < b.windows[j].window.id);
    }
    lemma_strict_order_unique(wa, wb, |x: u64, y: u64| x < y);
    assert(a.windows.len() == wa.len());
    assert(b.windows.len() == wb.len());
    assert forall|i: int| 0 <= i < a.windows.len() implies a.windows[i] == b.windows[i] by {
        assert(wa[i] == wb[i]);
        assert(a.windows[i] == state.placed(a.windows[i].window.id));
        assert(b.windows[i] == state.placed(b.windows[i].window.id));
    }
    assert(a.windows =~= b.windows);
    let sa = a.workspaces.map_values(|w: WorkspaceView| w.id);
    let sb = b.workspaces.map_values(|w: WorkspaceView| w.id);
    assert forall|x: u64| sa.contains(x) <==> sb.contains(x) by {
        if sa.contains(x) {
            let i = choose|i: int| 0 <= i < sa.len() && sa[i] == x;
            assert(state.workspaces.contains_key(a.workspaces[i].id));
            let j = choose|j: int| 0 <= j < b.workspaces.len() && b.workspaces[j].id == x;
            assert(sb[j] == x);
        }
        if sb.contains(x) {
            let i = choose|i: int| 0 <= i < sb.len() && sb[i] == x;
            assert(state.workspaces.contains_key(b.workspaces[i].id));
            let j = choose|j: int| 0 <= j < a.workspaces.len() && a.workspaces[j].id == x;
            assert(sa[j] == x);
        }
    }
    assert forall|i: int, j: int| 0 <= i < j < sa.len() implies sa[i] < sa[j] by {
        assert(a.workspaces[i].id < a.workspaces[j].id);
    }
    assert forall|i: int, j: int| 0 <= i < j < sb.len() implies sb[i] < sb[j] by {
        assert(b.workspaces[i].id < b.workspaces[j].id);
    }
    lemma_strict_order_unique(sa, sb, |x: u64, y: u64| x < y);
    assert(a.workspaces.len() == sa.len());
    assert(b.workspaces.len() == sb.len());
    assert forall|i: int| 0 <= i < a.workspaces.len() implies a.workspaces[i]
        == b.workspaces[i] by {
        assert(sa[i] == sb[i]);
        assert(a.workspaces[i] == state.workspaces[a.workspaces[i].id]);
        assert(b.workspaces[i] == state.workspaces[b.workspaces[i].id]);
    }
    assert(a.workspaces =~= b.workspaces);
}

} // verus!
