//! The window set, updated one compositor event at a time.

use vstd::prelude::*;
use super::ipc::{
    window_views, workspace_views, Event, Window as NiriWindow, WindowLayout, WindowView,
    Workspace, WorkspaceView,
};
use super::model::{
    window_map, workspace_map, NiriView, PlacedWindow, SnapshotView, WindowSetView,
};
use crate::assoc::{map_of, position_of};
use crate::id_map::{lemma_map_of, lemma_map_of_same_keys, IdMap};
use crate::text::{clone_text, text_of};

verus! {

/// A snapshot of the toplevel windows and the workspaces, both in ascending
/// order of identifier.
#[derive(Debug)]
pub struct Snapshot {
    pub windows: Vec<Window>,
    pub workspaces: Vec<Workspace>,
}

/// A window of a snapshot, with the output that shows its workspace.
#[derive(Debug)]
pub struct Window {
    window: NiriWindow,
    output: Option<String>,
}

impl View for Window {
    type V = PlacedWindow;

    closed spec fn view(&self) -> PlacedWindow {
        PlacedWindow { window: self.window@, output: text_of(self.output) }
    }
}

/// The values of a list of snapshot windows, in the list's order.
pub open spec fn placed_views(windows: Seq<Window>) -> Seq<PlacedWindow> {
    windows.map_values(|w: Window| w@)
}

impl View for Snapshot {
    type V = SnapshotView;

    open spec fn view(&self) -> SnapshotView {
        SnapshotView {
            windows: placed_views(self.windows@),
            workspaces: workspace_views(self.workspaces@),
        }
    }
}

impl Window {
    /// The output that shows the window's workspace, if the workspace has one.
    pub fn output(&self) -> (output: Option<&str>)
        ensures
            output is Some <==> self@.output is Some,
            output matches Some(name) ==> Some(name@) == self@.output,
    {
        match &self.output {
            Some(name) => Some(name.as_str()),
            None => None,
        }
    }

    /// The window as the compositor reported it.
    pub fn window(&self) -> (window: &NiriWindow)
        ensures
            window@ == self@.window,
    {
        &self.window
    }
}

impl core::ops::Deref for Window {
    type Target = NiriWindow;

    fn deref(&self) -> (window: &NiriWindow)
        ensures
            window@ == self@.window,
    {
        &self.window
    }
}

impl Clone for Window {
    fn clone(&self) -> (copy: Self)
        ensures
            copy@ == self@,
    {
        Window { window: self.window.clone(), output: clone_text(&self.output) }
    }
}

impl Clone for Snapshot {
    fn clone(&self) -> (copy: Self)
        ensures
            copy@ == self@,
    {
        let mut windows: Vec<Window> = Vec::new();
        let mut i: usize = 0;
        while i < self.windows.len()
            invariant
                i <= self.windows@.len(),
                windows@.len() == i,
                forall|k: int| 0 <= k < i ==> windows@[k]@ == self.windows@[k]@,
            decreases self.windows@.len() - i,
        {
            windows.push(self.windows[i].clone());
            i += 1;
        }
        let mut workspaces: Vec<Workspace> = Vec::new();
        let mut j: usize = 0;
        while j < self.workspaces.len()
            invariant
                j <= self.workspaces@.len(),
                workspaces@.len() == j,
                forall|k: int| 0 <= k < j ==> workspaces@[k]@ == self.workspaces@[k]@,
            decreases self.workspaces@.len() - j,
        {
            workspaces.push(self.workspaces[j].clone());
            j += 1;
        }
        proof {
            assert(placed_views(windows@) =~= placed_views(self.windows@));
            assert(workspace_views(workspaces@) =~= workspace_views(self.workspaces@));
        }
        Snapshot { windows, workspaces }
    }
}

/// The values of a map of windows.
pub open spec fn window_values(windows: Map<u64, NiriWindow>) -> Map<u64, WindowView> {
    windows.map_values(|w: NiriWindow| w@)
}

/// The values of a map of workspaces.
pub open spec fn workspace_values(workspaces: Map<u64, Workspace>) -> Map<u64, WorkspaceView> {
    workspaces.map_values(|w: Workspace| w@)
}

/// Whether every entry's key is the identifier that `id_of` reads off its
/// record.
spec fn keyed_by<T>(entries: Seq<(u64, T)>, id_of: spec_fn(T) -> u64) -> bool {
    forall|i: int| 0 <= i < entries.len() ==> (#[trigger] entries[i]).0 == id_of(entries[i].1)
}

/// The identifier of a window.
spec fn id_of_window() -> spec_fn(NiriWindow) -> u64 {
    |w: NiriWindow| w.id
}

/// The identifier of a workspace.
spec fn id_of_workspace() -> spec_fn(Workspace) -> u64 {
    |w: Workspace| w.id
}

/// Whether every entry's key is the identifier of its window.
spec fn keyed_by_window_id(entries: Seq<(u64, NiriWindow)>) -> bool {
    keyed_by(entries, id_of_window())
}

/// Whether every entry's key is the identifier of its workspace.
spec fn keyed_by_workspace_id(entries: Seq<(u64, Workspace)>) -> bool {
    keyed_by(entries, id_of_workspace())
}

/// Storing a record under its identifier keeps every record under its own
/// identifier.
proof fn lemma_keyed_insert<T>(
    before: IdMap<T>,
    after: IdMap<T>,
    record: T,
    id_of: spec_fn(T) -> u64,
)
    requires
        before.wf(),
        after.wf(),
        keyed_by(before.entries(), id_of),
        after@ == before@.insert(id_of(record), record),
    ensures
        keyed_by(after.entries(), id_of),
{
    lemma_map_of(before.entries());
    lemma_map_of(after.entries());
    assert forall|i: int| 0 <= i < after.entries().len() implies (#[trigger] after.entries()[i]).0
        == id_of(after.entries()[i].1) by {
        let key = after.entries()[i].0;
        assert(after@.contains_key(key));
        if key != id_of(record) {
            assert(before@.contains_key(key));
            let p = position_of(before.entries(), key);
            assert(before.entries()[p].0 == key);
            assert(before@.contains_key(before.entries()[p].0));
        }
    }
}

/// The compositor's state, as far as the event stream lets it be rebuilt.
#[derive(Debug)]
struct Niri {
    windows: IdMap<NiriWindow>,
    workspaces: IdMap<Workspace>,
}

impl Niri {
    /// Both maps are in order, and every record is stored under its own
    /// identifier.
    closed spec fn wf(&self) -> bool {
        &&& self.windows.wf()
        &&& self.workspaces.wf()
        &&& keyed_by_window_id(self.windows.entries())
        &&& keyed_by_workspace_id(self.workspaces.entries())
    }

    closed spec fn view(&self) -> NiriView {
        NiriView {
            windows: window_values(self.windows@),
            workspaces: workspace_values(self.workspaces@),
        }
    }

    /// The model of a well-formed state is well-formed.
    proof fn lemma_view_wf(&self)
        requires
            self.wf(),
        ensures
            self@.wf(),
    {
        lemma_map_of(self.windows.entries());
        lemma_map_of(self.workspaces.entries());
        assert forall|id: u64| #[trigger] self@.windows.contains_key(id) implies self@.windows[id].id
            == id by {
            let p = position_of(self.windows.entries(), id);
            assert(self.windows@.contains_key(self.windows.entries()[p].0));
        }
        assert forall|id: u64| #[trigger]
            self@.workspaces.contains_key(id) implies self@.workspaces[id].id == id by {
            let p = position_of(self.workspaces.entries(), id);
            assert(self.workspaces@.contains_key(self.workspaces.entries()[p].0));
        }
    }

    fn new(windows: Vec<NiriWindow>, workspaces: Vec<Workspace>) -> (niri: Self)
        ensures
            niri.wf(),
            niri@ == NiriView::new(window_views(windows@), workspace_views(workspaces@)),
    {
        let mut niri = Niri { windows: IdMap::new(), workspaces: IdMap::new() };
        niri.replace_workspaces(workspaces);
        niri.replace_windows(windows);
        niri
    }

    fn remove_window(&mut self, id: u64)
        requires
            old(self).wf(),
        ensures
            final(self).wf(),
            final(self)@ == old(self)@.remove_window(id),
    {
        let ghost before = self.windows;
        self.windows.remove(id);
        proof {
            let after = self.windows;
            assert(window_values(after@) =~= window_values(before@).remove(id));
            lemma_map_of(before.entries());
            lemma_map_of(after.entries());
            assert forall|i: int| 0 <= i < after.entries().len() implies (
            #[trigger] after.entries()[i]).0 == after.entries()[i].1.id by {
                let key = after.entries()[i].0;
                assert(after@.contains_key(key));
                assert(before@.contains_key(key));
                let p = position_of(before.entries(), key);
                assert(before.entries()[p].0 == key);
                assert(before@.contains_key(before.entries()[p].0));
            }
        }
    }

    fn replace_windows(&mut self, windows: Vec<NiriWindow>)
        requires
            old(self).wf(),
        ensures
            final(self).wf(),
            final(self)@ == old(self)@.replace_windows(window_views(windows@)),
    {
        let ghost list = window_views(windows@);
        let mut map: IdMap<NiriWindow> = IdMap::new();
        proof {
            assert(window_values(map@) =~= window_map(list.take(0)));
        }
        for window in it: windows.into_iter()
            invariant
                it.seq() == windows@,
                list == window_views(windows@),
                map.wf(),
                keyed_by_window_id(map.entries()),
                window_values(map@) == window_map(list.take(it.index() as int)),
        {
            let ghost i = it.index() as int;
            let ghost before = map;
            map.insert(window.id, window);
            proof {
                lemma_keyed_insert(before, map, window, id_of_window());
                assert(list.take(i + 1).drop_last() == list.take(i));
                assert(list.take(i + 1).last() == window@);
                assert(window_values(map@) =~= window_values(before@).insert(
                    window.id,
                    window@,
                ));
            }
        }
        proof {
            assert(list.take(list.len() as int) == list);
        }
        self.windows = map;
    }

    fn replace_workspaces(&mut self, workspaces: Vec<Workspace>)
        requires
            old(self).wf(),
        ensures
            final(self).wf(),
            final(self)@ == old(self)@.replace_workspaces(workspace_views(workspaces@)),
    {
        let ghost list = workspace_views(workspaces@);
        let mut map: IdMap<Workspace> = IdMap::new();
        proof {
            assert(workspace_values(map@) =~= workspace_map(list.take(0)));
        }
        for workspace in it: workspaces.into_iter()
            invariant
                it.seq() == workspaces@,
                list == workspace_views(workspaces@),
                map.wf(),
                keyed_by_workspace_id(map.entries()),
                workspace_values(map@) == workspace_map(list.take(it.index() as int)),
        {
            let ghost i = it.index() as int;
            let ghost before = map;
            map.insert(workspace.id, workspace);
            proof {
                lemma_keyed_insert(before, map, workspace, id_of_workspace());
                assert(list.take(i + 1).drop_last() == list.take(i));
                assert(list.take(i + 1).last() == workspace@);
                assert(workspace_values(map@) =~= workspace_values(before@).insert(
                    workspace.id,
                    workspace@,
                ));
            }
        }
        proof {
            assert(list.take(list.len() as int) == list);
        }
        self.workspaces = map;
    }

    fn set_focus(&mut self, id: Option<u64>)
        requires
            old(self).wf(),
        ensures
            final(self).wf(),
            final(self)@ == old(self)@.set_focus(id),
    {
        let ghost before = self.windows.entries();
        let n = self.windows.len();
        let mut i: usize = 0;
        while i < n
            invariant
                i <= n,
                n == before.len(),
                before == old(self).windows.entries(),
                old(self).wf(),
                self.workspaces == old(self).workspaces,
                self.windows.wf(),
                self.windows.entries().len() == n,
                forall|j: int| 0 <= j < n ==> (#[trigger] self.windows.entries()[j]).0 == before[j].0,
                forall|j: int|
                    0 <= j < i ==> (#[trigger] self.windows.entries()[j]).1@ == (WindowView {
                        is_focused: Some(before[j].1.id) == id,
                        ..before[j].1@
                    }),
                forall|j: int| i <= j < n ==> (#[trigger] self.windows.entries()[j]).1 == before[j].1,
            decreases n - i,
        {
            let window = self.windows.value_at_mut(i);
            window.is_focused = match id {
                Some(id) => window.id == id,
                None => false,
            };
            i += 1;
        }
        proof {
            let after = self.windows.entries();
            lemma_map_of_same_keys(before, after);
            assert(window_values(map_of(after)) =~= old(self)@.set_focus(id).windows) by {
                assert forall|key: u64| #[trigger]
                    map_of(before).contains_key(key) implies window_values(map_of(after))[key]
                    == old(self)@.set_focus(id).windows[key] by {
                    let p = position_of(before, key);
                    assert(after[p].1@ == (WindowView {
                        is_focused: Some(before[p].1.id) == id,
                        ..before[p].1@
                    }));
                }
            }
            assert forall|j: int| 0 <= j < n implies (#[trigger] after[j]).0 == after[j].1.id by {
                assert(after[j].0 == before[j].0);
                assert(after[j].1@.id == before[j].1@.id);
            }
        }
    }

    fn update_window_layout(&mut self, window_id: u64, layout: WindowLayout)
        requires
            old(self).wf(),
        ensures
            final(self).wf(),
            final(self)@ == old(self)@.update_window_layout(window_id, layout),
    {
        let ghost before = self.windows;
        proof {
            lemma_map_of(before.entries());
        }
        match self.windows.position(window_id) {
            Some(i) => {
                let window = self.windows.value_at_mut(i);
                window.layout = layout;
                proof {
                    let after = self.windows;
                    let changed = after.entries()[i as int].1;
                    assert(before.entries()[i as int].0 == before.entries()[i as int].1.id);
                    assert(changed.id == window_id);
                    assert(after@ == before@.insert(window_id, changed));
                    lemma_keyed_insert(before, after, changed, id_of_window());
                    assert(before@[window_id] == before.entries()[i as int].1);
                    assert(window_values(after@) =~= window_values(before@).insert(
                        window_id,
                        WindowView { layout, ..window_values(before@)[window_id] },
                    ));
                }
            },
            None => {},
        }
    }

    fn upsert_window(&mut self, window: NiriWindow)
        requires
            old(self).wf(),
        ensures
            final(self).wf(),
            final(self)@ == old(self)@.upsert_window(window@),
    {
        // Ensure that we update other windows if the new window is focused.
        let ghost before = self.windows.entries();
        if window.is_focused {
            let n = self.windows.len();
            let mut i: usize = 0;
            while i < n
                invariant
                    i <= n,
                    n == before.len(),
                    before == old(self).windows.entries(),
                    old(self).wf(),
                    self.workspaces == old(self).workspaces,
                    self.windows.wf(),
                    self.windows.entries().len() == n,
                    forall|j: int|
                        0 <= j < n ==> (#[trigger] self.windows.entries()[j]).0 == before[j].0,
                    forall|j: int|
                        0 <= j < i ==> (#[trigger] self.windows.entries()[j]).1@ == (WindowView {
                            is_focused: false,
                            ..before[j].1@
                        }),
                    forall|j: int|
                        i <= j < n ==> (#[trigger] self.windows.entries()[j]).1 == before[j].1,
                decreases n - i,
            {
                let other = self.windows.value_at_mut(i);
                other.is_focused = false;
                i += 1;
            }
        }
        let ghost cleared = self.windows;
        proof {
            let after = cleared.entries();
            let others = if window.is_focused {
                old(self)@.windows.map_values(
                    |w: WindowView| WindowView { is_focused: false, ..w },
                )
            } else {
                old(self)@.windows
            };
            lemma_map_of_same_keys(before, after);
            assert(window_values(map_of(after)) =~= others) by {
                assert forall|key: u64| #[trigger]
                    map_of(before).contains_key(key) implies window_values(map_of(after))[key]
                    == others[key] by {
                    let p = position_of(before, key);
                    if window.is_focused {
                        assert(after[p].1@ == (WindowView { is_focused: false, ..before[p].1@ }));
                    }
                }
            }
            assert forall|j: int| 0 <= j < after.len() implies (#[trigger] after[j]).0
                == after[j].1.id by {
                assert(after[j].0 == before[j].0);
                assert(after[j].1@.id == before[j].1@.id);
            }
        }
        self.windows.insert(window.id, window);
        proof {
            lemma_keyed_insert(cleared, self.windows, window, id_of_window());
            assert(window_values(self.windows@) =~= window_values(cleared@).insert(
                window.id,
                window@,
            ));
        }
    }

    fn activate_workspace(&mut self, id: u64, focused: bool)
        requires
            old(self).wf(),
        ensures
            final(self).wf(),
            final(self)@ == old(self)@.activate_workspace(id, focused),
    {
        let ghost before = self.workspaces.entries();
        let n = self.workspaces.len();
        let mut i: usize = 0;
        while i < n
            invariant
                i <= n,
                n == before.len(),
                before == old(self).workspaces.entries(),
                old(self).wf(),
                self.windows == old(self).windows,
                self.workspaces.wf(),
                self.workspaces.entries().len() == n,
                forall|j: int|
                    0 <= j < n ==> (#[trigger] self.workspaces.entries()[j]).0 == before[j].0,
                forall|j: int|
                    0 <= j < i ==> (#[trigger] self.workspaces.entries()[j]).1@ == (WorkspaceView {
                        is_focused: focused && id == before[j].1.id,
                        ..before[j].1@
                    }),
                forall|j: int|
                    i <= j < n ==> (#[trigger] self.workspaces.entries()[j]).1 == before[j].1,
            decreases n - i,
        {
            let workspace = self.workspaces.value_at_mut(i);
            workspace.is_focused = focused && id == workspace.id;
            i += 1;
        }
        proof {
            let after = self.workspaces.entries();
            lemma_map_of_same_keys(before, after);
            assert(workspace_values(map_of(after)) =~= old(self)@.activate_workspace(
                id,
                focused,
            ).workspaces) by {
                assert forall|key: u64| #[trigger]
                    map_of(before).contains_key(key) implies workspace_values(
                    map_of(after),
                )[key] == old(self)@.activate_workspace(id, focused).workspaces[key] by {
                    let p = position_of(before, key);
                    assert(after[p].1@ == (WorkspaceView {
                        is_focused: focused && id == before[p].1.id,
                        ..before[p].1@
                    }));
                }
            }
            assert forall|j: int| 0 <= j < n implies (#[trigger] after[j]).0 == after[j].1.id by {
                assert(after[j].0 == before[j].0);
                assert(after[j].1@.id == before[j].1@.id);
            }
        }
    }

    /// Create a snapshot of the current window state.
    fn snapshot(&self) -> (snapshot: Snapshot)
        requires
            self.wf(),
        ensures
            self@.snapshot_is(snapshot@),
    {
        let ghost state = self@;
        let ghost entries = self.windows.entries();
        proof {
            lemma_map_of(entries);
            lemma_map_of(self.workspaces.entries());
        }
        let mut windows: Vec<Window> = Vec::new();
        let n = self.windows.len();
        let mut i: usize = 0;
        while i < n
            invariant
                i <= n,
                n == entries.len(),
                entries == self.windows.entries(),
                state == self@,
                self.wf(),
                forall|a: int, b: int|
                    0 <= a < b < windows@.len() ==> windows@[a]@.window.id
                        < windows@[b]@.window.id,
                forall|a: int|
                    0 <= a < windows@.len() ==> state.attributable(
                        #[trigger] windows@[a]@.window.id,
                    ) && windows@[a]@ == state.placed(windows@[a]@.window.id),
                forall|a: int|
                    0 <= a < windows@.len() && i < n ==> (#[trigger] windows@[a])@.window.id
                        < entries[i as int].0,
                forall|j: int|
                    0 <= j < i && state.attributable(#[trigger] entries[j].0) ==> exists|a: int|
                        0 <= a < windows@.len() && windows@[a]@.window.id == entries[j].0,
            decreases n - i,
        {
            let window = self.windows.value_at(i);
            let ghost key = entries[i as int].0;
            let ghost len = windows@.len() as int;
            let ghost prior = windows@;
            proof {
                lemma_map_of(entries);
                lemma_map_of(self.workspaces.entries());
                assert(self.windows@.contains_key(key));
                assert(state.windows[key] == window@);
                assert(window@.id == key);
            }
            let mut placed = false;
            if let Some(ws_id) = window.workspace_id {
                if let Some(workspace) = self.workspaces.get(ws_id) {
                    windows.push(
                        Window { window: window.clone(), output: clone_text(&workspace.output) },
                    );
                    placed = true;
                    proof {
                        assert(state.attributable(key));
                        assert(windows@[len]@ == state.placed(key));
                    }
                }
            }
            proof {
                assert(placed == state.attributable(key));
                assert forall|a: int| 0 <= a < windows@.len() && i + 1 < n implies (
                #[trigger] windows@[a])@.window.id < entries[i + 1].0 by {
                    assert(entries[i as int].0 < entries[i + 1].0);
                    if a < len {
                        assert(windows@[a] == prior[a]);
                    }
                }
                assert forall|j: int|
                    0 <= j < i + 1 && state.attributable(
                        #[trigger] entries[j].0,
                    ) implies exists|a: int|
                    0 <= a < windows@.len() && windows@[a]@.window.id == entries[j].0 by {
                    if j < i {
                        let a = choose|a: int|
                            0 <= a < prior.len() && prior[a]@.window.id == entries[j].0;
                        assert(windows@[a] == prior[a]);
                    } else {
                        assert(windows@[len]@.window.id == key);
                    }
                }
            }
            i += 1;
        }
        let ghost places = self.workspaces.entries();
        let mut workspaces: Vec<Workspace> = Vec::new();
        let m = self.workspaces.len();
        let mut j: usize = 0;
        while j < m
            invariant
                j <= m,
                m == places.len(),
                places == self.workspaces.entries(),
                workspaces@.len() == j,
                forall|k: int| 0 <= k < j ==> (#[trigger] workspaces@[k])@ == places[k].1@,
            decreases m - j,
        {
            workspaces.push(self.workspaces.value_at(j).clone());
            j += 1;
        }
        let snapshot = Snapshot { windows, workspaces };
        proof {
            let listed = snapshot@.windows;
            assert forall|a: int| 0 <= a < listed.len() implies listed[a] == windows@[a]@ by {}
            assert forall|id: u64| #[trigger] state.attributable(id) implies exists|a: int|
                0 <= a < listed.len() && listed[a].window.id == id by {
                assert(self.windows@.contains_key(id));
                let p = position_of(entries, id);
                assert(entries[p].0 == id);
                assert(state.attributable(entries[p].0));
                let a = choose|a: int|
                    0 <= a < windows@.len() && windows@[a]@.window.id == entries[p].0;
                assert(listed[a].window.id == id);
            }
            let spaces = snapshot@.workspaces;
            assert forall|k: int| 0 <= k < spaces.len() implies spaces[k] == places[k].1@ by {
                assert(spaces[k] == workspaces@[k]@);
            }
            assert forall|k: int| 0 <= k < spaces.len() implies spaces[k].id == places[k].0 by {
                assert(places[k].0 == places[k].1.id);
            }
            assert forall|a: int, b: int| 0 <= a < b < spaces.len() implies spaces[a].id
                < spaces[b].id by {
                assert(places[a].0 < places[b].0);
            }
            assert forall|k: int| 0 <= k < spaces.len() implies state.workspaces.contains_key(
                #[trigger] spaces[k].id,
            ) && spaces[k] == state.workspaces[spaces[k].id] by {
                assert(self.workspaces@.contains_key(places[k].0));
            }
            assert forall|id: u64| #[trigger]
                state.workspaces.contains_key(id) implies exists|k: int|
                0 <= k < spaces.len() && spaces[k].id == id by {
                assert(self.workspaces@.contains_key(id));
                let p = position_of(places, id);
                assert(spaces[p].id == id);
            }
        }
        snapshot
    }
}

/// The inner state machine as we establish a new event stream.
///
/// The compositor sends the full window list and the full workspace list at
/// the start of the stream, before any update, but in no fixed order.
#[derive(Debug)]
enum Inner {
    WindowsOnly(Vec<NiriWindow>),
    WorkspacesOnly(Vec<Workspace>),
    Ready(Niri),
}

/// The toplevel window set of the compositor, updated via its event stream.
#[derive(Debug)]
pub struct WindowSet(Option<Inner>);

impl View for WindowSet {
    type V = WindowSetView;

    closed spec fn view(&self) -> WindowSetView {
        match self.0 {
            None => WindowSetView::Uninitialized,
            Some(Inner::WindowsOnly(windows)) => WindowSetView::WindowsOnly(
                window_views(windows@),
            ),
            Some(Inner::WorkspacesOnly(workspaces)) => WindowSetView::WorkspacesOnly(
                workspace_views(workspaces@),
            ),
            Some(Inner::Ready(state)) => WindowSetView::Ready(state@),
        }
    }
}

impl WindowSet {
    #[verifier::type_invariant]
    spec fn inv(self) -> bool {
        match self.0 {
            Some(Inner::Ready(state)) => state.wf(),
            _ => true,
        }
    }

    /// Creates a new window set.
    pub fn new() -> (set: Self)
        ensures
            set@ == WindowSetView::Uninitialized,
    {
        Self(None)
    }

    /// Updates the window set based on the given event, and returns the
    /// snapshot of the new state once both full lists have been seen.
    pub fn with_event(&mut self, event: Event) -> (snapshot: Option<Snapshot>)
        ensures
            final(self)@ == old(self)@.with_event(event@),
            final(self)@.wf(),
            final(self)@.emits(
                match snapshot {
                    Some(s) => Some(s@),
                    None => None,
                },
            ),
    {
        proof {
            use_type_invariant(&*self);
        }
        let mut inner: Option<Inner> = None;
        core::mem::swap(&mut self.0, &mut inner);
        let next = match event {
            Event::WindowsChanged { windows } => match inner {
                Some(Inner::WorkspacesOnly(workspaces)) => Some(
                    Inner::Ready(Niri::new(windows, workspaces)),
                ),
                Some(Inner::WindowsOnly(_)) | None => Some(Inner::WindowsOnly(windows)),
                Some(Inner::Ready(mut state)) => {
                    state.replace_windows(windows);
                    Some(Inner::Ready(state))
                },
            },
            Event::WorkspacesChanged { workspaces } => match inner {
                Some(Inner::WindowsOnly(windows)) => Some(
                    Inner::Ready(Niri::new(windows, workspaces)),
                ),
                Some(Inner::WorkspacesOnly(_)) | None => Some(Inner::WorkspacesOnly(workspaces)),
                Some(Inner::Ready(mut state)) => {
                    state.replace_workspaces(workspaces);
                    Some(Inner::Ready(state))
                },
            },
            Event::WindowClosed { id } => match inner {
                Some(Inner::Ready(mut state)) => {
                    state.remove_window(id);
                    Some(Inner::Ready(state))
                },
                other => other,
            },
            Event::WindowOpenedOrChanged { window } => match inner {
                Some(Inner::Ready(mut state)) => {
                    state.upsert_window(window);
                    Some(Inner::Ready(state))
                },
                other => other,
            },
            Event::WindowFocusChanged { id } => match inner {
                Some(Inner::Ready(mut state)) => {
                    state.set_focus(id);
                    Some(Inner::Ready(state))
                },
                other => other,
            },
            Event::WindowLayoutsChanged { changes } => match inner {
                Some(Inner::Ready(mut state)) => {
                    let ghost start = state@;
                    let mut i: usize = 0;
                    while i < changes.len()
                        invariant
                            i <= changes@.len(),
                            state.wf(),
                            state@ == start.update_window_layouts(changes@.take(i as int)),
                        decreases changes@.len() - i,
                    {
                        proof {
                            assert(changes@.take(i + 1).drop_last() == changes@.take(i as int));
                        }
                        state.update_window_layout(changes[i].0, changes[i].1);
                        i += 1;
                    }
                    proof {
                        assert(changes@.take(changes@.len() as int) == changes@);
                    }
                    Some(Inner::Ready(state))
                },
                other => other,
            },
            Event::WorkspaceActivated { id, focused } => match inner {
                Some(Inner::Ready(mut state)) => {
                    state.activate_workspace(id, focused);
                    Some(Inner::Ready(state))
                },
                other => other,
            },
            Event::Other => inner,
        };
        let snapshot = match &next {
            Some(Inner::Ready(state)) => {
                proof {
                    state.lemma_view_wf();
                }
                Some(state.snapshot())
            },
            _ => None,
        };
        self.0 = next;
        snapshot
    }

    /// Whether `event` comes unexpectedly: an update before both full lists
    /// have been seen. The compositor sends the full lists first, so this is
    /// worth a warning; the event itself changes nothing.
    pub fn is_unexpected(&self, event: &Event) -> (unexpected: bool)
        ensures
            unexpected == self@.unexpected(event@),
    {
        let ready = match &self.0 {
            Some(Inner::Ready(_)) => true,
            _ => false,
        };
        let update = match event {
            Event::WindowsChanged { .. } => false,
            Event::WorkspacesChanged { .. } => false,
            Event::Other => false,
            _ => true,
        };
        !ready && update
    }

    /// A short name of the state, for messages.
    pub fn describe(&self) -> (name: &'static str)
        ensures
            name@ == match self@ {
                WindowSetView::Ready(_) => "ready"@,
                WindowSetView::WindowsOnly(_) => "windows only"@,
                WindowSetView::WorkspacesOnly(_) => "workspaces only"@,
                WindowSetView::Uninitialized => "uninitialised"@,
            },
    {
        match &self.0 {
            Some(Inner::Ready(_)) => "ready",
            Some(Inner::WindowsOnly(_)) => "windows only",
            Some(Inner::WorkspacesOnly(_)) => "workspaces only",
            None => "uninitialised",
        }
    }
}

} // verus!
