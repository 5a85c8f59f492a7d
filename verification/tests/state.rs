use niri_taskbar::niri::ipc::{Event, Window, WindowLayout, Workspace};
use niri_taskbar::niri::{Snapshot, WindowSet};

fn workspace(id: u64, idx: u8, output: Option<&str>) -> Workspace {
    Workspace { id, idx, output: output.map(|o| o.to_string()), is_focused: false }
}

fn window(id: u64, workspace_id: Option<u64>) -> Window {
    Window {
        id,
        title: Some(format!("window {id}")),
        app_id: Some(format!("app.{id}")),
        pid: Some(1000 + id as i32),
        workspace_id,
        is_focused: false,
        layout: WindowLayout { pos_in_scrolling_layout: None },
    }
}

fn ready(windows: Vec<Window>, workspaces: Vec<Workspace>) -> (WindowSet, Snapshot) {
    let mut set = WindowSet::new();
    assert!(set.with_event(Event::WorkspacesChanged { workspaces }).is_none());
    let snapshot = set.with_event(Event::WindowsChanged { windows }).expect("ready");
    (set, snapshot)
}

fn window_ids(snapshot: &Snapshot) -> Vec<u64> {
    snapshot.windows.iter().map(|w| w.window().id).collect()
}

fn focused_ids(snapshot: &Snapshot) -> Vec<u64> {
    snapshot.windows.iter().filter(|w| w.window().is_focused).map(|w| w.window().id).collect()
}

#[test]
fn new_set_is_uninitialised() {
    let set = WindowSet::new();
    assert_eq!(set.describe(), "uninitialised");
}

#[test]
fn windows_then_workspaces_reaches_ready() {
    let mut set = WindowSet::new();
    let first = set.with_event(Event::WindowsChanged { windows: vec![window(10, Some(1))] });
    assert!(first.is_none());
    assert_eq!(set.describe(), "windows only");
    let second = set
        .with_event(Event::WorkspacesChanged { workspaces: vec![workspace(1, 0, Some("DP-1"))] });
    let snapshot = second.expect("snapshot once both lists were seen");
    assert_eq!(set.describe(), "ready");
    assert_eq!(window_ids(&snapshot), vec![10]);
    assert_eq!(snapshot.windows[0].output(), Some("DP-1"));
    assert_eq!(snapshot.workspaces.len(), 1);
    assert_eq!(snapshot.workspaces[0].id, 1);
}

#[test]
fn workspaces_then_windows_reaches_ready() {
    let mut set = WindowSet::new();
    let first = set
        .with_event(Event::WorkspacesChanged { workspaces: vec![workspace(1, 0, Some("DP-1"))] });
    assert!(first.is_none());
    assert_eq!(set.describe(), "workspaces only");
    let second = set.with_event(Event::WindowsChanged { windows: vec![window(10, Some(1))] });
    let snapshot = second.expect("snapshot once both lists were seen");
    assert_eq!(set.describe(), "ready");
    assert_eq!(window_ids(&snapshot), vec![10]);
    assert_eq!(snapshot.windows[0].output(), Some("DP-1"));
}

#[test]
fn both_orders_give_the_same_snapshot() {
    let windows = || vec![window(3, Some(2)), window(1, Some(1)), window(2, None)];
    let workspaces = || vec![workspace(2, 1, Some("HDMI-1")), workspace(1, 0, Some("DP-1"))];
    let mut a = WindowSet::new();
    a.with_event(Event::WindowsChanged { windows: windows() });
    let a = a.with_event(Event::WorkspacesChanged { workspaces: workspaces() }).unwrap();
    let mut b = WindowSet::new();
    b.with_event(Event::WorkspacesChanged { workspaces: workspaces() });
    let b = b.with_event(Event::WindowsChanged { windows: windows() }).unwrap();
    assert_eq!(window_ids(&a), vec![1, 3]);
    assert_eq!(window_ids(&a), window_ids(&b));
    let outputs = |s: &Snapshot| -> Vec<Option<String>> {
        s.windows.iter().map(|w| w.output().map(|o| o.to_string())).collect()
    };
    assert_eq!(outputs(&a), vec![Some("DP-1".to_string()), Some("HDMI-1".to_string())]);
    assert_eq!(outputs(&a), outputs(&b));
    let spaces = |s: &Snapshot| -> Vec<u64> { s.workspaces.iter().map(|w| w.id).collect() };
    assert_eq!(spaces(&a), vec![1, 2]);
    assert_eq!(spaces(&a), spaces(&b));
}

#[test]
fn repeated_first_list_replaces_the_buffered_one() {
    let mut set = WindowSet::new();
    assert!(set.with_event(Event::WindowsChanged { windows: vec![window(1, Some(1))] }).is_none());
    assert!(set.with_event(Event::WindowsChanged { windows: vec![window(2, Some(1))] }).is_none());
    assert_eq!(set.describe(), "windows only");
    let snapshot = set
        .with_event(Event::WorkspacesChanged { workspaces: vec![workspace(1, 0, None)] })
        .unwrap();
    assert_eq!(window_ids(&snapshot), vec![2]);

    let mut set = WindowSet::new();
    assert!(set
        .with_event(Event::WorkspacesChanged { workspaces: vec![workspace(1, 0, None)] })
        .is_none());
    assert!(set
        .with_event(Event::WorkspacesChanged { workspaces: vec![workspace(2, 0, None)] })
        .is_none());
    assert_eq!(set.describe(), "workspaces only");
    let snapshot = set.with_event(Event::WindowsChanged { windows: vec![window(5, Some(2))] });
    assert_eq!(window_ids(&snapshot.unwrap()), vec![5]);
}

#[test]
fn updates_before_ready_change_nothing() {
    let mut set = WindowSet::new();
    assert!(set.with_event(Event::WindowClosed { id: 1 }).is_none());
    assert!(set.with_event(Event::WindowOpenedOrChanged { window: window(1, Some(1)) }).is_none());
    assert!(set.with_event(Event::WindowFocusChanged { id: Some(1) }).is_none());
    assert!(set.with_event(Event::WindowLayoutsChanged { changes: vec![] }).is_none());
    assert!(set.with_event(Event::WorkspaceActivated { id: 1, focused: true }).is_none());
    assert!(set.with_event(Event::Other).is_none());
    assert_eq!(set.describe(), "uninitialised");

    assert!(set.with_event(Event::WindowsChanged { windows: vec![window(7, Some(1))] }).is_none());
    assert!(set.with_event(Event::WindowClosed { id: 7 }).is_none());
    assert!(set.with_event(Event::WindowOpenedOrChanged { window: window(8, Some(1)) }).is_none());
    assert_eq!(set.describe(), "windows only");
    let snapshot = set
        .with_event(Event::WorkspacesChanged { workspaces: vec![workspace(1, 0, None)] })
        .unwrap();
    assert_eq!(window_ids(&snapshot), vec![7]);
}

#[test]
fn updates_before_ready_are_unexpected() {
    let updates = || {
        vec![
            Event::WindowClosed { id: 1 },
            Event::WindowOpenedOrChanged { window: window(1, Some(1)) },
            Event::WindowFocusChanged { id: Some(1) },
            Event::WindowLayoutsChanged { changes: vec![] },
            Event::WorkspaceActivated { id: 1, focused: true },
        ]
    };
    let lists = || {
        vec![
            Event::WindowsChanged { windows: vec![] },
            Event::WorkspacesChanged { workspaces: vec![] },
            Event::Other,
        ]
    };
    let mut set = WindowSet::new();
    for stage in 0..4 {
        let ready = stage == 3;
        for event in updates() {
            assert_eq!(set.is_unexpected(&event), !ready, "{} {event:?}", set.describe());
        }
        for event in lists() {
            assert!(!set.is_unexpected(&event), "{} {event:?}", set.describe());
        }
        match stage {
            0 => set = {
                let mut only_windows = WindowSet::new();
                only_windows.with_event(Event::WindowsChanged { windows: vec![] });
                only_windows
            },
            1 => set = {
                let mut only_workspaces = WindowSet::new();
                only_workspaces.with_event(Event::WorkspacesChanged { workspaces: vec![] });
                only_workspaces
            },
            2 => {
                set.with_event(Event::WindowsChanged { windows: vec![] });
            },
            _ => {},
        }
    }
    assert_eq!(set.describe(), "ready");
}

#[test]
fn snapshot_omits_windows_without_known_workspace() {
    let (_, snapshot) = ready(
        vec![window(1, Some(1)), window(2, None), window(3, Some(99)), window(4, Some(2))],
        vec![workspace(1, 0, Some("DP-1")), workspace(2, 1, None)],
    );
    assert_eq!(window_ids(&snapshot), vec![1, 4]);
    assert_eq!(snapshot.windows[0].output(), Some("DP-1"));
    assert_eq!(snapshot.windows[1].output(), None);
    for w in &snapshot.windows {
        let ws = w.window().workspace_id.expect("attributed");
        assert!(snapshot.workspaces.iter().any(|s| s.id == ws));
    }
}

#[test]
fn snapshot_lists_in_ascending_identifier_order() {
    let (_, snapshot) = ready(
        vec![window(30, Some(2)), window(10, Some(1)), window(20, Some(2))],
        vec![workspace(2, 1, None), workspace(1, 0, None)],
    );
    assert_eq!(window_ids(&snapshot), vec![10, 20, 30]);
    let spaces: Vec<u64> = snapshot.workspaces.iter().map(|w| w.id).collect();
    assert_eq!(spaces, vec![1, 2]);
}

#[test]
fn later_window_with_same_identifier_wins() {
    let mut first = window(1, Some(1));
    first.title = Some("first".to_string());
    let mut second = window(1, Some(1));
    second.title = Some("second".to_string());
    let (_, snapshot) = ready(vec![first, second], vec![workspace(1, 0, None)]);
    assert_eq!(snapshot.windows.len(), 1);
    assert_eq!(snapshot.windows[0].window().title.as_deref(), Some("second"));
}

#[test]
fn identical_full_window_list_twice_is_idempotent() {
    let list = || vec![window(2, Some(1)), window(1, Some(1))];
    let (mut set, _) = ready(vec![window(9, Some(1))], vec![workspace(1, 0, Some("DP-1"))]);
    let once = set.with_event(Event::WindowsChanged { windows: list() }).unwrap();
    let twice = set.with_event(Event::WindowsChanged { windows: list() }).unwrap();
    assert_eq!(window_ids(&once), vec![1, 2]);
    assert_eq!(window_ids(&once), window_ids(&twice));
    for (a, b) in once.windows.iter().zip(twice.windows.iter()) {
        assert_eq!(a.window().title, b.window().title);
        assert_eq!(a.window().app_id, b.window().app_id);
        assert_eq!(a.window().pid, b.window().pid);
        assert_eq!(a.window().is_focused, b.window().is_focused);
        assert_eq!(a.output(), b.output());
    }
}

#[test]
fn full_workspace_list_replaces_workspaces_wholesale() {
    let (mut set, _) = ready(
        vec![window(1, Some(1)), window(2, Some(2))],
        vec![workspace(1, 0, Some("DP-1")), workspace(2, 1, Some("DP-2"))],
    );
    let snapshot = set
        .with_event(Event::WorkspacesChanged { workspaces: vec![workspace(2, 0, Some("DP-3"))] })
        .unwrap();
    assert_eq!(window_ids(&snapshot), vec![2]);
    assert_eq!(snapshot.windows[0].output(), Some("DP-3"));
    assert_eq!(snapshot.workspaces.len(), 1);
}

#[test]
fn window_closed_removes_the_window() {
    let (mut set, _) =
        ready(vec![window(1, Some(1)), window(2, Some(1))], vec![workspace(1, 0, None)]);
    let snapshot = set.with_event(Event::WindowClosed { id: 1 }).unwrap();
    assert_eq!(window_ids(&snapshot), vec![2]);
    let snapshot = set.with_event(Event::WindowClosed { id: 77 }).unwrap();
    assert_eq!(window_ids(&snapshot), vec![2]);
}

#[test]
fn window_opened_is_inserted_in_order() {
    let (mut set, _) =
        ready(vec![window(1, Some(1)), window(5, Some(1))], vec![workspace(1, 0, None)]);
    let snapshot = set.with_event(Event::WindowOpenedOrChanged { window: window(3, Some(1)) });
    assert_eq!(window_ids(&snapshot.unwrap()), vec![1, 3, 5]);
}

#[test]
fn window_changed_replaces_the_window() {
    let (mut set, _) = ready(vec![window(1, Some(1))], vec![workspace(1, 0, None)]);
    let mut changed = window(1, Some(1));
    changed.title = Some("renamed".to_string());
    let snapshot = set.with_event(Event::WindowOpenedOrChanged { window: changed }).unwrap();
    assert_eq!(snapshot.windows.len(), 1);
    assert_eq!(snapshot.windows[0].window().title.as_deref(), Some("renamed"));
}

#[test]
fn focused_upsert_clears_focus_elsewhere() {
    let mut a = window(1, Some(1));
    a.is_focused = true;
    let (mut set, snapshot) = ready(vec![a, window(2, Some(1))], vec![workspace(1, 0, None)]);
    assert_eq!(focused_ids(&snapshot), vec![1]);
    let mut c = window(3, Some(1));
    c.is_focused = true;
    let snapshot = set.with_event(Event::WindowOpenedOrChanged { window: c }).unwrap();
    assert_eq!(focused_ids(&snapshot), vec![3]);
}

#[test]
fn unfocused_upsert_keeps_focus_elsewhere() {
    let mut a = window(1, Some(1));
    a.is_focused = true;
    let (mut set, _) = ready(vec![a], vec![workspace(1, 0, None)]);
    let snapshot = set.with_event(Event::WindowOpenedOrChanged { window: window(2, Some(1)) });
    assert_eq!(focused_ids(&snapshot.unwrap()), vec![1]);
}

#[test]
fn focus_change_leaves_exactly_one_window_focused() {
    let mut a = window(1, Some(1));
    a.is_focused = true;
    let (mut set, _) = ready(
        vec![a, window(2, Some(1)), window(3, Some(1))],
        vec![workspace(1, 0, None)],
    );
    let snapshot = set.with_event(Event::WindowFocusChanged { id: Some(2) }).unwrap();
    assert_eq!(focused_ids(&snapshot), vec![2]);
    let snapshot = set.with_event(Event::WindowFocusChanged { id: Some(3) }).unwrap();
    assert_eq!(focused_ids(&snapshot), vec![3]);
}

#[test]
fn focus_change_to_none_or_unknown_leaves_no_window_focused() {
    let mut a = window(1, Some(1));
    a.is_focused = true;
    let (mut set, _) = ready(vec![a, window(2, Some(1))], vec![workspace(1, 0, None)]);
    let snapshot = set.with_event(Event::WindowFocusChanged { id: None }).unwrap();
    assert_eq!(focused_ids(&snapshot), Vec::<u64>::new());
    set.with_event(Event::WindowFocusChanged { id: Some(1) });
    let snapshot = set.with_event(Event::WindowFocusChanged { id: Some(42) }).unwrap();
    assert_eq!(focused_ids(&snapshot), Vec::<u64>::new());
}

#[test]
fn layout_change_patches_known_windows_only() {
    let (mut set, snapshot) =
        ready(vec![window(1, Some(1)), window(2, Some(1))], vec![workspace(1, 0, None)]);
    assert_eq!(snapshot.windows[0].window().layout.pos_in_scrolling_layout, None);
    let changes = vec![
        (2, WindowLayout { pos_in_scrolling_layout: Some((1, 2)) }),
        (9, WindowLayout { pos_in_scrolling_layout: Some((7, 7)) }),
        (2, WindowLayout { pos_in_scrolling_layout: Some((3, 4)) }),
    ];
    let snapshot = set.with_event(Event::WindowLayoutsChanged { changes }).unwrap();
    assert_eq!(window_ids(&snapshot), vec![1, 2]);
    assert_eq!(snapshot.windows[0].window().layout.pos_in_scrolling_layout, None);
    assert_eq!(snapshot.windows[1].window().layout.pos_in_scrolling_layout, Some((3, 4)));
    assert_eq!(snapshot.windows[1].window().title.as_deref(), Some("window 2"));
}

#[test]
fn workspace_activation_sets_focus_on_that_workspace_only() {
    let mut first = workspace(1, 0, None);
    first.is_focused = true;
    let (mut set, _) = ready(vec![], vec![first, workspace(2, 1, None), workspace(3, 2, None)]);
    let focused = |s: &Snapshot| -> Vec<u64> {
        s.workspaces.iter().filter(|w| w.is_focused).map(|w| w.id).collect()
    };
    let snapshot = set.with_event(Event::WorkspaceActivated { id: 2, focused: true }).unwrap();
    assert_eq!(focused(&snapshot), vec![2]);
    let snapshot = set.with_event(Event::WorkspaceActivated { id: 3, focused: false }).unwrap();
    assert_eq!(focused(&snapshot), Vec::<u64>::new());
}

#[test]
fn ignored_event_in_ready_still_yields_the_snapshot() {
    let (mut set, _) = ready(vec![window(1, Some(1))], vec![workspace(1, 0, Some("DP-1"))]);
    let snapshot = set.with_event(Event::Other).unwrap();
    assert_eq!(window_ids(&snapshot), vec![1]);
    assert_eq!(set.describe(), "ready");
}

#[test]
fn snapshot_window_gives_access_to_the_window() {
    let (_, snapshot) = ready(vec![window(4, Some(1))], vec![workspace(1, 0, Some("DP-1"))]);
    let placed = &snapshot.windows[0];
    assert_eq!(placed.id, 4);
    assert_eq!(placed.pid, Some(1004));
    assert_eq!(placed.app_id.as_deref(), Some("app.4"));
    assert_eq!(placed.workspace_id, Some(1));
    assert!(!placed.is_focused);
    assert_eq!(placed.window().id, 4);
    assert_eq!(placed.output(), Some("DP-1"));
}

#[test]
fn snapshot_clone_keeps_everything() {
    let (_, snapshot) = ready(
        vec![window(1, Some(1)), window(2, Some(1))],
        vec![workspace(1, 3, Some("DP-1"))],
    );
    let copy = snapshot.clone();
    assert_eq!(window_ids(&copy), vec![1, 2]);
    assert_eq!(copy.windows[1].window().app_id.as_deref(), Some("app.2"));
    assert_eq!(copy.windows[1].output(), Some("DP-1"));
    assert_eq!(copy.workspaces[0].idx, 3);
    assert_eq!(copy.workspaces[0].output.as_deref(), Some("DP-1"));
}
