//! The compositor's records and events, as far as the taskbar reads them.

use vstd::prelude::*;
use crate::text::{clone_text, text_of};

verus! {

/// Where a window sits in its workspace.
#[derive(Debug, Clone, Copy, PartialEq, Eq)]
pub struct WindowLayout {
    /// Column and position within the column in the scrolling layout, both
    /// counted from 1; `None` for a window outside the scrolling layout.
    pub pos_in_scrolling_layout: Option<(usize, usize)>,
}

/// A toplevel window as the compositor reports it.
#[derive(Debug)]
pub struct Window {
    /// Stable identifier of the window.
    pub id: u64,
    /// Title, if the window has set one.
    pub title: Option<String>,
    /// Application identifier, if the window has set one.
    pub app_id: Option<String>,
    /// Process that created the window, if known.
    pub pid: Option<i32>,
    /// Workspace that holds the window, if any.
    pub workspace_id: Option<u64>,
    /// Whether the window has the keyboard focus.
    pub is_focused: bool,
    /// Position of the window in its workspace.
    pub layout: WindowLayout,
}

/// A workspace as the compositor reports it.
#[derive(Debug)]
pub struct Workspace {
    /// Stable identifier of the workspace.
    pub id: u64,
    /// Position of the workspace on its output.
    pub idx: u8,
    /// Output that shows the workspace, if any.
    pub output: Option<String>,
    /// Whether the workspace has the focus.
    pub is_focused: bool,
}

/// An event of the compositor's stream.
#[derive(Debug)]
#[allow(inconsistent_fields)]
pub enum Event {
    /// The full list of workspaces.
    WorkspacesChanged { workspaces: Vec<Workspace> },
    /// A workspace became the active one of its output.
    WorkspaceActivated { id: u64, focused: bool },
    /// The full list of windows.
    WindowsChanged { windows: Vec<Window> },
    /// A window was opened, or one that is open has changed.
    WindowOpenedOrChanged { window: Window },
    /// A window was closed.
    WindowClosed { id: u64 },
    /// The focus moved to another window, or to none.
    WindowFocusChanged { id: Option<u64> },
    /// The layouts of some windows changed.
    WindowLayoutsChanged { changes: Vec<(u64, WindowLayout)> },
    /// Any event that the taskbar does not track.
    Other,
}

/// The mathematical value of a [`Window`].
pub struct WindowView {
    pub id: u64,
    pub title: Option<Seq<char>>,
    pub app_id: Option<Seq<char>>,
    pub pid: Option<i32>,
    pub workspace_id: Option<u64>,
    pub is_focused: bool,
    pub layout: WindowLayout,
}

/// The mathematical value of a [`Workspace`].
pub struct WorkspaceView {
    pub id: u64,
    pub idx: u8,
    pub output: Option<Seq<char>>,
    pub is_focused: bool,
}

/// The mathematical value of an [`Event`].
#[allow(inconsistent_fields)]
pub enum EventView {
    WorkspacesChanged { workspaces: Seq<WorkspaceView> },
    WorkspaceActivated { id: u64, focused: bool },
    WindowsChanged { windows: Seq<WindowView> },
    WindowOpenedOrChanged { window: WindowView },
    WindowClosed { id: u64 },
    WindowFocusChanged { id: Option<u64> },
    WindowLayoutsChanged { changes: Seq<(u64, WindowLayout)> },
    Other,
}

impl View for Window {
    type V = WindowView;

    open spec fn view(&self) -> WindowView {
        WindowView {
            id: self.id,
            title: text_of(self.title),
            app_id: text_of(self.app_id),
            pid: self.pid,
            workspace_id: self.workspace_id,
            is_focused: self.is_focused,
            layout: self.layout,
        }
    }
}

impl View for Workspace {
    type V = WorkspaceView;

    open spec fn view(&self) -> WorkspaceView {
        WorkspaceView {
            id: self.id,
            idx: self.idx,
            output: text_of(self.output),
            is_focused: self.is_focused,
        }
    }
}

/// The values of a list of windows, in the list's order.
pub open spec fn window_views(windows: Seq<Window>) -> Seq<WindowView> {
    windows.map_values(|w: Window| w@)
}

/// The values of a list of workspaces, in the list's order.
pub open spec fn workspace_views(workspaces: Seq<Workspace>) -> Seq<WorkspaceView> {
    workspaces.map_values(|w: Workspace| w@)
}

impl View for Event {
    type V = EventView;

    open spec fn view(&self) -> EventView {
        match self {
            Event::WorkspacesChanged { workspaces } => EventView::WorkspacesChanged {
                workspaces: workspace_views(workspaces@),
            },
            Event::WorkspaceActivated { id, focused } => EventView::WorkspaceActivated {
                id: *id,
                focused: *focused,
            },
            Event::WindowsChanged { windows } => EventView::WindowsChanged {
                windows: window_views(windows@),
            },
            Event::WindowOpenedOrChanged { window } => EventView::WindowOpenedOrChanged {
                window: window@,
            },
            Event::WindowClosed { id } => EventView::WindowClosed { id: *id },
            Event::WindowFocusChanged { id } => EventView::WindowFocusChanged { id: *id },
            Event::WindowLayoutsChanged { changes } => EventView::WindowLayoutsChanged {
                changes: changes@,
            },
            Event::Other => EventView::Other,
        }
    }
}

impl Clone for Window {
    fn clone(&self) -> (copy: Self)
        ensures
            copy@ == self@,
    {
        Window {
            id: self.id,
            title: clone_text(&self.title),
            app_id: clone_text(&self.app_id),
            pid: self.pid,
            workspace_id: self.workspace_id,
            is_focused: self.is_focused,
            layout: self.layout,
        }
    }
}

impl Clone for Workspace {
    fn clone(&self) -> (copy: Self)
        ensures
            copy@ == self@,
    {
        Workspace {
            id: self.id,
            idx: self.idx,
            output: clone_text(&self.output),
            is_focused: self.is_focused,
        }
    }
}

} // verus!
