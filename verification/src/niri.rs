//! The compositor's windows and workspaces, rebuilt from its event stream.

pub mod ipc;
pub mod model;
pub mod state;

pub use state::{Snapshot, Window, WindowSet};
