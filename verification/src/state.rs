//! The events that drive a taskbar instance.

use vstd::prelude::*;
use crate::niri::state::Snapshot;
use crate::notify::EnrichedNotification;

verus! {

/// An event for a taskbar instance.
#[derive(Debug)]
pub enum Event {
    /// A notification has arrived on the session bus.
    Notification(Box<EnrichedNotification>),
    /// The compositor's windows or workspaces have changed.
    WindowSnapshot(Snapshot),
}

} // verus!
