//! Desktop notifications as they arrive on the session bus.

use vstd::prelude::*;
use crate::text::{str_eq, string_texts, text_of};

pub mod cache;

verus! {

/// The interface whose method calls announce notifications.
pub const INTERFACE: &'static str = "org.freedesktop.Notifications";

/// The method that announces a notification.
pub const METHOD: &'static str = "Notify";

/// Whether a message with this interface and member announces a
/// notification: both must be present and be the notification interface and
/// its `Notify` method.
pub fn is_notify_call(interface: Option<&str>, member: Option<&str>) -> (matches: bool)
    ensures
        matches == match (interface, member) {
            (Some(i), Some(m)) => i@ == INTERFACE@ && m@ == METHOD@,
            _ => false,
        },
{
    match (interface, member) {
        (Some(i), Some(m)) => str_eq(i, INTERFACE) && str_eq(m, METHOD),
        _ => false,
    }
}

/// One action that a notification offers.
#[derive(Debug, Clone)]
pub struct Action {
    /// The identifier that is sent back when the action is chosen.
    pub id: String,
    /// The label shown to the user.
    pub localised: String,
}

/// The actions of a notification, in the order in which it lists them.
#[derive(Debug, Clone)]
pub struct Actions(Vec<Action>);

/// The pairs that a flat list of strings holds: identifier and label in
/// turn. A last string without a partner is left out.
pub open spec fn paired(flat: Seq<Seq<char>>) -> Seq<(Seq<char>, Seq<char>)> {
    Seq::new(flat.len() / 2, |k: int| (flat[2 * k], flat[2 * k + 1]))
}

/// The identifier and the label of each action of a list.
pub open spec fn action_pairs(actions: Seq<Action>) -> Seq<(Seq<char>, Seq<char>)> {
    actions.map_values(|a: Action| (a.id@, a.localised@))
}

impl View for Actions {
    type V = Seq<(Seq<char>, Seq<char>)>;

    closed spec fn view(&self) -> Seq<(Seq<char>, Seq<char>)> {
        action_pairs(self.0@)
    }
}

impl core::ops::Deref for Actions {
    type Target = Vec<Action>;

    fn deref(&self) -> (actions: &Vec<Action>)
        ensures
            action_pairs(actions@) == self@,
    {
        &self.0
    }
}

impl Actions {
    /// The actions that a flat list of identifiers and labels in turn holds,
    /// which is how they travel on the bus.
    pub fn from_flat(flat: Vec<String>) -> (actions: Self)
        ensures
            actions@ == paired(string_texts(flat@)),
    {
        let ghost all = string_texts(flat@);
        let mut actions: Vec<Action> = Vec::new();
        let mut id: Option<String> = None;
        for item in it: flat.into_iter()
            invariant
                it.seq() == flat@,
                all == string_texts(flat@),
                actions@.len() == it.index() / 2,
                forall|k: int|
                    0 <= k < actions@.len() ==> (#[trigger] actions@[k]).id@ == all[2 * k]
                        && actions@[k].localised@ == all[2 * k + 1],
                match id {
                    Some(held) => it.index() % 2 == 1 && held@ == all[it.index() - 1],
                    None => it.index() % 2 == 0,
                },
        {
            assert(all[it.index() as int] == item@);
            match id.take() {
                Some(held) => {
                    actions.push(Action { id: held, localised: item });
                },
                None => {
                    id = Some(item);
                },
            }
        }
        let actions = Actions(actions);
        assert(actions@ =~= paired(all));
        actions
    }
}

/// The hints of a notification.
#[derive(Debug, Clone)]
pub struct Hints {
    pub action_icons: Option<bool>,
    pub category: Option<String>,
    pub desktop_entry: Option<String>,
    pub resident: Option<bool>,
    pub sound_file: Option<String>,
    pub sound_name: Option<String>,
    pub suppress_sound: Option<bool>,
    pub transient: Option<bool>,
    pub sender_pid: Option<i64>,
    pub urgency: Option<u8>,
    pub x: Option<i32>,
    pub y: Option<i32>,
}

/// A desktop notification.
#[derive(Debug, Clone)]
pub struct Notification {
    pub app_name: Option<String>,
    pub replaces_id: Option<u32>,
    pub app_icon: Option<String>,
    pub summary: String,
    pub body: Option<String>,
    pub actions: Actions,
    pub hints: Hints,
    pub expire_timeout: i32,
}

/// A notification with the process of the connection that sent it, if that
/// is known.
#[derive(Debug, Clone)]
pub struct EnrichedNotification {
    notification: Notification,
    pid: Option<u32>,
}

impl EnrichedNotification {
    /// The notification as it came from the bus.
    pub closed spec fn inner(&self) -> Notification {
        self.notification
    }

    /// The process of the connection that sent the notification.
    pub closed spec fn connection_pid(&self) -> Option<u32> {
        self.pid
    }

    /// The process that the notification is attributed to: that of the
    /// connection, else the one that the `sender-pid` hint names.
    pub open spec fn sender(&self) -> Option<i64> {
        match self.connection_pid() {
            Some(pid) => Some(pid as i64),
            None => self.inner().hints.sender_pid,
        }
    }

    /// The desktop entry that the notification names in its hints.
    pub open spec fn desktop_entry(&self) -> Option<Seq<char>> {
        text_of(self.inner().hints.desktop_entry)
    }

    /// Pairs a notification with the process of its connection.
    pub fn new(notification: Notification, pid: Option<u32>) -> (enriched: Self)
        ensures
            enriched.inner() == notification,
            enriched.connection_pid() == pid,
    {
        EnrichedNotification { notification, pid }
    }

    /// Returns a reference to the notification.
    pub fn notification(&self) -> (notification: &Notification)
        ensures
            *notification == self.inner(),
    {
        &self.notification
    }

    /// Returns the PID, either from the connection or the `sender-pid`
    /// notification hint.
    pub fn pid(&self) -> (pid: Option<i64>)
        ensures
            pid == self.sender(),
    {
        match self.pid {
            Some(pid) => Some(pid as i64),
            None => self.notification.hints.sender_pid,
        }
    }
}

} // verus!
