use niri_taskbar::notify::{
    is_notify_call, Actions, EnrichedNotification, Hints, Notification, INTERFACE, METHOD,
};

fn strings(items: &[&str]) -> Vec<String> {
    items.iter().map(|s| s.to_string()).collect()
}

fn pairs(actions: &Actions) -> Vec<(String, String)> {
    actions.iter().map(|action| (action.id.clone(), action.localised.clone())).collect()
}

fn plain(sender_pid: Option<i64>) -> Notification {
    Notification {
        app_name: Some("app".to_string()),
        replaces_id: None,
        app_icon: None,
        summary: "summary".to_string(),
        body: Some("body".to_string()),
        actions: Actions::from_flat(strings(&["default", "Open"])),
        hints: Hints {
            action_icons: None,
            category: None,
            desktop_entry: Some("app".to_string()),
            resident: None,
            sound_file: None,
            sound_name: None,
            suppress_sound: None,
            transient: None,
            sender_pid,
            urgency: Some(1),
            x: None,
            y: None,
        },
        expire_timeout: 5000,
    }
}

#[test]
fn actions_are_paired_in_order() {
    let actions = Actions::from_flat(strings(&["default", "Open", "close", "Close"]));
    assert_eq!(
        pairs(&actions),
        vec![
            ("default".to_string(), "Open".to_string()),
            ("close".to_string(), "Close".to_string())
        ]
    );
}

#[test]
fn odd_last_action_string_is_left_out() {
    let actions = Actions::from_flat(strings(&["a", "A", "b"]));
    assert_eq!(pairs(&actions), vec![("a".to_string(), "A".to_string())]);
    assert_eq!(Actions::from_flat(strings(&["a"])).len(), 0);
    assert_eq!(Actions::from_flat(vec![]).len(), 0);
    assert!(Actions::from_flat(vec![]).first().is_none());
}

#[test]
fn connection_pid_wins_over_the_hint() {
    let n = EnrichedNotification::new(plain(Some(7)), Some(9));
    assert_eq!(n.pid(), Some(9));
    let n = EnrichedNotification::new(plain(Some(7)), None);
    assert_eq!(n.pid(), Some(7));
    let n = EnrichedNotification::new(plain(None), None);
    assert_eq!(n.pid(), None);
    let n = EnrichedNotification::new(plain(Some(-1)), Some(u32::MAX));
    assert_eq!(n.pid(), Some(4294967295));
}

#[test]
fn notification_is_handed_back_unchanged() {
    let n = EnrichedNotification::new(plain(Some(7)), Some(9));
    assert_eq!(n.notification().summary, "summary");
    assert_eq!(n.notification().hints.desktop_entry.as_deref(), Some("app"));
    assert_eq!(n.notification().hints.sender_pid, Some(7));
    assert_eq!(n.notification().expire_timeout, 5000);
    assert_eq!(n.notification().actions.len(), 1);
}

#[test]
fn notify_calls_are_recognised() {
    assert_eq!(INTERFACE, "org.freedesktop.Notifications");
    assert_eq!(METHOD, "Notify");
    assert!(is_notify_call(Some("org.freedesktop.Notifications"), Some("Notify")));
    assert!(!is_notify_call(Some("org.freedesktop.Notifications"), Some("CloseNotification")));
    assert!(!is_notify_call(Some("org.freedesktop.DBus"), Some("Notify")));
    assert!(!is_notify_call(None, Some("Notify")));
    assert!(!is_notify_call(Some("org.freedesktop.Notifications"), None));
    assert!(!is_notify_call(None, None));
    assert!(!is_notify_call(Some("org.freedesktop.notifications"), Some("notify")));
}
