use niri_taskbar::notify::cache::{Cache, ConnectionCache, Lookup, OwnerChange};

#[test]
fn cache_expiry_triggers_fresh_resolution() {
    let mut cache = ConnectionCache::new(10);
    assert_eq!(cache.get("conn1", 0), Lookup::Resolve);
    assert_eq!(cache.resolved("conn1", Some(42), 0), Some(42));
    cache.sweep(11);
    assert_eq!(cache.get("conn1", 11), Lookup::Resolve);
}

#[test]
fn entry_is_a_hit_before_its_expiry() {
    let mut cache = ConnectionCache::new(10);
    assert_eq!(cache.get("conn1", 0), Lookup::Resolve);
    assert_eq!(cache.resolved("conn1", Some(42), 0), Some(42));
    cache.sweep(9);
    assert_eq!(cache.get("conn1", 9), Lookup::Hit(Some(42)));
}

#[test]
fn unique_names_are_told_from_other_texts() {
    let valid = [
        ":1.42",
        ":org.gnome.Service-for_you",
        ":a.very.loooooooooooooooooo-ooooooo_0000o0ng.Name",
        "org.freedesktop.DBus",
        ":a.b",
        ":1.2.3",
    ];
    for name in valid {
        assert!(ConnectionCache::can_resolve(name), "{name}");
    }
    let invalid = [
        "",
        ":",
        "dont.start.with.a.colon",
        ":double..dots",
        ".",
        ".start.with.dot",
        ":no-dots",
        ":.a",
        ":a.",
        ":a.b c",
        ":a.b\u{e9}",
        "org.freedesktop.DBusX",
        "org.freedesktop.dbus",
        "::1.2",
        "conn1",
    ];
    for name in invalid {
        assert!(!ConnectionCache::can_resolve(name), "{name}");
    }
}

#[test]
fn unique_name_length_limit() {
    let fits = format!(":a.{}", "b".repeat(252));
    assert_eq!(fits.len(), 255);
    assert!(ConnectionCache::can_resolve(&fits));
    let too_long = format!(":a.{}", "b".repeat(253));
    assert!(!ConnectionCache::can_resolve(&too_long));
}

#[test]
fn unresolved_lookup_is_cached_too() {
    let mut cache = ConnectionCache::new(10);
    assert_eq!(cache.get(":1.7", 3), Lookup::Resolve);
    assert_eq!(cache.resolved(":1.7", None, 3), None);
    assert_eq!(cache.get(":1.7", 4), Lookup::Hit(None));
}

#[test]
fn hit_refreshes_the_expiry() {
    let mut cache = ConnectionCache::new(10);
    cache.resolved(":1.1", Some(1), 0);
    cache.resolved(":1.2", Some(2), 0);
    assert_eq!(cache.get(":1.1", 8), Lookup::Hit(Some(1)));
    cache.sweep(10);
    assert_eq!(cache.get(":1.1", 10), Lookup::Hit(Some(1)));
    assert_eq!(cache.get(":1.2", 10), Lookup::Resolve);
}

#[test]
fn sweep_removes_entries_whose_expiry_has_passed() {
    let mut cache = Cache::new(10);
    cache.insert("a", Some(1), 0);
    cache.insert("b", Some(2), 1);
    cache.insert("c", None, 2);
    cache.expire(9);
    assert_eq!(cache.get("a", 9), Some(Some(1)));
    cache.expire(11);
    assert_eq!(cache.get("b", 0), None);
    assert_eq!(cache.get("c", 0), Some(None));
    assert_eq!(cache.get("a", 0), Some(Some(1)));
    cache.expire(12);
    assert_eq!(cache.get("c", 0), None);
    assert_eq!(cache.get("a", 0), None);
}

#[test]
fn entry_expires_exactly_at_its_expiry() {
    let mut cache = Cache::new(10);
    cache.insert("a", Some(1), 5);
    cache.expire(14);
    assert_eq!(cache.get("a", 5), Some(Some(1)));
    cache.expire(15);
    assert_eq!(cache.get("a", 5), None);
}

#[test]
fn stale_entry_is_a_hit_until_a_sweep_has_run() {
    let mut cache = ConnectionCache::new(10);
    cache.resolved(":1.1", Some(42), 0);
    assert_eq!(cache.get(":1.1", 100), Lookup::Hit(Some(42)));
}

#[test]
fn cache_get_on_empty_cache_misses() {
    let mut cache = Cache::new(5);
    assert_eq!(cache.get("anything", 0), None);
}

#[test]
fn cache_insert_replaces_the_entry() {
    let mut cache = Cache::new(5);
    cache.insert("a", Some(1), 0);
    cache.insert("a", Some(2), 3);
    cache.expire(5);
    assert_eq!(cache.get("a", 0), Some(Some(2)));
}

#[test]
fn cache_remove_evicts_only_the_named_connection() {
    let mut cache = Cache::new(5);
    cache.insert("a", Some(1), 0);
    cache.insert("b", Some(2), 0);
    cache.remove("a");
    cache.remove("zzz");
    assert_eq!(cache.get("a", 0), None);
    assert_eq!(cache.get("b", 0), Some(Some(2)));
}

#[test]
fn new_owner_is_resolved_eagerly() {
    let mut cache = ConnectionCache::new(10);
    assert_eq!(cache.owner_changed(None, Some(":1.5")), OwnerChange::Appeared);
    assert_eq!(cache.get(":1.5", 0), Lookup::Resolve);
    cache.owner_resolved(":1.5", Some(77), 0);
    assert_eq!(cache.get(":1.5", 0), Lookup::Hit(Some(77)));
}

#[test]
fn new_owner_that_cannot_be_resolved_is_not_cached() {
    let mut cache = ConnectionCache::new(10);
    cache.owner_resolved(":1.5", None, 0);
    assert_eq!(cache.get(":1.5", 0), Lookup::Resolve);
}

#[test]
fn new_owner_wins_over_old_owner() {
    let mut cache = ConnectionCache::new(10);
    cache.resolved(":1.1", Some(1), 0);
    assert_eq!(cache.owner_changed(Some(":1.1"), Some(":1.2")), OwnerChange::Appeared);
    assert_eq!(cache.get(":1.1", 0), Lookup::Hit(Some(1)));
}

#[test]
fn vanished_owner_is_evicted_immediately() {
    let mut cache = ConnectionCache::new(10);
    cache.resolved(":1.1", Some(1), 0);
    cache.resolved(":1.2", Some(2), 0);
    assert_eq!(cache.owner_changed(Some(":1.1"), None), OwnerChange::Disappeared);
    assert_eq!(cache.get(":1.1", 0), Lookup::Resolve);
    assert_eq!(cache.get(":1.2", 0), Lookup::Hit(Some(2)));
}

#[test]
fn owner_change_without_owners_does_nothing() {
    let mut cache = ConnectionCache::new(10);
    cache.resolved(":1.1", Some(1), 0);
    assert_eq!(cache.owner_changed(None, None), OwnerChange::Neither);
    assert_eq!(cache.get(":1.1", 0), Lookup::Hit(Some(1)));
}

#[test]
fn monitor_constants() {
    assert_eq!(niri_taskbar::notify::cache::EXPIRY, 86400);
    assert_eq!(niri_taskbar::notify::cache::SWEEP_INTERVAL, 60);
}
