use niri_taskbar::icon::Cache;
use std::path::PathBuf;

#[test]
fn lookup_asks_once_and_answers_from_the_cache_afterwards() {
    let mut cache = Cache::new();
    let mut asked = 0;
    let found = cache.lookup("firefox", |id| {
        asked += 1;
        Some(PathBuf::from(format!("/icons/{id}.png")))
    });
    assert_eq!(found, Some(PathBuf::from("/icons/firefox.png")));
    let again = cache.lookup("firefox", |_| {
        asked += 1;
        Some(PathBuf::from("/elsewhere"))
    });
    assert_eq!(again, Some(PathBuf::from("/icons/firefox.png")));
    assert_eq!(asked, 1);
}

#[test]
fn lookup_does_not_keep_a_miss() {
    let mut cache = Cache::default();
    let mut asked = 0;
    assert_eq!(
        cache.lookup("ghost", |_| {
            asked += 1;
            None
        }),
        None
    );
    assert_eq!(
        cache.lookup("ghost", |_| {
            asked += 1;
            Some(PathBuf::from("/late"))
        }),
        Some(PathBuf::from("/late"))
    );
    assert_eq!(asked, 2);
}

#[test]
fn lookup_keeps_applications_apart() {
    let mut cache = Cache::new();
    cache.lookup("a", |_| Some(PathBuf::from("/a")));
    cache.lookup("b", |_| Some(PathBuf::from("/b")));
    assert_eq!(cache.lookup("a", |_| None), Some(PathBuf::from("/a")));
    assert_eq!(cache.lookup("b", |_| None), Some(PathBuf::from("/b")));
    assert_eq!(cache.lookup("A", |_| None), None);
}

#[test]
fn desktop_file_names_in_search_order() {
    assert_eq!(
        niri_taskbar::icon::desktop_file_names("dolphin"),
        vec![
            "applications/dolphin",
            "applications/dolphin.desktop",
            "applications/kde/dolphin",
            "applications/kde/dolphin.desktop",
            "applications/org.kde.dolphin",
            "applications/org.kde.dolphin.desktop",
        ]
    );
    assert_eq!(niri_taskbar::icon::desktop_file_names("")[5], "applications/org.kde..desktop");
}

#[test]
fn data_dirs_come_from_the_environment_or_the_defaults() {
    assert_eq!(niri_taskbar::icon::data_dirs(None), vec!["/usr/share", "/usr/local/share"]);
    assert_eq!(
        niri_taskbar::icon::data_dirs(Some("/a/share:/b/share")),
        vec!["/a/share", "/b/share"]
    );
    assert_eq!(niri_taskbar::icon::data_dirs(Some("/only")), vec!["/only"]);
    assert_eq!(niri_taskbar::icon::data_dirs(Some("")), vec![""]);
    assert_eq!(niri_taskbar::icon::data_dirs(Some("/a::/b:")), vec!["/a", "", "/b", ""]);
}
