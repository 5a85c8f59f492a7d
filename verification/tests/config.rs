use niri_taskbar::config::{select_classes, AppConfig, Config, Notifications};

fn rule(pattern: &str, class: &str) -> AppConfig {
    AppConfig::new(pattern.to_string(), class.to_string()).expect("valid pattern")
}

fn sample() -> Config {
    Config::new(
        vec![
            (
                "firefox".to_string(),
                vec![rule("GitHub", "github"), rule("^Mozilla", "mozilla"), rule("(?i)hub$", "hub")],
            ),
            ("signal".to_string(), vec![rule(r"\([0-9]+\)$", "unread")]),
        ],
        None,
    )
}

#[test]
fn invalid_pattern_gives_no_rule() {
    assert!(AppConfig::new("foo(bar".to_string(), "c".to_string()).is_none());
    assert!(AppConfig::new(r"\w{1000}".to_string(), "c".to_string()).is_none());
    let ok = AppConfig::new(r"(?-u:\w){1000}".to_string(), "c".to_string()).expect("valid");
    assert_eq!(ok.class(), "c");
    assert_eq!(ok.pattern(), r"(?-u:\w){1000}");
}

#[test]
fn rule_matches_anywhere_in_the_title() {
    let r = rule("b+c", "x");
    assert!(r.is_match("aabbbcc"));
    assert!(!r.is_match("aacc"));
    assert!(rule("", "x").is_match(""));
    assert!(rule("^$", "x").is_match(""));
    assert!(!rule("^$", "x").is_match("a"));
}

#[test]
fn app_classes_lists_every_class_of_the_application() {
    let config = sample();
    assert_eq!(config.app_classes("firefox"), vec!["github", "mozilla", "hub"]);
    assert_eq!(config.app_classes("signal"), vec!["unread"]);
    assert_eq!(config.app_classes("unknown"), Vec::<&str>::new());
    assert_eq!(config.app_classes("Firefox"), Vec::<&str>::new());
}

#[test]
fn app_matches_lists_the_classes_whose_pattern_matches() {
    let config = sample();
    assert_eq!(config.app_matches("firefox", "Mozilla Firefox"), vec!["mozilla"]);
    assert_eq!(config.app_matches("firefox", "Issues - GitHub"), vec!["github", "hub"]);
    assert_eq!(config.app_matches("firefox", "nothing"), Vec::<&str>::new());
    assert_eq!(config.app_matches("signal", "Signal (3)"), vec!["unread"]);
    assert_eq!(config.app_matches("signal", "Signal"), Vec::<&str>::new());
    assert_eq!(config.app_matches("unknown", "Mozilla"), Vec::<&str>::new());
}

#[test]
fn later_rules_for_the_same_application_replace_earlier_ones() {
    let config = Config::new(
        vec![
            ("a".to_string(), vec![rule("x", "first")]),
            ("b".to_string(), vec![rule("x", "other")]),
            ("a".to_string(), vec![rule("x", "second")]),
        ],
        None,
    );
    assert_eq!(config.app_classes("a"), vec!["second"]);
    assert_eq!(config.app_classes("b"), vec!["other"]);
}

#[test]
fn select_classes_follows_the_verdicts() {
    let rules = vec![rule("a", "one"), rule("b", "two"), rule("c", "three")];
    assert_eq!(select_classes(&rules, &vec![true, false, true]), vec!["one", "three"]);
    assert_eq!(select_classes(&rules, &vec![false, false, false]), Vec::<&str>::new());
    assert_eq!(select_classes(&rules, &vec![true, true, true]), vec!["one", "two", "three"]);
    assert_eq!(select_classes(&vec![], &vec![]), Vec::<&str>::new());
    assert_eq!(select_classes(&rules, &vec![true, true]), Vec::<&str>::new());
    assert_eq!(select_classes(&rules, &vec![true, true, true, true]), Vec::<&str>::new());
}

#[test]
fn defaults_without_notification_settings() {
    for config in [Config::default(), Config::new(vec![], None)] {
        assert!(config.notifications_enabled());
        assert!(config.notifications_should_use_desktop_entry());
        assert!(!config.notifications_use_fuzzy_matching());
        assert_eq!(config.notifications_app_map("anything"), None);
        assert_eq!(config.app_classes("anything"), Vec::<&str>::new());
    }
}

#[test]
fn notification_settings_are_read_back() {
    let settings = Notifications::new(
        false,
        true,
        true,
        vec![
            ("telegram".to_string(), "org.telegram.desktop".to_string()),
            ("x".to_string(), "first".to_string()),
            ("x".to_string(), "second".to_string()),
        ],
    );
    let config = Config::new(vec![], Some(settings));
    assert!(!config.notifications_enabled());
    assert!(!config.notifications_should_use_desktop_entry());
    assert!(config.notifications_use_fuzzy_matching());
    assert_eq!(config.notifications_app_map("telegram"), Some("org.telegram.desktop"));
    assert_eq!(config.notifications_app_map("x"), Some("second"));
    assert_eq!(config.notifications_app_map("Telegram"), None);

    let config = Config::new(vec![], Some(Notifications::new(true, false, false, vec![])));
    assert!(config.notifications_enabled());
    assert!(config.notifications_should_use_desktop_entry());
    assert!(!config.notifications_use_fuzzy_matching());
}
