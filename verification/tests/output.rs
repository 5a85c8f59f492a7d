use niri_taskbar::output::{Filter, Matcher};

fn partial() -> Matcher {
    Matcher { geometry: true, model: false, manufacturer: true }
}

fn name_of(filter: Filter) -> Option<String> {
    match filter {
        Filter::ShowAll => None,
        Filter::Only(name) => Some(name),
    }
}

#[test]
fn show_all_shows_every_output() {
    assert!(Filter::ShowAll.should_show("DP-1"));
    assert!(Filter::ShowAll.should_show(""));
}

#[test]
fn only_shows_the_named_output() {
    let filter = Filter::Only("DP-1".to_string());
    assert!(filter.should_show("DP-1"));
    assert!(!filter.should_show("DP-2"));
    assert!(!filter.should_show("dp-1"));
    assert!(!filter.should_show(""));
}

#[test]
fn matcher_all_and_empty() {
    assert_eq!(Matcher::all(), Matcher { geometry: true, model: true, manufacturer: true });
    assert_eq!(Matcher::empty(), Matcher { geometry: false, model: false, manufacturer: false });
    assert_ne!(Matcher::all(), partial());
}

#[test]
fn matcher_compares_model_and_manufacturer() {
    assert_eq!(Matcher::new(Some(true), Some("U2720Q"), "U2720Q", Some("Dell"), "Dell"), Matcher::all());
    assert_eq!(
        Matcher::new(Some(false), Some("U2720Q"), "U2720Q", Some("Dell"), "Dell"),
        Matcher { geometry: false, model: true, manufacturer: true }
    );
    assert_eq!(
        Matcher::new(Some(true), Some("U2720Q"), "other", Some("Dell"), "DELL"),
        Matcher { geometry: true, model: false, manufacturer: false }
    );
    assert_eq!(Matcher::new(Some(true), None, "", None, ""), Matcher::all());
    assert_eq!(
        Matcher::new(Some(true), None, "U2720Q", None, "Dell"),
        Matcher { geometry: true, model: false, manufacturer: false }
    );
    assert_eq!(
        Matcher::new(Some(true), Some(""), "", Some(""), "x"),
        Matcher { geometry: true, model: true, manufacturer: false }
    );
}

#[test]
fn matcher_without_logical_output_agrees_in_nothing() {
    assert_eq!(Matcher::new(None, Some("a"), "a", Some("b"), "b"), Matcher::empty());
    assert_eq!(Matcher::new(None, None, "", None, ""), Matcher::empty());
}

#[test]
fn select_shows_all_when_configured() {
    let outputs = vec![("DP-1".to_string(), Matcher::all()), ("DP-2".to_string(), partial())];
    assert_eq!(name_of(Filter::select(true, &outputs)), None);
}

#[test]
fn select_shows_all_with_a_single_output() {
    let outputs = vec![("DP-1".to_string(), Matcher::all())];
    assert_eq!(name_of(Filter::select(false, &outputs)), None);
}

#[test]
fn select_picks_the_first_full_match() {
    let outputs = vec![
        ("DP-1".to_string(), partial()),
        ("DP-2".to_string(), Matcher::all()),
        ("DP-3".to_string(), Matcher::all()),
    ];
    assert_eq!(name_of(Filter::select(false, &outputs)), Some("DP-2".to_string()));
}

#[test]
fn select_shows_all_without_full_match() {
    let outputs = vec![("DP-1".to_string(), partial()), ("DP-2".to_string(), Matcher::empty())];
    assert_eq!(name_of(Filter::select(false, &outputs)), None);
    assert_eq!(name_of(Filter::select(false, &vec![])), None);
}
