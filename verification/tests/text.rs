use niri_taskbar::text::{chars_of, has_dot, last_segment};

#[test]
fn last_segment_is_what_follows_the_last_dot() {
    assert_eq!(last_segment("org.example.Foo"), "Foo");
    assert_eq!(last_segment("Foo"), "Foo");
    assert_eq!(last_segment(""), "");
    assert_eq!(last_segment("a."), "");
    assert_eq!(last_segment(".a"), "a");
    assert_eq!(last_segment("a..b"), "b");
    assert_eq!(last_segment("."), "");
    assert_eq!(last_segment("org.éxample.Çé"), "Çé");
}

#[test]
fn last_segment_agrees_with_split() {
    for s in ["", ".", "a", "a.b", "a.b.", "..", "x.y.z", "ä.ö.ü", "no dots here"] {
        assert_eq!(last_segment(s), s.split('.').next_back().unwrap_or_default(), "{s:?}");
        assert_eq!(has_dot(s), s.contains('.'), "{s:?}");
    }
}

#[test]
fn has_dot_finds_a_dot_anywhere() {
    assert!(has_dot("a.b"));
    assert!(has_dot("."));
    assert!(has_dot("ab."));
    assert!(!has_dot("ab"));
    assert!(!has_dot(""));
    assert!(!has_dot("a,b"));
}

#[test]
fn chars_of_lists_the_characters() {
    assert_eq!(chars_of("aé☃"), vec!['a', 'é', '☃']);
    assert_eq!(chars_of(""), Vec::<char>::new());
}

#[test]
fn split_agrees_with_the_standard_library() {
    for s in ["", ":", "a", "a:b", ":a", "a:", "a::b", "::", "ä:ö:ü", "a b:c d", "no separator"] {
        let expected: Vec<String> = s.split(':').map(|p| p.to_string()).collect();
        assert_eq!(niri_taskbar::text::split(s, ':'), expected, "{s:?}");
    }
    assert_eq!(niri_taskbar::text::split("a b  c", ' '), vec!["a", "b", "", "c"]);
    assert_eq!(niri_taskbar::text::split("aébéc", 'é'), vec!["a", "b", "c"]);
}
