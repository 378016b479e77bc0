use surya_ui::browser_pane::state::{
    find_label, step_index, tab_title, zoom_host, zoom_in, zoom_label, zoom_out, ZoomMemory,
};

#[test]
fn zoom_steps_along_chromes_ladder() {
    assert_eq!(zoom_in(100), 110);
    assert_eq!(zoom_in(110), 125);
    assert_eq!(zoom_out(100), 90);
    assert_eq!(zoom_out(25), 25, "the bottom of the ladder holds");
    assert_eq!(zoom_in(400), 400, "the top of the ladder holds");
    assert_eq!(zoom_in(105), 110);
    assert_eq!(zoom_out(105), 100);
}

#[test]
fn only_a_zoom_that_is_not_100_is_shown() {
    assert_eq!(zoom_label(100), None);
    assert_eq!(zoom_label(125).as_deref(), Some("125%"));
}

#[test]
fn zoom_is_remembered_per_host() {
    let mut memory = ZoomMemory::default();
    assert!(memory.set("https://example.com/a", 125));
    assert_eq!(memory.get("https://example.com/b/c?d=1"), 125);
    assert_eq!(memory.get("https://other.example/"), 100);
    assert!(memory.set("https://example.com/a", 100));
    assert!(memory.as_settings().is_empty());
}

#[test]
fn a_zoom_host_ignores_scheme_port_and_path() {
    assert_eq!(zoom_host("https://Example.COM:8443/x").as_deref(), Some("example.com"));
    assert_eq!(zoom_host("http://localhost:8457/").as_deref(), Some("localhost"));
    assert_eq!(zoom_host("example.com").as_deref(), Some("example.com"));
    assert_eq!(zoom_host(""), None);
    assert_eq!(zoom_host("https://"), None);
}

#[test]
fn find_says_which_match_of_how_many() {
    assert_eq!(find_label(3, 12).as_deref(), Some("3 of 12"));
    assert_eq!(find_label(0, 0).as_deref(), Some("No results"));
    assert_eq!(find_label(0, 5).as_deref(), Some("1 of 5"));
}

#[test]
fn a_tab_falls_back_to_its_host_then_to_new_tab() {
    assert_eq!(tab_title("Example Domain", "https://example.com"), "Example Domain");
    assert_eq!(tab_title("  ", "https://example.com/x"), "example.com");
    assert_eq!(tab_title("", ""), "New tab");
}

#[test]
fn settings_round_trip_keeps_every_host_and_the_later_duplicate() {
    let saved = vec![
        ("example.com".to_string(), 125),
        ("other.example".to_string(), 80),
        ("example.com".to_string(), 150),
    ];
    let memory = ZoomMemory::from_settings(&saved);
    assert_eq!(memory.get("https://example.com/"), 150);
    assert_eq!(memory.get("https://other.example/x"), 80);
    let back = ZoomMemory::from_settings(&memory.as_settings());
    assert_eq!(back.get("https://example.com/"), 150);
    assert_eq!(back.get("https://other.example/x"), 80);
    assert_eq!(memory.as_settings().len(), 2);
}

#[test]
fn setting_the_same_zoom_twice_writes_once() {
    let mut memory = ZoomMemory::new();
    assert!(memory.set("https://a.example/", 90));
    assert!(!memory.set("https://a.example/other", 90));
    assert!(!memory.set("https://", 90), "no host, nothing remembered");
    assert!(!memory.set("https://b.example/", 100), "100 for an unknown host changes nothing");
}

#[test]
fn tab_steps_wrap_at_both_ends() {
    assert_eq!(step_index(0, 3, 1), Some(1));
    assert_eq!(step_index(2, 3, 1), Some(0));
    assert_eq!(step_index(0, 3, -1), Some(2));
    assert_eq!(step_index(1, 3, -4), Some(0));
    assert_eq!(step_index(0, 1, 1), None, "one tab has nowhere to go");
}
