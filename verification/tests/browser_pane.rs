use surya_ui::browser_pane::state::zoom_in;
use surya_ui::browser_pane::{
    on_key, reload_or_stop, typed_address, BrowserPane, FindCall, PaneKey, PaneKeyAction,
    ReloadOrStop, UrlSubmit,
};

fn pane() -> BrowserPane {
    BrowserPane::new(&vec![("docs.rs".to_string(), 125)])
}

#[test]
fn enter_and_escape_act_only_from_the_two_fields() {
    assert_eq!(
        on_key(PaneKey::Enter, false, true, false),
        Some(PaneKeyAction::StepFind { forward: true })
    );
    assert_eq!(
        on_key(PaneKey::Enter, false, true, true),
        Some(PaneKeyAction::StepFind { forward: false })
    );
    assert_eq!(on_key(PaneKey::Enter, true, false, false), Some(PaneKeyAction::SubmitUrl));
    assert_eq!(on_key(PaneKey::Escape, false, true, false), Some(PaneKeyAction::CloseFind));
    assert_eq!(on_key(PaneKey::Escape, true, false, false), Some(PaneKeyAction::RestoreUrl));
    assert_eq!(on_key(PaneKey::Enter, false, false, false), None);
    assert_eq!(on_key(PaneKey::Other, true, false, false), None);
}

#[test]
fn the_reload_button_stops_a_load_in_flight() {
    assert_eq!(reload_or_stop(true), ReloadOrStop::Stop);
    assert_eq!(reload_or_stop(false), ReloadOrStop::Reload);
}

#[test]
fn a_typed_address_is_trimmed_and_blank_is_nothing() {
    assert_eq!(typed_address("  example.com \n"), Some("example.com".to_string()));
    assert_eq!(typed_address(" \t "), None);
    assert_eq!(typed_address(""), None);
}

#[test]
fn a_fresh_pane_follows_the_page_at_full_size() {
    let p = pane();
    assert!(!p.url_editing);
    assert!(!p.find_open);
    assert_eq!(p.zoom_percent, 100);
    assert_eq!(p.zoom.get("https://docs.rs/serde"), 125);
    assert_eq!(p.zoom.get("https://example.com/"), 100);
}

#[test]
fn the_field_follows_the_page_until_someone_types() {
    let mut p = pane();
    assert_eq!(p.sync_url("", "https://example.com/"), Some("https://example.com/".to_string()));
    assert_eq!(p.last_written, "https://example.com/");
    assert_eq!(p.sync_url("https://example.com/", "https://example.com/"), None);
    // The pane's own write arriving late is not typing.
    p.edited("https://example.com/");
    assert!(!p.url_editing);
    p.edited("https://example.co");
    assert!(p.url_editing);
    assert_eq!(p.sync_url("https://example.co", "https://example.com/"), None);
    assert_eq!(p.restore_url("https://example.com/"), "https://example.com/");
    assert!(!p.url_editing);
    assert_eq!(p.last_written, "https://example.com/");
}

#[test]
fn a_refused_address_stays_in_the_field_with_its_reason() {
    let mut p = pane();
    p.edited("file:///etc/passwd");
    let r = p.submit_url(" file:///etc/passwd ", "", "file:// pages do not open here".into());
    assert_eq!(r, UrlSubmit::Refused);
    assert!(p.url_editing);
    assert_eq!(p.refused.as_deref(), Some("file:// pages do not open here"));

    let r = p.submit_url("  example.com ", "https://example.com/", String::new());
    assert_eq!(r, UrlSubmit::Navigate("example.com".to_string()));
    assert!(!p.url_editing);
    assert_eq!(p.refused, None);

    assert_eq!(p.submit_url("   ", "", String::new()), UrlSubmit::Nothing);
}

#[test]
fn a_new_tab_opens_typing_and_a_switch_forgets_the_zoom_address() {
    let mut p = pane();
    p.sync_url("", "https://docs.rs/");
    p.open_tab();
    assert!(p.url_editing);
    assert_eq!(p.last_written, "");
    p.follow_page_zoom("https://docs.rs/");
    assert_eq!(p.zoom_url, "https://docs.rs/");
    p.activate();
    assert!(!p.url_editing);
    assert_eq!(p.zoom_url, "");
    p.open_tab();
    p.close();
    assert!(!p.url_editing);
    assert_eq!(p.zoom_url, "");
    p.url_editing = true;
    p.go_back();
    assert!(!p.url_editing);
    p.url_editing = true;
    p.go_forward();
    assert!(!p.url_editing);
}

#[test]
fn enter_steps_through_the_run_the_same_query_started() {
    let mut p = pane();
    p.open_find();
    assert!(p.find_open);
    assert!(p.take_find_focus());
    assert!(!p.take_find_focus(), "the focus is taken once");

    assert_eq!(
        p.run_find(" serde ", true, false),
        FindCall::Find { query: "serde".into(), forward: true, find_next: false }
    );
    assert_eq!(
        p.step_find("serde", false),
        FindCall::Find { query: "serde".into(), forward: false, find_next: true }
    );
    assert_eq!(
        p.step_find("tokio", true),
        FindCall::Find { query: "tokio".into(), forward: true, find_next: false },
        "a changed query starts a new run"
    );
    assert_eq!(p.run_find("  ", true, true), FindCall::Stop);
    assert_eq!(p.find_query, "");

    p.run_find("serde", true, false);
    p.close_find();
    assert!(!p.find_open);
    assert_eq!(p.find_query, "");
}

#[test]
fn a_zoom_is_remembered_for_the_host_and_picked_up_on_its_pages() {
    let mut p = pane();
    let target = zoom_in(p.zoom_percent);
    assert_eq!(target, 110);
    assert!(p.step_zoom(target, "https://example.com/a"));
    assert_eq!(p.zoom_percent, 110);
    assert_eq!(p.zoom_url, "https://example.com/a");
    assert!(!p.step_zoom(110, "https://example.com/a"), "the same zoom writes nothing");
    // The same frame again: nothing to do.
    assert_eq!(p.follow_page_zoom("https://example.com/a"), None);
    // Another host at the default size.
    assert_eq!(p.follow_page_zoom("https://docs.rs/serde"), Some(125));
    assert_eq!(p.zoom_percent, 125);
    // Back on the first host, another page: its zoom comes back.
    assert_eq!(p.follow_page_zoom("https://EXAMPLE.com:443/b"), Some(110));
    assert_eq!(p.follow_page_zoom(""), None);
    assert_eq!(p.zoom_url, "https://EXAMPLE.com:443/b");
    // Resetting to 100% forgets the host.
    assert!(p.step_zoom(100, "https://example.com/b"));
    assert_eq!(p.zoom.get("https://example.com/"), 100);
    assert!(!p.step_zoom(150, ""), "an empty tab has no host to remember");
    assert_eq!(p.zoom_percent, 150);
}
