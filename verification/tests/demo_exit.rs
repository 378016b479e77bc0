use surya_ui::demo_bootstrap::{exit_after, exit_secs};

#[test]
fn exit_seconds_parse_trimmed_and_ignore_junk() {
    assert_eq!(exit_secs(Some(" 7 ")), Some(7));
    assert_eq!(exit_secs(Some("soon")), None);
    assert_eq!(exit_secs(None), None);
    assert_eq!(exit_secs(Some("+3")), Some(3));
    assert_eq!(exit_secs(Some("18446744073709551615")), Some(u64::MAX));
    assert_eq!(exit_secs(Some("18446744073709551616")), None);
    assert_eq!(exit_secs(Some("")), None);
}

#[test]
fn the_shared_variable_wins_over_the_legacy_one() {
    assert_eq!(exit_after(Some("5"), Some("9")), Some(5));
    assert_eq!(exit_after(None, Some("9")), Some(9));
    assert_eq!(exit_after(Some("junk"), Some(" 9")), Some(9));
    assert_eq!(exit_after(None, None), None);
}

#[test]
fn exit_after_parses_seconds_and_ignores_junk() {
    // Only the legacy variable is set.
    assert_eq!(exit_after(None, Some(" 7 ")), Some(7));
    assert_eq!(exit_after(None, Some("soon")), None);
    assert_eq!(exit_after(None, None), None);
}
