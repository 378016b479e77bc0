use surya_ui::key_chips::{submit_label, summon_label};

/// U+2318 PLACE OF INTEREST SIGN, the Mac Command key.
const COMMAND_GLYPH: char = '⌘';

#[test]
fn no_mac_glyph_reaches_a_windows_or_linux_chip() {
    for label in [summon_label(false), submit_label(false)] {
        assert!(
            !label.contains(COMMAND_GLYPH),
            "a Mac modifier glyph off macOS: {label:?}"
        );
    }
    assert_eq!(summon_label(false), "Ctrl+K");
    assert_eq!(submit_label(false), "Ctrl+Enter");
}

#[test]
fn macos_still_gets_its_glyph() {
    assert_eq!(summon_label(true), "⌘K");
    assert_eq!(submit_label(true), "⌘Enter");
}

#[test]
fn the_add_chip_spells_enter_out() {
    assert!(submit_label(true).contains("Enter"));
    assert!(submit_label(false).contains("Enter"));
}
