//! The key-cap labels the add-space palette shows: the Command glyph on
//! macOS, the word "Ctrl" everywhere else, and the Enter key spelled out.
use vstd::prelude::*;
use crate::text::owned;

verus! {

/// The chip on the search bar: the chord that summons the palette.
pub fn summon_label(mac: bool) -> (r: String)
    ensures
        r@ == if mac {
            "\u{2318}K"@
        } else {
            "Ctrl+K"@
        },
{
    if mac {
        owned("\u{2318}K")
    } else {
        owned("Ctrl+K")
    }
}

/// The primary chip: the chord that adds the previewed folder. The key is
/// the word "Enter", not the bare return arrow.
pub fn submit_label(mac: bool) -> (r: String)
    ensures
        r@ == if mac {
            "\u{2318}Enter"@
        } else {
            "Ctrl+Enter"@
        },
{
    if mac {
        owned("\u{2318}Enter")
    } else {
        owned("Ctrl+Enter")
    }
}

} // verus!
