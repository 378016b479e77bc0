//! The self-quit the single-pane demos use as a headless proof: how long to
//! run, read from the environment's text.
use vstd::prelude::*;
use crate::text::{all_digits, chars_of, digits_value, trim, trim_chars};

verus! {

/// The variable every demo shares.
pub const EXIT_ENV: &'static str = "SURYA_DEMO_EXIT_SECS";

/// `u64::from_str`: an optional `+`, then one or more decimal digits whose
/// value fits.
pub open spec fn parse_u64_spec(s: Seq<char>) -> Option<u64> {
    let d = if s.len() > 0 && s[0] == '+' {
        s.drop_first()
    } else {
        s
    };
    if d.len() > 0 && all_digits(d) && digits_value(d) <= u64::MAX {
        Some(digits_value(d) as u64)
    } else {
        None
    }
}

/// The seconds a variable's value names: its trimmed text as a `u64`.
pub open spec fn exit_secs_spec(value: Option<Seq<char>>) -> Option<u64> {
    match value {
        Some(v) => parse_u64_spec(trim(v)),
        None => None,
    }
}

/// The shared variable wins; the demo's legacy one counts only when the
/// shared one is absent or junk.
pub open spec fn exit_after_spec(shared: Option<Seq<char>>, legacy: Option<Seq<char>>) -> Option<u64> {
    match exit_secs_spec(shared) {
        Some(s) => Some(s),
        None => exit_secs_spec(legacy),
    }
}

/// `u64::from_str` on characters.
pub fn parse_u64(v: &[char]) -> (r: Option<u64>)
    ensures
        r == parse_u64_spec(v@),
{
    let start: usize = if v.len() > 0 && v[0] == '+' {
        1
    } else {
        0
    };
    let ghost d = v@.skip(start as int);
    assert(d == if v@.len() > 0 && v@[0] == '+' {
        v@.drop_first()
    } else {
        v@
    });
    if start >= v.len() {
        return None;
    }
    let mut acc: u64 = 0;
    let mut i: usize = start;
    while i < v.len()
        invariant
            start <= i <= v@.len(),
            d == v@.skip(start as int),
            d == if v@.len() > 0 && v@[0] == '+' {
                v@.drop_first()
            } else {
                v@
            },
            acc as nat == digits_value(d.take(i - start)),
            all_digits(d.take(i - start)),
        decreases v@.len() - i,
    {
        let c = v[i];
        proof {
            assert(d.take(i - start + 1).drop_last() == d.take(i - start));
            assert(d.take(i - start + 1).last() == c);
        }
        if !('0' <= c && c <= '9') {
            proof {
                assert(d[i - start] == v@[i as int]);
                assert(!all_digits(d));
            }
            return None;
        }
        let digit: u64 = (c as u64) - ('0' as u64);
        let next = match acc.checked_mul(10) {
            Some(m) => m.checked_add(digit),
            None => None,
        };
        match next {
            Some(n) => {
                acc = n;
            },
            None => {
                proof {
                    if all_digits(d) {
                        crate::text::lemma_digits_value_grows(d, i - start + 1);
                    }
                }
                return None;
            },
        }
        proof {
            assert forall|j: int| 0 <= j < i - start + 1 implies crate::text::is_ascii_digit(
                #[trigger] d.take(i - start + 1)[j],
            ) by {
                if j < i - start {
                    assert(d.take(i - start + 1)[j] == d.take(i - start)[j]);
                }
            }
        }
        i += 1;
    }
    assert(d.take(v@.len() - start) == d);
    Some(acc)
}

/// The seconds one variable's value names, if it names any.
pub fn exit_secs(value: Option<&str>) -> (r: Option<u64>)
    ensures
        r == exit_secs_spec(
            match value {
                Some(v) => Some(v@),
                None => None,
            },
        ),
{
    match value {
        Some(v) => parse_u64(trim_chars(chars_of(v).as_slice()).as_slice()),
        None => None,
    }
}

/// When a demo quits by itself: after the seconds the shared variable
/// names, else those of the demo's legacy variable; never without either.
pub fn exit_after(shared: Option<&str>, legacy: Option<&str>) -> (r: Option<u64>)
    ensures
        r == exit_after_spec(
            match shared {
                Some(v) => Some(v@),
                None => None,
            },
            match legacy {
                Some(v) => Some(v@),
                None => None,
            },
        ),
{
    match exit_secs(shared) {
        Some(s) => Some(s),
        None => exit_secs(legacy),
    }
}

} // verus!
