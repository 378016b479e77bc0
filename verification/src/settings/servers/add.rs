//! The Add server dialog's parser: four text fields become a saved entry,
//! and the entry Save makes of an engine that came from the command line.
use vstd::prelude::*;
use crate::settings::servers::{DEFAULT_PORT, RemoteEngineTarget, ServerEntry, entry_url};
use crate::settings::servers::active::{
    badge_entry, canonical_chars, canonical_chars_with, canonical_spec, canonical_with, entry_at,
};
use crate::text::{
    all_digits, append, chars_eq, chars_of, is_ascii_digit, last_index_of, last_index_of_exec,
    lemma_last_index_of, owned, parse_u16, parse_u16_spec, slice_of, starts_with,
    starts_with_exec, string_of, trim, trim_chars, decimal, decimal_chars,
};

verus! {

/// What `format!("{s:?}")` writes for a string: the text quoted, with the
/// escapes of `str`'s `Debug`.
pub uninterp spec fn debug_text(s: Seq<char>) -> Seq<char>;

/// `s` without the leading `p`, as `str::strip_prefix(p).unwrap_or(s)`.
pub open spec fn strip_scheme(s: Seq<char>, p: Seq<char>) -> Seq<char> {
    if starts_with(s, p) {
        s.skip(p.len() as int)
    } else {
        s
    }
}

/// The host field with `ws://`, `wss://`, `http://` and `https://` taken
/// off in that order, each at most once.
pub open spec fn without_schemes(s: Seq<char>) -> Seq<char> {
    strip_scheme(
        strip_scheme(strip_scheme(strip_scheme(s, "ws://"@), "wss://"@), "http://"@),
        "https://"@,
    )
}

/// `str::trim_end_matches('/')`.
pub open spec fn trim_end_slashes(s: Seq<char>) -> Seq<char>
    decreases s.len(),
{
    if s.len() > 0 && s.last() == '/' {
        trim_end_slashes(s.drop_last())
    } else {
        s
    }
}

/// A host that ends in `:digits` carries its port, unless what is before
/// that colon holds another one (a bare IPv6 address).
pub open spec fn inline_port_split(h: Seq<char>) -> (Seq<char>, Option<Seq<char>>) {
    match last_index_of(h, ':') {
        Some(i) => {
            let a = h.take(i);
            let p = h.skip(i + 1);
            if p.len() > 0 && all_digits(p) && !a.contains(':') {
                (a, Some(p))
            } else {
                (h, None)
            }
        },
        None => (h, None),
    }
}

/// The host the dialog saves, and the port it carried inline.
pub open spec fn host_field(host: Seq<char>) -> (Seq<char>, Option<Seq<char>>) {
    inline_port_split(trim_end_slashes(without_schemes(trim(host))))
}

pub open spec fn host_required_message() -> Seq<char> {
    "Host is required (an IP address or a name your network resolves)."@
}

pub open spec fn bad_port_message(given: Seq<char>) -> Seq<char> {
    "Port "@ + debug_text(given) + " is not a number between 1 and 65535."@
}

/// A lower-case hyphenated version 4 UUID, as `Uuid::new_v4().to_string()`
/// writes one.
pub open spec fn is_uuid_v4_text(s: Seq<char>) -> bool {
    &&& s.len() == 36
    &&& forall|i: int|
        0 <= i < 36 ==> if i == 8 || i == 13 || i == 18 || i == 23 {
            #[trigger] s[i] == '-'
        } else {
            is_ascii_digit(s[i]) || ('a' <= s[i] && s[i] <= 'f')
        }
    &&& s[14] == '4'
    &&& (s[19] == '8' || s[19] == '9' || s[19] == 'a' || s[19] == 'b')
}

/// The entry the dialog makes of its four fields, its id aside: `(name,
/// host, port, token)`, or the message that refuses them.
pub open spec fn parse_server_spec(name: Seq<char>, host: Seq<char>, port: Seq<char>, token: Seq<char>) -> Result<
    (Seq<char>, Seq<char>, u16, Option<Seq<char>>),
    Seq<char>,
> {
    let (h, inline) = host_field(host);
    let port_text = if trim(port).len() == 0 {
        inline
    } else {
        Some(trim(port))
    };
    let n = if trim(name).len() == 0 {
        h
    } else {
        trim(name)
    };
    let t = if trim(token).len() == 0 {
        None
    } else {
        Some(trim(token))
    };
    if h.len() == 0 {
        Err(host_required_message())
    } else {
        match port_text {
            None => Ok((n, h, DEFAULT_PORT, t)),
            Some(g) => match parse_u16_spec(g) {
                Some(p) => if p > 0 {
                    Ok((n, h, p, t))
                } else {
                    Err(bad_port_message(g))
                },
                None => Err(bad_port_message(g)),
            },
        }
    }
}

/// `uuid::Uuid::new_v4` written out with `to_string`. The crate draws the
/// bits at random and then fixes the version and variant nibbles; its
/// `Display` writes the lower-case hyphenated form. So the text is 36
/// characters of lower-case hex with hyphens at 8, 13, 18 and 23, a `4` at
/// 14 and one of `89ab` at 19; which id comes out is left open.
#[verifier::external_body]
fn new_server_id() -> (r: String)
    ensures
        is_uuid_v4_text(r@),
{
    uuid::Uuid::new_v4().to_string()
}

/// `format!("{s:?}")`: `str`'s `Debug`, the text quoted and escaped. The
/// result is named, not spelled out: the escapes follow Unicode tables.
#[verifier::external_body]
fn debug_quoted(s: &[char]) -> (r: String)
    ensures
        r@ == debug_text(s@),
{
    let text: String = s.iter().collect();
    format!("{text:?}")
}

fn strip_scheme_chars(v: &[char], p: &str) -> (r: Vec<char>)
    ensures
        r@ == strip_scheme(v@, p@),
{
    let pc = chars_of(p);
    if starts_with_exec(v, pc.as_slice()) {
        slice_of(v, pc.len(), v.len())
    } else {
        let r = slice_of(v, 0, v.len());
        assert(r@ == v@);
        r
    }
}

proof fn lemma_trim_end_slashes_take(s: Seq<char>, i: int)
    requires
        0 <= i <= s.len(),
        forall|j: int| i <= j < s.len() ==> #[trigger] s[j] == '/',
    ensures
        trim_end_slashes(s) == trim_end_slashes(s.take(i)),
    decreases s.len() - i,
{
    if i < s.len() {
        lemma_trim_end_slashes_take(s.drop_last(), i);
        assert(s.drop_last().take(i) == s.take(i));
    } else {
        assert(s.take(i) == s);
    }
}

pub fn trim_end_slashes_chars(v: &[char]) -> (r: Vec<char>)
    ensures
        r@ == trim_end_slashes(v@),
{
    let mut i: usize = v.len();
    while i > 0 && v[i - 1] == '/'
        invariant
            i <= v@.len(),
            forall|j: int| i <= j < v@.len() ==> #[trigger] v@[j] == '/',
        decreases i,
    {
        i -= 1;
    }
    proof {
        lemma_trim_end_slashes_take(v@, i as int);
        let t = v@.take(i as int);
        if t.len() > 0 {
            assert(t.last() == v@[i - 1]);
        }
    }
    slice_of(v, 0, i)
}

fn all_digits_exec(v: &[char]) -> (r: bool)
    ensures
        r == all_digits(v@),
{
    let mut i: usize = 0;
    while i < v.len()
        invariant
            i <= v@.len(),
            forall|j: int| 0 <= j < i ==> is_ascii_digit(#[trigger] v@[j]),
        decreases v@.len() - i,
    {
        if !('0' <= v[i] && v[i] <= '9') {
            return false;
        }
        i += 1;
    }
    true
}

fn inline_port_split_chars(h: &[char]) -> (r: (Vec<char>, Option<Vec<char>>))
    ensures
        r.0@ == inline_port_split(h@).0,
        r.1 matches Some(p) ==> inline_port_split(h@).1 == Some(p@),
        r.1 is None ==> inline_port_split(h@).1 is None,
{
    let whole = slice_of(h, 0, h.len());
    assert(whole@ == h@);
    proof {
        lemma_last_index_of(h@, ':');
    }
    match last_index_of_exec(h, ':') {
        Some(i) => {
            let a = slice_of(h, 0, i);
            let p = slice_of(h, i + 1, h.len());
            assert(a@ == h@.take(i as int));
            assert(p@ == h@.skip(i + 1));
            let has_colon = match last_index_of_exec(a.as_slice(), ':') {
                Some(_) => true,
                None => false,
            };
            proof {
                lemma_last_index_of(a@, ':');
                if has_colon {
                    let j = last_index_of(a@, ':')->0;
                    assert(a@[j] == ':');
                    assert(a@.contains(':'));
                } else {
                    assert(!a@.contains(':'));
                }
            }
            if p.len() > 0 && all_digits_exec(p.as_slice()) && !has_colon {
                (a, Some(p))
            } else {
                (whole, None)
            }
        },
        None => (whole, None),
    }
}

/// Build a server row from the dialog's raw text: `host` may carry
/// `ws://` and `:port`; the port field wins when both are given; an empty
/// name falls back to the host; a blank token is none.
pub fn parse_server(name: &str, host: &str, port: &str, token: &str) -> (r: Result<ServerEntry, String>)
    ensures
        match parse_server_spec(name@, host@, port@, token@) {
            Ok((n, h, p, t)) => r matches Ok(e) && e.name@ == n && e.host@ == h && e.port == p && (
            match t {
                Some(t) => e.token matches Some(et) && et@ == t,
                None => e.token is None,
            }) && is_uuid_v4_text(e.id@),
            Err(m) => r matches Err(rm) && rm@ == m,
        },
{
    let h0 = trim_chars(chars_of(host).as_slice());
    let h1 = strip_scheme_chars(h0.as_slice(), "ws://");
    let h2 = strip_scheme_chars(h1.as_slice(), "wss://");
    let h3 = strip_scheme_chars(h2.as_slice(), "http://");
    let h4 = strip_scheme_chars(h3.as_slice(), "https://");
    let h5 = trim_end_slashes_chars(h4.as_slice());
    let (h, inline) = inline_port_split_chars(h5.as_slice());
    if h.len() == 0 {
        return Err(owned("Host is required (an IP address or a name your network resolves)."));
    }
    let given = trim_chars(chars_of(port).as_slice());
    let port_text = if given.len() == 0 {
        inline
    } else {
        Some(given)
    };
    let port_value: u16 = match port_text {
        None => DEFAULT_PORT,
        Some(g) => {
            let parsed = parse_u16(g.as_slice());
            match parsed {
                Some(p) => {
                    if p > 0 {
                        p
                    } else {
                        let mut m = chars_of("Port ");
                        append(&mut m, chars_of(debug_quoted(g.as_slice()).as_str()).as_slice());
                        append(&mut m, chars_of(" is not a number between 1 and 65535.").as_slice());
                        return Err(string_of(m.as_slice()));
                    }
                },
                None => {
                    let mut m = chars_of("Port ");
                    append(&mut m, chars_of(debug_quoted(g.as_slice()).as_str()).as_slice());
                    append(&mut m, chars_of(" is not a number between 1 and 65535.").as_slice());
                    return Err(string_of(m.as_slice()));
                },
            }
        },
    };
    let n = trim_chars(chars_of(name).as_slice());
    let entry_name = if n.len() == 0 {
        string_of(h.as_slice())
    } else {
        string_of(n.as_slice())
    };
    let t = trim_chars(chars_of(token).as_slice());
    let entry_token = if t.len() == 0 {
        None
    } else {
        Some(string_of(t.as_slice()))
    };
    Ok(
        ServerEntry {
            id: new_server_id(),
            name: entry_name,
            host: string_of(h.as_slice()),
            port: port_value,
            token: entry_token,
        },
    )
}

/// The text an absent field reads as.
pub open spec fn field_text(s: Option<String>) -> Seq<char> {
    match s {
        Some(s) => s@,
        None => seq![],
    }
}

pub open spec fn refused_message(dialed: Seq<char>, saved: Seq<char>) -> Seq<char> {
    dialed + " would be saved as "@ + saved + "; add it by hand instead."@
}

/// Where an engine address reaches: its canonical form, with the engine's
/// own port standing for a `ws` address that names none (the entry saved
/// for `ws://host` is `host` at the default port).
pub open spec fn engine_address(url: Seq<char>) -> Seq<char> {
    canonical_with(url, decimal(DEFAULT_PORT as nat))
}

/// The saved entry for an engine that came from the command line. Refused
/// when the entry would not sit at the dialed engine's address: a path in
/// the url (an entry keeps host and port only), or a scheme other than
/// `ws`. A `ws` address that names no port is saved at the default port.
pub fn entry_for_target(target: &RemoteEngineTarget) -> (r: Result<ServerEntry, String>)
    ensures
        match parse_server_spec(
            field_text(target.name),
            target.url@,
            seq![],
            field_text(target.token),
        ) {
            Err(m) => r matches Err(rm) && rm@ == m,
            Ok((n, h, p, t)) => {
                let saved = canonical_spec(entry_url(h, p));
                let dialed = canonical_spec(target.url@);
                if engine_address(entry_url(h, p)) != engine_address(target.url@) {
                    r matches Err(rm) && rm@ == refused_message(dialed, saved)
                } else {
                    r matches Ok(e) && e.name@ == n && e.host@ == h && e.port == p && (match t {
                        Some(t) => e.token matches Some(et) && et@ == t,
                        None => e.token is None,
                    }) && is_uuid_v4_text(e.id@)
                }
            },
        },
{
    let empty = owned("");
    let name: &str = match &target.name {
        Some(n) => n.as_str(),
        None => empty.as_str(),
    };
    let token: &str = match &target.token {
        Some(t) => t.as_str(),
        None => empty.as_str(),
    };
    proof {
        reveal_strlit("");
    }
    let entry = match parse_server(name, target.url.as_str(), "", token) {
        Ok(e) => e,
        Err(m) => {
            return Err(m);
        },
    };
    let engine_port = decimal_chars(DEFAULT_PORT as u64);
    let saved_at = canonical_chars_with(chars_of(entry.url().as_str()).as_slice(), engine_port.as_slice());
    let dialed_at = canonical_chars_with(chars_of(target.url.as_str()).as_slice(), engine_port.as_slice());
    if !chars_eq(saved_at.as_slice(), dialed_at.as_slice()) {
        let saved = canonical_chars(chars_of(entry.url().as_str()).as_slice());
        let dialed = canonical_chars(chars_of(target.url.as_str()).as_slice());
        let mut m = dialed;
        append(&mut m, chars_of(" would be saved as ").as_slice());
        append(&mut m, saved.as_slice());
        append(&mut m, chars_of("; add it by hand instead.").as_slice());
        return Err(string_of(m.as_slice()));
    }
    Ok(entry)
}

proof fn lemma_entry_at_finds(servers: Seq<ServerEntry>, wanted: Seq<char>, k: int)
    requires
        0 <= k < servers.len(),
        canonical_spec(entry_url(servers[k].host@, servers[k].port)) == wanted,
    ensures
        entry_at(servers, wanted) is Some,
    decreases servers.len(),
{
    if k < servers.len() - 1 {
        assert(servers.drop_last()[k] == servers[k]);
        lemma_entry_at_finds(servers.drop_last(), wanted, k);
    }
}

/// An engine saved at the address that was dialed is found again by it:
/// once an entry at that address is in the list, the address's row is a
/// saved one, never the command line's, whichever entry was picked before.
pub proof fn law_saved_entry_is_found_again(
    dialed: Seq<char>,
    active_id: Option<Seq<char>>,
    servers: Seq<ServerEntry>,
    k: int,
)
    requires
        0 <= k < servers.len(),
        canonical_spec(entry_url(servers[k].host@, servers[k].port)) == canonical_spec(dialed),
    ensures
        badge_entry(dialed, active_id, servers) is Some,
{
    lemma_entry_at_finds(servers, canonical_spec(dialed), k);
}

} // verus!
