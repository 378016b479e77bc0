//! Which Servers row is the engine in use, and the one-line status above the
//! list. The decision starts from what the app was asked to dial, not from
//! the engine's transport: the loopback daemon is reached over a websocket
//! too.
use vstd::prelude::*;
use crate::settings::servers::{ConnectionStatus, ServerEntry, entry_url};
use crate::text::{
    append, chars_eq, chars_of, first_occ, first_occ_exec, first_where, last_index_of,
    last_index_of_exec, lemma_last_index_of, lower_all, lower_chars, occurs_at, owned, slice_of,
    string_of, take_until, trim, trim_chars, lower, is_ascii_upper, is_ws, is_first_where,
    lemma_first_where_found, lemma_first_where_unique, lemma_trim_ends, lemma_trim_fixed,
    lemma_first_occ_unique, is_first_occ, trim_start, trim_end,
};

verus! {

/// The row that carries the Active badge.
#[derive(Debug, Clone, PartialEq, Eq)]
pub enum ActiveRow {
    /// Nothing was dialed: the embedded engine or the loopback daemon.
    Local,
    /// The saved entry the dialed address belongs to.
    Saved(String),
    /// A dialed address no saved entry knows.
    CommandLine(String),
}

/// `host:port`, `[v6]:port`, `host`, `[v6]`, or a bare IPv6 address.
pub open spec fn split_host_port_spec(a: Seq<char>) -> (Seq<char>, Option<Seq<char>>) {
    let end = first_where(a, |x: char| x == ']');
    if a.len() > 0 && a[0] == '[' && end < a.len() {
        let rest = a.skip(end + 1);
        (
            a.take(end + 1),
            if rest.len() > 1 && rest[0] == ':' {
                Some(rest.drop_first())
            } else {
                None
            },
        )
    } else {
        match last_index_of(a, ':') {
            Some(i) => {
                let h = a.take(i);
                let p = a.skip(i + 1);
                if !h.contains(':') && p.len() > 0 {
                    (h, Some(p))
                } else {
                    (a, None)
                }
            },
            None => (a, None),
        }
    }
}

/// `ws://Host:27700/` and `WS://host:27700` name the same engine: the scheme
/// and host lower-cased, the scheme's default port made explicit, a bare
/// trailing slash dropped. A path or query is kept as typed, and `wss://`
/// stays distinct from `ws://`.
pub open spec fn canonical_spec(url: Seq<char>) -> Seq<char> {
    let u = trim(url);
    let scheme = match first_occ(u, "://"@) {
        Some(i) => lower_all(u.take(i)),
        None => "ws"@,
    };
    let rest = match first_occ(u, "://"@) {
        Some(i) => u.skip(i + 3),
        None => u,
    };
    let slash = first_where(rest, |x: char| x == '/');
    let authority = rest.take(slash);
    let path0 = rest.skip(slash);
    let path = if path0 == "/"@ {
        seq![]
    } else {
        path0
    };
    let hp = split_host_port_spec(authority);
    let port = match hp.1 {
        Some(p) => p,
        None => if scheme == "wss"@ {
            "443"@
        } else {
            "80"@
        },
    };
    scheme + "://"@ + lower_all(hp.0) + ":"@ + port + path
}

/// The same form with another port standing for a `ws` address that
/// names none.
pub open spec fn canonical_with(url: Seq<char>, ws_default: Seq<char>) -> Seq<char> {
    let u = trim(url);
    let scheme = match first_occ(u, "://"@) {
        Some(i) => lower_all(u.take(i)),
        None => "ws"@,
    };
    let rest = match first_occ(u, "://"@) {
        Some(i) => u.skip(i + 3),
        None => u,
    };
    let slash = first_where(rest, |x: char| x == '/');
    let authority = rest.take(slash);
    let path0 = rest.skip(slash);
    let path = if path0 == "/"@ {
        seq![]
    } else {
        path0
    };
    let hp = split_host_port_spec(authority);
    let port = match hp.1 {
        Some(p) => p,
        None => if scheme == "wss"@ {
            "443"@
        } else {
            ws_default
        },
    };
    scheme + "://"@ + lower_all(hp.0) + ":"@ + port + path
}

proof fn lemma_canonical_with_80(url: Seq<char>)
    ensures
        canonical_spec(url) == canonical_with(url, "80"@),
{
}

fn split_host_port(a: &[char]) -> (r: (Vec<char>, Option<Vec<char>>))
    ensures
        r.0@ == split_host_port_spec(a@).0,
        r.1 matches Some(p) ==> split_host_port_spec(a@).1 == Some(p@),
        r.1 is None ==> split_host_port_spec(a@).1 is None,
{
    let head = take_until(a, ']');
    let end = head.len();
    if a.len() > 0 && a[0] == '[' && end < a.len() {
        let host = slice_of(a, 0, end + 1);
        let rest = slice_of(a, end + 1, a.len());
        assert(host@ == a@.take(end + 1));
        assert(rest@ == a@.skip(end + 1));
        if rest.len() > 1 && rest[0] == ':' {
            let p = slice_of(rest.as_slice(), 1, rest.len());
            assert(p@ == rest@.drop_first());
            return (host, Some(p));
        }
        return (host, None);
    }
    let whole = slice_of(a, 0, a.len());
    assert(whole@ == a@);
    proof {
        lemma_last_index_of(a@, ':');
    }
    match last_index_of_exec(a, ':') {
        Some(i) => {
            let h = slice_of(a, 0, i);
            let p = slice_of(a, i + 1, a.len());
            assert(h@ == a@.take(i as int));
            assert(p@ == a@.skip(i + 1));
            let has_colon = match last_index_of_exec(h.as_slice(), ':') {
                Some(_) => true,
                None => false,
            };
            proof {
                lemma_last_index_of(h@, ':');
                if has_colon {
                    let j = last_index_of(h@, ':')->0;
                    assert(h@[j] == ':');
                    assert(h@.contains(':'));
                } else {
                    assert(!h@.contains(':'));
                }
            }
            if !has_colon && p.len() > 0 {
                (h, Some(p))
            } else {
                (whole, None)
            }
        },
        None => (whole, None),
    }
}

/// The canonical form, on characters, with `ws_default` for a `ws`
/// address that names no port.
pub fn canonical_chars_with(url: &[char], ws_default: &[char]) -> (r: Vec<char>)
    ensures
        r@ == canonical_with(url@, ws_default@),
{
    let u = trim_chars(url);
    let ulen = u.len();
    let sep = chars_of("://");
    proof {
        reveal_strlit("://");
    }
    let found = first_occ_exec(u.as_slice(), sep.as_slice());
    let (scheme, rest) = match found {
        Some(i) => (lower_chars(slice_of(u.as_slice(), 0, i).as_slice()), slice_of(u.as_slice(), i + 3, u.len())),
        None => (chars_of("ws"), slice_of(u.as_slice(), 0, u.len())),
    };
    assert(u@.subrange(0, u@.len() as int) == u@);
    let authority = take_until(rest.as_slice(), '/');
    let slash = authority.len();
    let mut path = slice_of(rest.as_slice(), slash, rest.len());
    assert(path@ == rest@.skip(slash as int));
    if chars_eq(path.as_slice(), chars_of("/").as_slice()) {
        path = Vec::new();
    }
    let (host, port) = split_host_port(authority.as_slice());
    let port = match port {
        Some(p) => p,
        None => if chars_eq(scheme.as_slice(), chars_of("wss").as_slice()) {
            chars_of("443")
        } else {
            slice_of(ws_default, 0, ws_default.len())
        },
    };
    let mut r = scheme;
    append(&mut r, sep.as_slice());
    append(&mut r, lower_chars(host.as_slice()).as_slice());
    append(&mut r, chars_of(":").as_slice());
    append(&mut r, port.as_slice());
    append(&mut r, path.as_slice());
    r
}

/// The canonical form of an engine address, on characters.
pub fn canonical_chars(url: &[char]) -> (r: Vec<char>)
    ensures
        r@ == canonical_spec(url@),
{
    proof {
        lemma_canonical_with_80(url@);
    }
    canonical_chars_with(url, chars_of("80").as_slice())
}

/// The canonical form of an engine address.
pub fn canonical_url(url: &str) -> (r: String)
    ensures
        r@ == canonical_spec(url@),
{
    string_of(canonical_chars(chars_of(url).as_slice()).as_slice())
}

/// The first saved entry with id `id`.
pub open spec fn entry_by_id(servers: Seq<ServerEntry>, id: Seq<char>) -> Option<int>
    decreases servers.len(),
{
    if servers.len() == 0 {
        None
    } else {
        match entry_by_id(servers.drop_last(), id) {
            Some(i) => Some(i),
            None => if servers.last().id@ == id {
                Some(servers.len() - 1)
            } else {
                None
            },
        }
    }
}

/// The first saved entry at address `wanted` (canonical form).
pub open spec fn entry_at(servers: Seq<ServerEntry>, wanted: Seq<char>) -> Option<int>
    decreases servers.len(),
{
    if servers.len() == 0 {
        None
    } else {
        match entry_at(servers.drop_last(), wanted) {
            Some(i) => Some(i),
            None => if canonical_spec(entry_url(servers.last().host@, servers.last().port))
                == wanted {
                Some(servers.len() - 1)
            } else {
                None
            },
        }
    }
}

/// The entry whose row carries the badge: the chosen one when it is still
/// at the dialed address, else the first entry at that address.
pub open spec fn badge_entry(dialed: Seq<char>, active_id: Option<Seq<char>>, servers: Seq<ServerEntry>) -> Option<int> {
    let wanted = canonical_spec(dialed);
    let chosen = match active_id {
        Some(id) => match entry_by_id(servers, id) {
            Some(i) => if canonical_spec(entry_url(servers[i].host@, servers[i].port)) == wanted {
                Some(i)
            } else {
                None
            },
            None => None,
        },
        None => None,
    };
    match chosen {
        Some(i) => Some(i),
        None => entry_at(servers, wanted),
    }
}

proof fn lemma_take_last<T>(s: Seq<T>, i: int)
    requires
        0 <= i < s.len(),
    ensures
        s.take(i + 1).drop_last() == s.take(i),
        s.take(i + 1).last() == s[i],
{
}

proof fn lemma_entry_by_id_prefix(s: Seq<ServerEntry>, k: int, id: Seq<char>)
    requires
        0 <= k <= s.len(),
        entry_by_id(s.take(k), id) is Some,
    ensures
        entry_by_id(s, id) == entry_by_id(s.take(k), id),
    decreases s.len() - k,
{
    if k < s.len() {
        assert(s.drop_last().take(k) == s.take(k));
        lemma_entry_by_id_prefix(s.drop_last(), k, id);
    } else {
        assert(s.take(k) == s);
    }
}

proof fn lemma_entry_at_prefix(s: Seq<ServerEntry>, k: int, w: Seq<char>)
    requires
        0 <= k <= s.len(),
        entry_at(s.take(k), w) is Some,
    ensures
        entry_at(s, w) == entry_at(s.take(k), w),
    decreases s.len() - k,
{
    if k < s.len() {
        assert(s.drop_last().take(k) == s.take(k));
        lemma_entry_at_prefix(s.drop_last(), k, w);
    } else {
        assert(s.take(k) == s);
    }
}

/// Both searches give a position in the list, and the id search one with
/// that id.
pub proof fn lemma_entry_bounds(s: Seq<ServerEntry>, id: Seq<char>, w: Seq<char>)
    ensures
        entry_by_id(s, id) matches Some(i) ==> 0 <= i < s.len() && s[i].id@ == id,
        entry_at(s, w) matches Some(i) ==> 0 <= i < s.len(),
    decreases s.len(),
{
    if s.len() > 0 {
        lemma_entry_bounds(s.drop_last(), id, w);
    }
}

/// Where the first saved entry with id `id` sits.
pub fn entry_by_id_exec(servers: &[ServerEntry], id: &[char]) -> (r: Option<usize>)
    ensures
        r matches Some(i) ==> entry_by_id(servers@, id@) == Some(i as int),
        r is None ==> entry_by_id(servers@, id@) is None,
{
    let mut i: usize = 0;
    while i < servers.len()
        invariant
            i <= servers@.len(),
            entry_by_id(servers@.take(i as int), id@) is None,
        decreases servers@.len() - i,
    {
        proof {
            lemma_take_last(servers@, i as int);
        }
        if chars_eq(chars_of(servers[i].id.as_str()).as_slice(), id) {
            proof {
                lemma_entry_by_id_prefix(servers@, i + 1, id@);
            }
            return Some(i);
        }
        i += 1;
    }
    assert(servers@.take(servers@.len() as int) == servers@);
    None
}

/// Where the first saved entry at address `wanted` (canonical form) sits.
pub fn entry_at_exec(servers: &[ServerEntry], wanted: &[char]) -> (r: Option<usize>)
    ensures
        r matches Some(i) ==> entry_at(servers@, wanted@) == Some(i as int),
        r is None ==> entry_at(servers@, wanted@) is None,
{
    let mut i: usize = 0;
    while i < servers.len()
        invariant
            i <= servers@.len(),
            entry_at(servers@.take(i as int), wanted@) is None,
        decreases servers@.len() - i,
    {
        proof {
            lemma_take_last(servers@, i as int);
        }
        let here = canonical_chars(chars_of(servers[i].url().as_str()).as_slice());
        if chars_eq(here.as_slice(), wanted) {
            proof {
                lemma_entry_at_prefix(servers@, i + 1, wanted@);
            }
            return Some(i);
        }
        i += 1;
    }
    assert(servers@.take(servers@.len() as int) == servers@);
    None
}

/// Which row is active. `dialed` is the address the app was asked to reach
/// (`None` for the local engine); `active_id` is the saved entry the user
/// picked, which wins over an address match so two entries at the same
/// address badge the one that was chosen.
pub fn active_row(dialed: Option<&str>, active_id: Option<&str>, servers: &[ServerEntry]) -> (r:
    ActiveRow)
    ensures
        dialed is None ==> r == ActiveRow::Local,
        dialed matches Some(d) ==> match badge_entry(
            d@,
            match active_id {
                Some(a) => Some(a@),
                None => None,
            },
            servers@,
        ) {
            Some(i) => r matches ActiveRow::Saved(id) && id@ == servers@[i].id@,
            None => r matches ActiveRow::CommandLine(u) && u@ == d@,
        },
{
    let d = match dialed {
        None => {
            return ActiveRow::Local;
        },
        Some(d) => d,
    };
    let wanted = canonical_chars(chars_of(d).as_slice());
    let ghost aid = match active_id {
        Some(a) => Some(a@),
        None => None::<Seq<char>>,
    };
    proof {
        lemma_entry_bounds(servers@, match aid {
            Some(x) => x,
            None => seq![],
        }, wanted@);
    }
    let chosen: Option<usize> = match active_id {
        Some(id) => match entry_by_id_exec(servers, chars_of(id).as_slice()) {
            Some(i) => {
                let here = canonical_chars(chars_of(servers[i].url().as_str()).as_slice());
                if chars_eq(here.as_slice(), wanted.as_slice()) {
                    Some(i)
                } else {
                    None
                }
            },
            None => None,
        },
        None => None,
    };
    let pick = match chosen {
        Some(i) => Some(i),
        None => entry_at_exec(servers, wanted.as_slice()),
    };
    proof {
        lemma_entry_bounds(servers@, seq![], wanted@);
    }
    match pick {
        Some(i) => ActiveRow::Saved(servers[i].id.clone()),
        None => ActiveRow::CommandLine(owned(d)),
    }
}

/// One line of truth about what the app is talking to right now, and
/// whether it is an error.
pub open spec fn status_spec(connection: ConnectionStatus, active: ActiveRow, servers: Seq<ServerEntry>) -> (Seq<char>, bool) {
    match connection {
        ConnectionStatus::Connecting => ("Connecting\u{2026}"@, false),
        ConnectionStatus::Failed(m) => ("Not connected: "@ + m@, true),
        ConnectionStatus::Ready => match active {
            ActiveRow::Local => ("Using the engine on this computer"@, false),
            ActiveRow::Saved(id) => match entry_by_id(servers, id@) {
                Some(i) => (
                    "Connected to "@ + servers[i].name@ + " ("@ + entry_url(
                        servers[i].host@,
                        servers[i].port,
                    ) + ")"@,
                    false,
                ),
                None => ("Connected to a saved server"@, false),
            },
            ActiveRow::CommandLine(u) => ("Connected to "@ + u@ + " (from --engine)"@, false),
        },
    }
}

/// The status line, and whether it reports an error.
pub fn status_text(connection: &ConnectionStatus, active: &ActiveRow, servers: &[ServerEntry]) -> (r:
    (String, bool))
    ensures
        r.0@ == status_spec(*connection, *active, servers@).0,
        r.1 == status_spec(*connection, *active, servers@).1,
{
    match connection {
        ConnectionStatus::Connecting => (owned("Connecting\u{2026}"), false),
        ConnectionStatus::Failed(message) => {
            let mut v = chars_of("Not connected: ");
            append(&mut v, chars_of(message.as_str()).as_slice());
            (string_of(v.as_slice()), true)
        },
        ConnectionStatus::Ready => match active {
            ActiveRow::Local => (owned("Using the engine on this computer"), false),
            ActiveRow::Saved(id) => {
                proof {
                    lemma_entry_bounds(servers@, id@, seq![]);
                }
                match entry_by_id_exec(servers, chars_of(id.as_str()).as_slice()) {
                    Some(i) => {
                        let e = &servers[i];
                        let mut v = chars_of("Connected to ");
                        append(&mut v, chars_of(e.name.as_str()).as_slice());
                        append(&mut v, chars_of(" (").as_slice());
                        append(&mut v, chars_of(e.url().as_str()).as_slice());
                        append(&mut v, chars_of(")").as_slice());
                        (string_of(v.as_slice()), false)
                    },
                    None => (owned("Connected to a saved server"), false),
                }
            },
            ActiveRow::CommandLine(url) => {
                let mut v = chars_of("Connected to ");
                append(&mut v, chars_of(url.as_str()).as_slice());
                append(&mut v, chars_of(" (from --engine)").as_slice());
                (string_of(v.as_slice()), false)
            },
        },
    }
}

proof fn lemma_lower_char(c: char)
    ensures
        lower(lower(c)) == lower(c),
        is_ws(lower(c)) == is_ws(c),
        (lower(c) == ':') == (c == ':'),
        (lower(c) == '/') == (c == '/'),
        (lower(c) == '[') == (c == '['),
        (lower(c) == ']') == (c == ']'),
{
    if is_ascii_upper(c) {
        let u = (c as u32) + 32;
        assert(97 <= u <= 122);
        assert((u as char) as u32 == u);
    }
}

proof fn lemma_lower_same(c: char, d: char)
    requires
        lower(c) == lower(d),
    ensures
        is_ws(c) == is_ws(d),
        (c == ':') == (d == ':'),
        (c == '/') == (d == '/'),
        (c == '[') == (d == '['),
        (c == ']') == (d == ']'),
{
    lemma_lower_char(c);
    lemma_lower_char(d);
}

proof fn lemma_lower_all_idem(s: Seq<char>)
    ensures
        lower_all(lower_all(s)) == lower_all(s),
{
    assert forall|k: int| 0 <= k < s.len() implies #[trigger] lower_all(lower_all(s))[k] == lower_all(s)[k] by {
        lemma_lower_char(s[k]);
    }
    assert(lower_all(lower_all(s)) =~= lower_all(s));
}

/// The authority of an address as the canonical form reads it: after the
/// scheme's `://`, up to the first `/`.
pub open spec fn authority_of(url: Seq<char>) -> Seq<char> {
    let u = trim(url);
    let rest = match first_occ(u, "://"@) {
        Some(i) => u.skip(i + 3),
        None => u,
    };
    rest.take(first_where(rest, |x: char| x == '/'))
}

/// An authority the canonical form reads back as it wrote it: `[v6]` with
/// or without a port, `host:port`, or a host with no `:` in it.
pub open spec fn plain_authority(a: Seq<char>) -> bool {
    (a.len() > 0 && a[0] == '[' && first_where(a, |x: char| x == ']') < a.len())
        || split_host_port_spec(a).1 is Some || !a.contains(':')
}

/// A typed port that ends in white space and is followed only by a bare
/// `/`: the one place where the canonical form ends in white space, which a
/// second reading trims.
pub open spec fn port_before_bare_slash_ends_in_space(url: Seq<char>) -> bool {
    split_host_port_spec(authority_of(url)).1 matches Some(p) && port_path_of(url).1 == "/"@ && is_ws(
        p.last(),
    )
}

/// What the split of a plain authority gives back, once its host is
/// lower-cased and its port made explicit.
#[verifier::rlimit(40)]
proof fn lemma_split_again(a: Seq<char>, port: Seq<char>)
    requires
        plain_authority(a),
        split_host_port_spec(a).1 is Some ==> port == split_host_port_spec(a).1->0,
        split_host_port_spec(a).1 is None ==> port.len() > 0 && forall|k: int|
            0 <= k < port.len() ==> port[k] != ':' && port[k] != ']',
    ensures
        port.len() > 0,
        split_host_port_spec(lower_all(split_host_port_spec(a).0) + ":"@ + port) == (
            lower_all(split_host_port_spec(a).0),
            Some(port),
        ),
        forall|k: int| 0 <= k < split_host_port_spec(a).0.len() ==> split_host_port_spec(a).0[k] == a[k],
        split_host_port_spec(a).0.len() <= a.len(),
{
    reveal_strlit(":");
    let fb = |x: char| x == ']';
    let hp = split_host_port_spec(a);
    let h = lower_all(hp.0);
    let a2 = h + ":"@ + port;
    lemma_first_where_found(a, fb);
    let e = first_where(a, fb);
    if a.len() > 0 && a[0] == '[' && e < a.len() {
        assert(hp.0 == a.take(e + 1));
        assert(h.len() == e + 1);
        assert forall|k: int| 0 <= k < e implies !fb(#[trigger] a2[k]) by {
            assert(a2[k] == h[k]);
            assert(h[k] == lower(a[k]));
            assert(!fb(a[k]));
            lemma_lower_char(a[k]);
        }
        assert(a2[e] == h[e]);
        assert(h[e] == lower(a[e]));
        lemma_lower_char(a[e]);
        assert(is_first_where(a2, fb, e));
        lemma_first_where_unique(a2, fb, e);
        assert(a2[0] == h[0]);
        assert(h[0] == lower(a[0]));
        lemma_lower_char(a[0]);
        assert(a2.take(e + 1) =~= h);
        let rest = a2.skip(e + 1);
        assert(rest =~= ":"@ + port);
        assert(rest.drop_first() =~= port);
        if hp.1 is Some {
            let r0 = a.skip(e + 1);
            assert(r0.len() > 1);
            assert(port == r0.drop_first());
        }
    } else {
        lemma_last_index_of(a, ':');
        match last_index_of(a, ':') {
            Some(i) => {
                if !a.take(i).contains(':') && a.skip(i + 1).len() > 0 {
                    assert(hp.0 == a.take(i));
                    assert(port == a.skip(i + 1));
                    assert forall|k: int| 0 <= k < port.len() implies port[k] != ':' by {
                        assert(port[k] == a[i + 1 + k]);
                    }
                } else {
                    assert(hp.0 == a);
                    assert(a.contains(':')) by {
                        assert(a[i] == ':');
                    }
                }
            },
            None => {
                assert(hp.0 == a);
                assert(!a.contains(':')) by {
                    if a.contains(':') {
                        let k = choose|k: int| 0 <= k < a.len() && a[k] == ':';
                        assert(a[k] == ':');
                    }
                }
            },
        }
        assert(!hp.0.contains(':')) by {
            if hp.0.contains(':') {
                let k = choose|k: int| 0 <= k < hp.0.len() && hp.0[k] == ':';
                assert(hp.0[k] == a[k]);
            }
        }
        assert(forall|k: int| 0 <= k < port.len() ==> port[k] != ':');
        assert(!h.contains(':')) by {
            if h.contains(':') {
                let k = choose|k: int| 0 <= k < h.len() && h[k] == ':';
                assert(h[k] == lower(hp.0[k]));
                lemma_lower_char(hp.0[k]);
            }
        }
        // The first test fails on the new authority as it did on the old.
        if a2.len() > 0 && a2[0] == '[' {
            if h.len() > 0 {
                assert(a2[0] == h[0]);
                assert(h[0] == lower(hp.0[0]));
                lemma_lower_char(hp.0[0]);
                assert(hp.0[0] == a[0]);
            } else {
                assert(a2[0] == ':');
            }
            assert(a.len() > 0 && a[0] == '[');
            assert(e == a.len());
            assert forall|k: int| 0 <= k < a2.len() implies !fb(#[trigger] a2[k]) by {
                if k < h.len() {
                    assert(a2[k] == h[k]);
                    assert(h[k] == lower(hp.0[k]));
                    lemma_lower_char(hp.0[k]);
                    assert(hp.0[k] == a[k]);
                    assert(!fb(a[k]));
                } else if k > h.len() {
                    assert(a2[k] == port[k - h.len() - 1]);
                    if hp.1 is Some {
                        let i = last_index_of(a, ':')->0;
                        assert(port[k - h.len() - 1] == a[i + 1 + (k - h.len() - 1)]);
                        assert(!fb(a[i + 1 + (k - h.len() - 1)]));
                    }
                } else {
                    assert(a2[k] == ':');
                }
            }
            assert(is_first_where(a2, fb, a2.len() as int));
            lemma_first_where_unique(a2, fb, a2.len() as int);
        }
        // Where the new authority's last ':' falls.
        assert forall|k: int| h.len() < k < a2.len() implies a2[k] != ':' by {
            assert(a2[k] == port[k - h.len() - 1]);
        }
        assert(a2[h.len() as int] == ':');
        lemma_last_index_of(a2, ':');
        assert(last_index_of(a2, ':') == Some(h.len() as int));
        assert(a2.take(h.len() as int) =~= h);
        assert(a2.skip(h.len() as int + 1) =~= port);
    }
}

/// The canonical form of an address whose authority is plain is its own
/// canonical form: normalising twice changes nothing.
#[verifier::rlimit(40)]
pub proof fn law_canonical_url_settles(url: Seq<char>)
    requires
        plain_authority(authority_of(url)),
        !port_before_bare_slash_ends_in_space(url),
    ensures
        canonical_spec(canonical_spec(url)) == canonical_spec(url),
{
    reveal_strlit("://");
    reveal_strlit("ws");
    reveal_strlit("wss");
    reveal_strlit("443");
    reveal_strlit("80");
    reveal_strlit(":");
    reveal_strlit("/");
    let fs = |x: char| x == '/';
    let u = trim(url);
    let sep = "://"@;
    let scheme = match first_occ(u, sep) {
        Some(i) => lower_all(u.take(i)),
        None => "ws"@,
    };
    let rest = match first_occ(u, sep) {
        Some(i) => u.skip(i + 3),
        None => u,
    };
    lemma_first_where_found(rest, fs);
    let slash = first_where(rest, fs);
    let authority = rest.take(slash);
    let path0 = rest.skip(slash);
    let path = if path0 == "/"@ {
        seq![]
    } else {
        path0
    };
    let hp = split_host_port_spec(authority);
    let port = match hp.1 {
        Some(p) => p,
        None => if scheme == "wss"@ {
            "443"@
        } else {
            "80"@
        },
    };
    let host = lower_all(hp.0);
    let v = scheme + sep + host + ":"@ + port + path;
    assert(v == canonical_spec(url));
    lemma_trim_ends(url);
    assert(authority == authority_of(url));
    assert forall|k: int| 0 <= k < authority.len() implies authority[k] != '/' by {
        assert(authority[k] == rest[k]);
    }
    if path0.len() > 0 {
        assert(path0[0] == rest[slash]);
    }
    // The host and port come back from a second split.
    lemma_split_again(authority, port);
    assert forall|k: int| 0 <= k < port.len() implies port[k] != '/' by {
        if hp.1 is Some {
            let fb = |x: char| x == ']';
            lemma_first_where_found(authority, fb);
            let e = first_where(authority, fb);
            if authority.len() > 0 && authority[0] == '[' && e < authority.len() {
                assert(port[k] == authority[e + 2 + k]);
            } else {
                lemma_last_index_of(authority, ':');
                let i = last_index_of(authority, ':')->0;
                assert(port[k] == authority[i + 1 + k]);
            }
        }
    }
    // No white space at either end, so trimming changes nothing.
    if scheme.len() > 0 {
        match first_occ(u, sep) {
            Some(i) => {
                assert(scheme[0] == lower(u[0]));
                lemma_lower_char(u[0]);
            },
            None => {},
        }
        assert(v[0] == scheme[0]);
    } else {
        assert(v[0] == ':');
    }
    if path.len() > 0 {
        assert(v.last() == path.last());
        assert(path.last() == u.last());
    } else {
        assert(v.last() == port.last());
        if hp.1 is Some && path0.len() == 0 {
            // The typed port ends the authority, which ends the address.
            assert(slash == rest.len());
            assert(authority =~= rest);
            let fb = |x: char| x == ']';
            lemma_first_where_found(authority, fb);
            let e = first_where(authority, fb);
            if authority.len() > 0 && authority[0] == '[' && e < authority.len() {
                assert(port.last() == authority.last());
            } else {
                lemma_last_index_of(authority, ':');
                assert(port.last() == authority.last());
            }
            assert(rest.last() == u.last());
        }
    }
    lemma_trim_fixed(v);
    // The scheme is found where it was written.
    let n: int = scheme.len() as int;
    assert(occurs_at(v, sep, n as int)) by {
        assert(v.subrange(n, n + 3) =~= sep);
    }
    match first_occ(u, sep) {
        Some(i) => {
            assert(exists|j: int| is_first_occ(u, sep, j));
            assert(is_first_occ(u, sep, i));
            assert forall|j: int| 0 <= j < n implies !occurs_at(v, sep, j) by {
                if occurs_at(v, sep, j) {
                    assert forall|t: int| 0 <= t < 3 implies u[j + t] == sep[t] by {
                        assert(v[j + t] == v.subrange(j, j + 3)[t]);
                        if j + t < i {
                            assert(v[j + t] == lower(u[j + t]));
                        } else {
                            assert(v[j + t] == sep[j + t - i]);
                            assert(u[j + t] == u.subrange(i, i + 3)[j + t - i]);
                        }
                        lemma_lower_char(u[j + t]);
                    }
                    assert(u.subrange(j, j + 3) =~= sep);
                    assert(occurs_at(u, sep, j));
                }
            }
            lemma_lower_all_idem(u.take(i));
        },
        None => {
            assert(!occurs_at(v, sep, 0)) by {
                assert(v.subrange(0, 3)[0] == 'w');
            }
            assert(!occurs_at(v, sep, 1)) by {
                assert(v.subrange(1, 4)[0] == 's');
            }
            assert(lower_all("ws"@) =~= "ws"@);
        },
    }
    assert(is_first_occ(v, sep, n as int));
    lemma_first_occ_unique(v, sep, n as int);
    assert(v.take(n as int) =~= scheme);
    let rest2 = v.skip(n + 3);
    assert(rest2 =~= host + ":"@ + port + path);
    // The authority ends where the path starts.
    let m: int = (host.len() + 1 + port.len()) as int;
    assert forall|k: int| 0 <= k < m implies !fs(#[trigger] rest2[k]) by {
        if k < host.len() {
            assert(rest2[k] == host[k]);
            assert(host[k] == lower(hp.0[k]));
            lemma_lower_char(hp.0[k]);
            assert(hp.0[k] == authority[k]);
        } else if k > host.len() {
            assert(rest2[k] == port[k - host.len() - 1]);
        }
    }
    if path.len() > 0 {
        assert(rest2[m] == path[0]);
    }
    assert(is_first_where(rest2, fs, m));
    lemma_first_where_unique(rest2, fs, m);
    assert(rest2.take(m) =~= host + ":"@ + port);
    assert(rest2.skip(m) =~= path);
    if path0 == "/"@ {
        assert(path.len() == 0);
        assert(path != "/"@);
    }
    lemma_lower_all_idem(hp.0);
    assert(canonical_spec(v) =~= v);
}

/// What the canonical form keeps as typed: the port written in the
/// address, if any, and the path.
pub open spec fn port_path_of(url: Seq<char>) -> (Option<Seq<char>>, Seq<char>) {
    let u = trim(url);
    let rest = match first_occ(u, "://"@) {
        Some(i) => u.skip(i + 3),
        None => u,
    };
    let slash = first_where(rest, |x: char| x == '/');
    (split_host_port_spec(rest.take(slash)).1, rest.skip(slash))
}

/// Two texts that differ at most in the case of ASCII letters.
pub open spec fn same_but_case(x: Seq<char>, y: Seq<char>) -> bool {
    lower_all(x) == lower_all(y)
}

proof fn lemma_same_but_case_at(x: Seq<char>, y: Seq<char>)
    requires
        same_but_case(x, y),
    ensures
        x.len() == y.len(),
        forall|k: int| 0 <= k < x.len() ==> lower(#[trigger] x[k]) == lower(y[k]),
{
    assert(lower_all(x).len() == lower_all(y).len());
    assert forall|k: int| 0 <= k < x.len() implies lower(#[trigger] x[k]) == lower(y[k]) by {
        assert(lower_all(x)[k] == lower_all(y)[k]);
    }
}

proof fn lemma_same_but_case_from(x: Seq<char>, y: Seq<char>)
    requires
        x.len() == y.len(),
        forall|k: int| 0 <= k < x.len() ==> lower(#[trigger] x[k]) == lower(y[k]),
    ensures
        same_but_case(x, y),
{
    assert(lower_all(x) =~= lower_all(y));
}

proof fn lemma_same_but_case_sub(x: Seq<char>, y: Seq<char>, i: int, j: int)
    requires
        same_but_case(x, y),
        0 <= i <= j <= x.len(),
    ensures
        same_but_case(x.subrange(i, j), y.subrange(i, j)),
{
    lemma_same_but_case_at(x, y);
    lemma_same_but_case_from(x.subrange(i, j), y.subrange(i, j));
}

proof fn lemma_trim_same_but_case(x: Seq<char>, y: Seq<char>)
    requires
        same_but_case(x, y),
    ensures
        same_but_case(trim(x), trim(y)),
{
    lemma_trim_start_case(x, y);
    lemma_trim_end_case(trim_start(x), trim_start(y));
}

proof fn lemma_trim_start_case(x: Seq<char>, y: Seq<char>)
    requires
        same_but_case(x, y),
    ensures
        same_but_case(trim_start(x), trim_start(y)),
    decreases x.len(),
{
    lemma_same_but_case_at(x, y);
    if x.len() > 0 {
        lemma_lower_same(x[0], y[0]);
        if is_ws(x[0]) {
            lemma_same_but_case_sub(x, y, 1, x.len() as int);
            assert(x.drop_first() == x.subrange(1, x.len() as int));
            assert(y.drop_first() == y.subrange(1, y.len() as int));
            lemma_trim_start_case(x.drop_first(), y.drop_first());
        }
    }
}

proof fn lemma_trim_end_case(x: Seq<char>, y: Seq<char>)
    requires
        same_but_case(x, y),
    ensures
        same_but_case(trim_end(x), trim_end(y)),
    decreases x.len(),
{
    lemma_same_but_case_at(x, y);
    if x.len() > 0 {
        lemma_lower_same(x[x.len() - 1], y[y.len() - 1]);
        if is_ws(x.last()) {
            lemma_same_but_case_sub(x, y, 0, x.len() - 1);
            assert(x.drop_last() == x.subrange(0, x.len() - 1));
            assert(y.drop_last() == y.subrange(0, y.len() - 1));
            lemma_trim_end_case(x.drop_last(), y.drop_last());
        }
    }
}

proof fn lemma_occurs_case(x: Seq<char>, y: Seq<char>, j: int)
    requires
        same_but_case(x, y),
    ensures
        occurs_at(x, "://"@, j) == occurs_at(y, "://"@, j),
{
    reveal_strlit("://");
    lemma_same_but_case_at(x, y);
    if 0 <= j && j + 3 <= x.len() {
        lemma_lower_same(x[j], y[j]);
        lemma_lower_same(x[j + 1], y[j + 1]);
        lemma_lower_same(x[j + 2], y[j + 2]);
        if occurs_at(x, "://"@, j) {
            assert(x.subrange(j, j + 3)[0] == x[j]);
            assert(x.subrange(j, j + 3)[1] == x[j + 1]);
            assert(x.subrange(j, j + 3)[2] == x[j + 2]);
            assert(y.subrange(j, j + 3) =~= "://"@);
        }
        if occurs_at(y, "://"@, j) {
            assert(y.subrange(j, j + 3)[0] == y[j]);
            assert(y.subrange(j, j + 3)[1] == y[j + 1]);
            assert(y.subrange(j, j + 3)[2] == y[j + 2]);
            assert(x.subrange(j, j + 3) =~= "://"@);
        }
    }
}

proof fn lemma_first_occ_case(x: Seq<char>, y: Seq<char>)
    requires
        same_but_case(x, y),
    ensures
        first_occ(x, "://"@) == first_occ(y, "://"@),
{
    let sep = "://"@;
    assert forall|j: int| occurs_at(x, sep, j) == occurs_at(y, sep, j) by {
        lemma_occurs_case(x, y, j);
    }
    assert forall|j: int| is_first_occ(x, sep, j) == is_first_occ(y, sep, j) by {
        if is_first_occ(x, sep, j) {
            assert forall|k: int| 0 <= k < j implies !occurs_at(y, sep, k) by {
                assert(!occurs_at(x, sep, k));
            }
        }
        if is_first_occ(y, sep, j) {
            assert forall|k: int| 0 <= k < j implies !occurs_at(x, sep, k) by {
                assert(!occurs_at(y, sep, k));
            }
        }
    }
    if exists|j: int| is_first_occ(x, sep, j) {
        let j = choose|j: int| is_first_occ(x, sep, j);
        lemma_first_occ_unique(x, sep, j);
        lemma_first_occ_unique(y, sep, j);
    } else {
        if exists|j: int| is_first_occ(y, sep, j) {
            let j = choose|j: int| is_first_occ(y, sep, j);
            assert(is_first_occ(x, sep, j));
        }
    }
}

proof fn lemma_first_where_case(x: Seq<char>, y: Seq<char>, c: char)
    requires
        same_but_case(x, y),
        c == '/' || c == ']',
    ensures
        first_where(x, |z: char| z == c) == first_where(y, |z: char| z == c),
{
    let f = |z: char| z == c;
    lemma_same_but_case_at(x, y);
    lemma_first_where_found(x, f);
    let i = first_where(x, f);
    assert forall|k: int| 0 <= k < i implies !f(#[trigger] y[k]) by {
        assert(!f(x[k]));
        lemma_lower_same(x[k], y[k]);
    }
    if i < x.len() {
        lemma_lower_same(x[i], y[i]);
    }
    assert(is_first_where(y, f, i));
    lemma_first_where_unique(y, f, i);
}

proof fn lemma_last_colon_case(x: Seq<char>, y: Seq<char>)
    requires
        same_but_case(x, y),
    ensures
        last_index_of(x, ':') == last_index_of(y, ':'),
        x.contains(':') == y.contains(':'),
    decreases x.len(),
{
    lemma_same_but_case_at(x, y);
    if x.len() > 0 {
        lemma_same_but_case_sub(x, y, 0, x.len() - 1);
        assert(x.drop_last() == x.subrange(0, x.len() - 1));
        assert(y.drop_last() == y.subrange(0, y.len() - 1));
        lemma_last_colon_case(x.drop_last(), y.drop_last());
        lemma_lower_same(x[x.len() - 1], y[y.len() - 1]);
        if x.contains(':') {
            let k = choose|k: int| 0 <= k < x.len() && x[k] == ':';
            lemma_lower_same(x[k], y[k]);
            assert(y[k] == ':');
        }
        if y.contains(':') {
            let k = choose|k: int| 0 <= k < y.len() && y[k] == ':';
            lemma_lower_same(x[k], y[k]);
            assert(x[k] == ':');
        }
    } else {
        assert(!x.contains(':'));
        assert(!y.contains(':'));
    }
}

proof fn lemma_split_case(x: Seq<char>, y: Seq<char>)
    requires
        same_but_case(x, y),
        split_host_port_spec(x).1 == split_host_port_spec(y).1,
    ensures
        lower_all(split_host_port_spec(x).0) == lower_all(split_host_port_spec(y).0),
{
    let fb = |z: char| z == ']';
    lemma_same_but_case_at(x, y);
    lemma_first_where_case(x, y, ']');
    lemma_first_where_found(x, fb);
    let e = first_where(x, fb);
    if x.len() > 0 {
        lemma_lower_same(x[0], y[0]);
    }
    lemma_last_colon_case(x, y);
    if x.len() > 0 && x[0] == '[' && e < x.len() {
        lemma_lower_same(x[0], y[0]);
        lemma_same_but_case_sub(x, y, 0, e + 1);
    } else {
        match last_index_of(x, ':') {
            Some(i) => {
                lemma_last_index_of(x, ':');
                lemma_same_but_case_sub(x, y, 0, i);
                lemma_last_colon_case(x.take(i), y.take(i));
                lemma_same_but_case_sub(x, y, i + 1, x.len() as int);
            },
            None => {},
        }
        assert(x.subrange(0, x.len() as int) == x);
    }
}

/// The case of an address's scheme and host does not matter: two addresses
/// that differ only there (their typed port and path the same) have one
/// canonical form.
#[verifier::rlimit(40)]
pub proof fn law_canonical_url_ignores_case(url: Seq<char>, other: Seq<char>)
    requires
        same_but_case(url, other),
        port_path_of(url) == port_path_of(other),
    ensures
        canonical_spec(url) == canonical_spec(other),
{
    let sep = "://"@;
    let fs = |z: char| z == '/';
    let u = trim(url);
    let w = trim(other);
    lemma_trim_same_but_case(url, other);
    lemma_same_but_case_at(u, w);
    lemma_first_occ_case(u, w);
    let (ru, rw) = match first_occ(u, sep) {
        Some(i) => {
            reveal_strlit("://");
            assert(exists|j: int| is_first_occ(u, sep, j));
            assert(is_first_occ(u, sep, i));
            assert(i + 3 <= u.len());
            lemma_same_but_case_sub(u, w, 0, i);
            lemma_lower_all_idem(u.take(i));
            lemma_same_but_case_sub(u, w, i + 3, u.len() as int);
            (u.skip(i + 3), w.skip(i + 3))
        },
        None => {
            assert(u.subrange(0, u.len() as int) == u);
            assert(w.subrange(0, w.len() as int) == w);
            (u, w)
        },
    };
    assert(same_but_case(ru, rw)) by {
        match first_occ(u, sep) {
            Some(i) => {
                assert(ru == u.subrange(i + 3, u.len() as int));
                assert(rw == w.subrange(i + 3, w.len() as int));
            },
            None => {
                lemma_same_but_case_sub(u, w, 0, u.len() as int);
            },
        }
    }
    lemma_same_but_case_at(ru, rw);
    lemma_first_where_case(ru, rw, '/');
    let slash = first_where(ru, fs);
    lemma_first_where_found(ru, fs);
    lemma_same_but_case_sub(ru, rw, 0, slash);
    assert(ru.take(slash) == ru.subrange(0, slash));
    assert(rw.take(slash) == rw.subrange(0, slash));
    lemma_split_case(ru.take(slash), rw.take(slash));
}

} // verus!
