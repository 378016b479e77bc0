//! Folder paths belong to the browsed device, which may use another OS.
use vstd::prelude::*;
use crate::text::{
    chars_of, is_ascii_alpha, is_ascii_alpha_exec, lower_all, lower_chars, chars_eq, slice_of,
    split_any, split_any_exec, starts_with, string_of, append, last_index_of,
};

verus! {

/// A drive letter and a colon, `E:`.
pub open spec fn is_drive(p: Seq<char>) -> bool {
    p.len() == 2 && is_ascii_alpha(p[0]) && p[1] == ':'
}

pub open spec fn is_sep(c: char) -> bool {
    c == '\\' || c == '/'
}

/// A Windows path: it starts with a drive (`E:`) or is a UNC path (`\\`).
pub open spec fn windows_path(p: Seq<char>) -> bool {
    (p.len() >= 2 && is_ascii_alpha(p[0]) && p[1] == ':') || starts_with(p, seq!['\\', '\\'])
}

/// The non-empty parts of a path, split at either separator.
pub open spec fn path_parts(p: Seq<char>) -> Seq<Seq<char>> {
    split_any(p, '\\', '/').filter(|part: Seq<char>| part.len() > 0)
}

/// `parts` joined by `sep`.
pub open spec fn join(parts: Seq<Seq<char>>, sep: char) -> Seq<char>
    decreases parts.len(),
{
    if parts.len() == 0 {
        seq![]
    } else if parts.len() == 1 {
        parts[0]
    } else {
        join(parts.drop_last(), sep).push(sep) + parts.last()
    }
}

/// What a Windows path starts with: `\\` for a UNC path, `\` for a rooted
/// one, nothing for a relative or drive path.
pub open spec fn windows_prefix(p: Seq<char>) -> Seq<char> {
    if starts_with(p, seq!['\\', '\\']) || starts_with(p, seq!['/', '/']) {
        seq!['\\', '\\']
    } else if p.len() > 0 && is_sep(p[0]) {
        seq!['\\']
    } else {
        seq![]
    }
}

/// A Windows path with one native separator between parts. A drive root
/// stays absolute (`E:\`), including when the picker confirms it.
pub open spec fn windows_separators(p: Seq<char>) -> Seq<char> {
    let parts = path_parts(p);
    let base = windows_prefix(p) + join(parts, '\\');
    if parts.len() > 0 && is_drive(parts.last()) && (p.contains('\\') || p.contains('/')) {
        base.push('\\')
    } else {
        base
    }
}

/// `str::eq_ignore_ascii_case`.
pub open spec fn eq_ignore_ascii_case(a: Seq<char>, b: Seq<char>) -> bool {
    lower_all(a) == lower_all(b)
}

pub open spec fn is_windows(platform: Seq<char>) -> bool {
    eq_ignore_ascii_case(platform, seq!['w', 'i', 'n', 'd', 'o', 'w', 's'])
}

/// A separator on a device of the given kind: `/` everywhere, `\` on Windows.
pub open spec fn device_sep(c: char, windows: bool) -> bool {
    c == '/' || (windows && c == '\\')
}

/// `str::trim_end_matches` of the device's separators.
pub open spec fn trim_end_seps(p: Seq<char>, windows: bool) -> Seq<char>
    decreases p.len(),
{
    if p.len() > 0 && device_sep(p.last(), windows) {
        trim_end_seps(p.drop_last(), windows)
    } else {
        p
    }
}

/// The part after the last device separator.
pub open spec fn last_part(p: Seq<char>, windows: bool) -> Seq<char>
    decreases p.len(),
{
    if p.len() == 0 {
        p
    } else if device_sep(p.last(), windows) {
        seq![]
    } else {
        last_part(p.drop_last(), windows).push(p.last())
    }
}

/// `str::trim_end_matches('\\')`.
pub open spec fn trim_end_backslashes(p: Seq<char>) -> Seq<char>
    decreases p.len(),
{
    if p.len() > 0 && p.last() == '\\' {
        trim_end_backslashes(p.drop_last())
    } else {
        p
    }
}

/// Normalize at the project-creation boundary using the selected device's
/// OS. A Unix filename may contain a literal backslash, so Unix paths are
/// left alone.
pub open spec fn normalize_spec(p: Seq<char>, platform: Seq<char>) -> Seq<char> {
    if is_windows(platform) {
        windows_separators(p)
    } else {
        p
    }
}

/// The folder's own name, from the device's separators; a root keeps the
/// whole path.
pub open spec fn project_name_spec(p: Seq<char>, platform: Seq<char>) -> Seq<char> {
    let w = is_windows(platform);
    let t = trim_end_seps(p, w);
    if t.len() == 0 || (w && t.last() == ':') {
        p
    } else {
        last_part(t, w)
    }
}

/// An engine listing's folder joined with a name, in the listing's own
/// separators rather than the client's.
pub open spec fn child_path_spec(base: Seq<char>, name: Seq<char>) -> Seq<char> {
    if windows_path(base) {
        trim_end_backslashes(windows_separators(base)).push('\\') + name
    } else if base.len() > 0 && base.last() == '/' {
        base + name
    } else {
        base.push('/') + name
    }
}

fn windows_path_exec(p: &[char]) -> (r: bool)
    ensures
        r == windows_path(p@),
{
    let drive = p.len() >= 2 && is_ascii_alpha_exec(p[0]) && p[1] == ':';
    let unc = p.len() >= 2 && p[0] == '\\' && p[1] == '\\';
    proof {
        if p@.len() >= 2 {
            assert(starts_with(p@, seq!['\\', '\\']) == (p@[0] == '\\' && p@[1] == '\\')) by {
                if p@[0] == '\\' && p@[1] == '\\' {
                    assert(p@.take(2) =~= seq!['\\', '\\']);
                }
                if starts_with(p@, seq!['\\', '\\']) {
                    assert(p@.take(2)[0] == p@[0]);
                    assert(p@.take(2)[1] == p@[1]);
                }
            }
        }
    }
    drive || unc
}

fn prefix2(p: &[char], a: char, b: char) -> (r: bool)
    ensures
        r == starts_with(p@, seq![a, b]),
{
    let r = p.len() >= 2 && p[0] == a && p[1] == b;
    proof {
        if p@.len() >= 2 {
            if p@[0] == a && p@[1] == b {
                assert(p@.take(2) =~= seq![a, b]);
            }
            if starts_with(p@, seq![a, b]) {
                assert(p@.take(2)[0] == p@[0]);
                assert(p@.take(2)[1] == p@[1]);
            }
        }
    }
    r
}

proof fn lemma_filter_take_step(s: Seq<Seq<char>>, i: int)
    requires
        0 <= i < s.len(),
    ensures
        s.take(i + 1).filter(|part: Seq<char>| part.len() > 0) == if s[i].len() > 0 {
            s.take(i).filter(|part: Seq<char>| part.len() > 0).push(s[i])
        } else {
            s.take(i).filter(|part: Seq<char>| part.len() > 0)
        },
{
    assert(s.take(i + 1).drop_last() == s.take(i));
    assert(s.take(i + 1).last() == s[i]);
    reveal_with_fuel(Seq::filter, 1);
}

/// The non-empty parts of a path.
fn path_parts_exec(p: &[char]) -> (r: Vec<Vec<char>>)
    ensures
        r@.len() == path_parts(p@).len(),
        forall|k: int| 0 <= k < r@.len() ==> (#[trigger] r@[k])@ == path_parts(p@)[k],
{
    let all = split_any_exec(p, '\\', '/');
    let ghost sp = split_any(p@, '\\', '/');
    let mut r: Vec<Vec<char>> = Vec::new();
    let mut i: usize = 0;
    while i < all.len()
        invariant
            i <= all@.len(),
            all@.len() == sp.len(),
            forall|k: int| 0 <= k < all@.len() ==> (#[trigger] all@[k])@ == sp[k],
            r@.len() == sp.take(i as int).filter(|part: Seq<char>| part.len() > 0).len(),
            forall|k: int|
                0 <= k < r@.len() ==> (#[trigger] r@[k])@ == sp.take(i as int).filter(
                    |part: Seq<char>| part.len() > 0,
                )[k],
        decreases all@.len() - i,
    {
        proof {
            lemma_filter_take_step(sp, i as int);
        }
        if all[i].len() > 0 {
            r.push(slice_of(all[i].as_slice(), 0, all[i].len()));
            assert(r@[r@.len() - 1]@ =~= sp[i as int]);
        }
        i += 1;
    }
    assert(sp.take(sp.len() as int) == sp);
    r
}

/// `parts` joined by `sep`.
fn join_exec(parts: &Vec<Vec<char>>, sep: char, g: Ghost<Seq<Seq<char>>>) -> (r: Vec<char>)
    requires
        parts@.len() == g@.len(),
        forall|k: int| 0 <= k < parts@.len() ==> (#[trigger] parts@[k])@ == g@[k],
    ensures
        r@ == join(g@, sep),
{
    let mut r: Vec<char> = Vec::new();
    let mut i: usize = 0;
    while i < parts.len()
        invariant
            i <= parts@.len(),
            parts@.len() == g@.len(),
            forall|k: int| 0 <= k < parts@.len() ==> (#[trigger] parts@[k])@ == g@[k],
            r@ == join(g@.take(i as int), sep),
        decreases parts@.len() - i,
    {
        proof {
            assert(g@.take(i + 1).drop_last() == g@.take(i as int));
            assert(g@.take(i + 1).last() == g@[i as int]);
            if i == 0 {
                assert(g@.take(1)[0] == g@[0]);
            }
        }
        if i > 0 {
            r.push(sep);
        }
        append(&mut r, parts[i].as_slice());
        proof {
            if i == 0 {
                assert(r@ =~= g@.take(1)[0]);
            }
        }
        i += 1;
    }
    assert(g@.take(g@.len() as int) =~= g@);
    r
}

fn contains_sep(p: &[char]) -> (r: bool)
    ensures
        r == (p@.contains('\\') || p@.contains('/')),
{
    let mut i: usize = 0;
    while i < p.len()
        invariant
            i <= p@.len(),
            forall|j: int| 0 <= j < i ==> p@[j] != '\\' && p@[j] != '/',
        decreases p@.len() - i,
    {
        if p[i] == '\\' || p[i] == '/' {
            return true;
        }
        i += 1;
    }
    false
}

/// `windows_separators`, on characters.
fn windows_separators_exec(p: &[char]) -> (r: Vec<char>)
    ensures
        r@ == windows_separators(p@),
{
    let parts = path_parts_exec(p);
    let ghost gp = path_parts(p@);
    let mut r: Vec<char> = Vec::new();
    if prefix2(p, '\\', '\\') || prefix2(p, '/', '/') {
        r.push('\\');
        r.push('\\');
    } else if p.len() > 0 && (p[0] == '\\' || p[0] == '/') {
        r.push('\\');
    }
    assert(r@ =~= windows_prefix(p@));
    let joined = join_exec(&parts, '\\', Ghost(gp));
    append(&mut r, joined.as_slice());
    if parts.len() > 0 {
        let last = &parts[parts.len() - 1];
        let drive = last.len() == 2 && is_ascii_alpha_exec(last[0]) && last[1] == ':';
        if drive && contains_sep(p) {
            r.push('\\');
        }
    }
    r
}

/// `str::eq_ignore_ascii_case`.
fn eq_ignore_case_exec(a: &[char], b: &[char]) -> (r: bool)
    ensures
        r == eq_ignore_ascii_case(a@, b@),
{
    let la = lower_chars(a);
    let lb = lower_chars(b);
    chars_eq(la.as_slice(), lb.as_slice())
}

fn is_windows_exec(platform: &str) -> (r: bool)
    ensures
        r == is_windows(platform@),
{
    let w: [char; 7] = ['w', 'i', 'n', 'd', 'o', 'w', 's'];
    let r = eq_ignore_case_exec(chars_of(platform).as_slice(), w.as_slice());
    assert(w@ =~= seq!['w', 'i', 'n', 'd', 'o', 'w', 's']);
    r
}

/// Normalize at the project-creation boundary using the selected device's
/// OS. A Unix filename may contain a literal backslash, so Unix paths are
/// left alone.
pub fn normalize_project_path(path: &str, platform: &str) -> (r: String)
    ensures
        r@ == normalize_spec(path@, platform@),
{
    let p = chars_of(path);
    if is_windows_exec(platform) {
        string_of(windows_separators_exec(p.as_slice()).as_slice())
    } else {
        string_of(p.as_slice())
    }
}

/// Persist a folder-derived project name, interpreting the device's
/// separators.
pub fn project_name(path: &str, platform: &str) -> (r: String)
    ensures
        r@ == project_name_spec(path@, platform@),
{
    let windows = is_windows_exec(platform);
    let p = chars_of(path);
    let mut end: usize = p.len();
    assert(p@.take(end as int) == p@);
    while end > 0 && (p[end - 1] == '/' || (windows && p[end - 1] == '\\'))
        invariant
            end <= p@.len(),
            trim_end_seps(p@, windows) == trim_end_seps(p@.take(end as int), windows),
        decreases end,
    {
        assert(p@.take(end as int).drop_last() == p@.take(end - 1));
        end -= 1;
    }
    let t = slice_of(p.as_slice(), 0, end);
    assert(t@ == p@.take(end as int));
    assert(t@.len() > 0 ==> !device_sep(t@.last(), windows));
    assert(trim_end_seps(p@, windows) == t@);
    if t.len() == 0 || (windows && t[t.len() - 1] == ':') {
        return string_of(p.as_slice());
    }
    let mut start: usize = t.len();
    assert(t@.skip(start as int) =~= seq![]);
    assert(t@.take(start as int) =~= t@);
    assert(last_part(t@, windows) + t@.skip(start as int) =~= last_part(t@, windows));
    while start > 0 && !(t[start - 1] == '/' || (windows && t[start - 1] == '\\'))
        invariant
            start <= t@.len(),
            last_part(t@, windows) == last_part(t@.take(start as int), windows) + t@.skip(
                start as int,
            ),
        decreases start,
    {
        proof {
            let tk = t@.take(start as int);
            assert(tk.drop_last() == t@.take(start - 1));
            assert(tk.last() == t@[start - 1]);
            assert(t@.skip(start - 1) =~= seq![t@[start - 1]] + t@.skip(start as int));
            assert(last_part(tk, windows) == last_part(tk.drop_last(), windows).push(tk.last()));
            assert(last_part(tk.drop_last(), windows).push(tk.last()) + t@.skip(start as int)
                =~= last_part(tk.drop_last(), windows) + t@.skip(start - 1));
        }
        start -= 1;
    }
    proof {
        let tk = t@.take(start as int);
        if start > 0 {
            assert(tk.last() == t@[start - 1]);
            assert(last_part(tk, windows) == Seq::<char>::empty());
        } else {
            assert(last_part(tk, windows) == Seq::<char>::empty());
        }
        assert(last_part(t@, windows) =~= t@.skip(start as int));
    }
    string_of(slice_of(t.as_slice(), start, t.len()).as_slice())
}

/// Join an engine listing and a folder name without using the client's OS.
pub fn child_path(base: &str, name: &str) -> (r: String)
    ensures
        r@ == child_path_spec(base@, name@),
{
    let b = chars_of(base);
    let n = chars_of(name);
    if windows_path_exec(b.as_slice()) {
        let w = windows_separators_exec(b.as_slice());
        let mut end: usize = w.len();
        assert(w@.take(end as int) == w@);
        while end > 0 && w[end - 1] == '\\'
            invariant
                end <= w@.len(),
                trim_end_backslashes(w@) == trim_end_backslashes(w@.take(end as int)),
            decreases end,
        {
            assert(w@.take(end as int).drop_last() == w@.take(end - 1));
            end -= 1;
        }
        let mut r = slice_of(w.as_slice(), 0, end);
        assert(trim_end_backslashes(w@) == r@);
        r.push('\\');
        append(&mut r, n.as_slice());
        string_of(r.as_slice())
    } else if b.len() > 0 && b[b.len() - 1] == '/' {
        let mut r = slice_of(b.as_slice(), 0, b.len());
        append(&mut r, n.as_slice());
        assert(b@.subrange(0, b@.len() as int) == b@);
        string_of(r.as_slice())
    } else {
        let mut r = slice_of(b.as_slice(), 0, b.len());
        assert(b@.subrange(0, b@.len() as int) == b@);
        r.push('/');
        append(&mut r, n.as_slice());
        string_of(r.as_slice())
    }
}

/// The non-empty parts of a path, read one character at a time: what
/// `path_parts` gives, in a form that proofs can follow.
pub open spec fn parts_of(s: Seq<char>) -> Seq<Seq<char>>
    decreases s.len(),
{
    if s.len() == 0 {
        Seq::empty()
    } else if is_sep(s.last()) {
        parts_of(s.drop_last())
    } else if s.len() == 1 || is_sep(s[s.len() - 2]) {
        parts_of(s.drop_last()).push(seq![s.last()])
    } else {
        let r = parts_of(s.drop_last());
        r.drop_last().push(r.last().push(s.last()))
    }
}

/// A part of a path: not empty, and no separator in it.
pub open spec fn sep_free(w: Seq<char>) -> bool {
    w.len() > 0 && forall|j: int| 0 <= j < w.len() ==> !is_sep(#[trigger] w[j])
}

pub open spec fn good_parts(ps: Seq<Seq<char>>) -> bool {
    forall|i: int| 0 <= i < ps.len() ==> sep_free(#[trigger] ps[i])
}

proof fn lemma_split_last(s: Seq<char>)
    ensures
        split_any(s, '\\', '/').len() >= 1,
        (split_any(s, '\\', '/').last().len() == 0) == (s.len() == 0 || is_sep(s.last())),
    decreases s.len(),
{
    if s.len() > 0 {
        lemma_split_last(s.drop_last());
    }
}

proof fn lemma_path_parts(s: Seq<char>)
    ensures
        path_parts(s) == parts_of(s),
    decreases s.len(),
{
    reveal(Seq::filter);
    let pred = |part: Seq<char>| part.len() > 0;
    if s.len() == 0 {
        let x = split_any(s, '\\', '/');
        assert(x == seq![Seq::<char>::empty()]);
        assert(x.drop_last() =~= Seq::<Seq<char>>::empty());
        assert(x.drop_last().filter(pred) =~= Seq::<Seq<char>>::empty());
        assert(path_parts(s) =~= parts_of(s));
    } else {
        let d = s.drop_last();
        lemma_path_parts(d);
        lemma_split_last(d);
        let x = split_any(d, '\\', '/');
        let y = split_any(s, '\\', '/');
        assert(path_parts(d) == x.filter(pred));
        if is_sep(s.last()) {
            assert(y == x.push(seq![]));
            assert(y.drop_last() =~= x);
        } else {
            let c = s.last();
            assert(y == x.update(x.len() - 1, x.last().push(c)));
            assert(y.drop_last() =~= x.drop_last());
            assert(y.last() == x.last().push(c));
            assert(y.filter(pred) == x.drop_last().filter(pred).push(x.last().push(c)));
            if s.len() == 1 || is_sep(s[s.len() - 2]) {
                assert(d.len() == 0 || d.last() == s[s.len() - 2]);
                assert(x.last().len() == 0);
                assert(x.filter(pred) == x.drop_last().filter(pred));
                assert(x.last().push(c) =~= seq![c]);
            } else {
                assert(d.last() == s[s.len() - 2]);
                assert(x.filter(pred) == x.drop_last().filter(pred).push(x.last()));
                let r = parts_of(d);
                assert(r.drop_last() =~= x.drop_last().filter(pred));
            }
        }
    }
}

proof fn lemma_parts_good(s: Seq<char>)
    ensures
        good_parts(parts_of(s)),
        s.len() > 0 && !is_sep(s.last()) ==> parts_of(s).len() > 0,
    decreases s.len(),
{
    if s.len() > 0 {
        let d = s.drop_last();
        lemma_parts_good(d);
        let r = parts_of(d);
        if is_sep(s.last()) {
        } else if s.len() == 1 || is_sep(s[s.len() - 2]) {
            assert(sep_free(seq![s.last()]));
            assert forall|i: int| 0 <= i < parts_of(s).len() implies sep_free(#[trigger] parts_of(s)[i]) by {
                if i < r.len() {
                    assert(parts_of(s)[i] == r[i]);
                }
            }
        } else {
            assert(d.last() == s[s.len() - 2]);
            assert(r.len() > 0);
            let w = r.last().push(s.last());
            assert(sep_free(r[r.len() - 1]));
            assert forall|j: int| 0 <= j < w.len() implies !is_sep(#[trigger] w[j]) by {
                if j < w.len() - 1 {
                    assert(w[j] == r.last()[j]);
                }
            }
            assert forall|i: int| 0 <= i < parts_of(s).len() implies sep_free(#[trigger] parts_of(s)[i]) by {
                if i < r.len() - 1 {
                    assert(parts_of(s)[i] == r[i]);
                }
            }
        }
    }
}

proof fn lemma_all_seps(q: Seq<char>)
    requires
        forall|j: int| 0 <= j < q.len() ==> is_sep(#[trigger] q[j]),
    ensures
        parts_of(q) == Seq::<Seq<char>>::empty(),
    decreases q.len(),
{
    if q.len() > 0 {
        assert(is_sep(q[q.len() - 1]));
        lemma_all_seps(q.drop_last());
    }
}

proof fn lemma_append_word(t: Seq<char>, w: Seq<char>)
    requires
        t.len() == 0 || is_sep(t.last()),
        sep_free(w),
    ensures
        parts_of(t + w) == parts_of(t).push(w),
    decreases w.len(),
{
    let s = t + w;
    assert(s.last() == w[w.len() - 1]);
    if w.len() == 1 {
        assert(s.drop_last() =~= t);
        assert(w =~= seq![s.last()]);
        if t.len() > 0 {
            assert(s[s.len() - 2] == t.last());
        }
    } else {
        let w2 = w.drop_last();
        assert(sep_free(w2)) by {
            assert forall|j: int| 0 <= j < w2.len() implies !is_sep(#[trigger] w2[j]) by {
                assert(w2[j] == w[j]);
            }
        }
        lemma_append_word(t, w2);
        assert(s.drop_last() =~= t + w2);
        assert(s[s.len() - 2] == w[w.len() - 2]);
        let r = parts_of(t + w2);
        assert(r.drop_last() =~= parts_of(t));
        assert(w2.push(w.last()) =~= w);
    }
}

proof fn lemma_join_parts(q: Seq<char>, ps: Seq<Seq<char>>)
    requires
        forall|j: int| 0 <= j < q.len() ==> is_sep(#[trigger] q[j]),
        good_parts(ps),
    ensures
        parts_of(q + join(ps, '\\')) == ps,
    decreases ps.len(),
{
    if ps.len() == 0 {
        assert(q + join(ps, '\\') =~= q);
        lemma_all_seps(q);
        assert(ps =~= Seq::<Seq<char>>::empty());
    } else if ps.len() == 1 {
        lemma_all_seps(q);
        assert(sep_free(ps[0]));
        if q.len() > 0 {
            assert(is_sep(q[q.len() - 1]));
        }
        lemma_append_word(q, ps[0]);
        assert(Seq::<Seq<char>>::empty().push(ps[0]) =~= ps);
    } else {
        let d = ps.drop_last();
        assert(good_parts(d)) by {
            assert forall|i: int| 0 <= i < d.len() implies sep_free(#[trigger] d[i]) by {
                assert(d[i] == ps[i]);
            }
        }
        lemma_join_parts(q, d);
        let t = (q + join(d, '\\')).push('\\');
        assert(sep_free(ps[ps.len() - 1]));
        lemma_append_word(t, ps.last());
        assert(q + join(ps, '\\') =~= t + ps.last());
        assert(t.drop_last() =~= q + join(d, '\\'));
        assert(ps =~= d.push(ps.last()));
    }
}

proof fn lemma_join_chars(ps: Seq<Seq<char>>)
    requires
        good_parts(ps),
    ensures
        forall|j: int| 0 <= j < join(ps, '\\').len() ==> #[trigger] join(ps, '\\')[j] != '/',
        ps.len() <= 1 ==> forall|j: int| 0 <= j < join(ps, '\\').len() ==> !is_sep(#[trigger] join(ps, '\\')[j]),
        ps.len() > 0 ==> join(ps, '\\').len() > 0 && !is_sep(join(ps, '\\')[0]),
    decreases ps.len(),
{
    if ps.len() == 1 {
        assert(sep_free(ps[0]));
    } else if ps.len() >= 2 {
        let d = ps.drop_last();
        assert(good_parts(d)) by {
            assert forall|i: int| 0 <= i < d.len() implies sep_free(#[trigger] d[i]) by {
                assert(d[i] == ps[i]);
            }
        }
        lemma_join_chars(d);
        let a = join(d, '\\').push('\\');
        let w = ps.last();
        assert(sep_free(ps[ps.len() - 1]));
        assert(join(ps, '\\') == a + w);
        assert forall|j: int| 0 <= j < join(ps, '\\').len() implies #[trigger] join(ps, '\\')[j] != '/' by {
            if j < a.len() {
                assert((a + w)[j] == a[j]);
                if j < a.len() - 1 {
                    assert(a[j] == join(d, '\\')[j]);
                }
            } else {
                assert((a + w)[j] == w[j - a.len()]);
            }
        }
        assert(join(ps, '\\')[0] == join(d, '\\')[0]);
    }
}

proof fn lemma_no_sep_one_part(p: Seq<char>)
    requires
        forall|j: int| 0 <= j < p.len() ==> !is_sep(#[trigger] p[j]),
    ensures
        parts_of(p).len() <= 1,
    decreases p.len(),
{
    if p.len() > 0 {
        let d = p.drop_last();
        assert forall|j: int| 0 <= j < d.len() implies !is_sep(#[trigger] d[j]) by {
            assert(d[j] == p[j]);
        }
        lemma_no_sep_one_part(d);
        assert(!is_sep(p[p.len() - 1]));
        if p.len() > 1 {
            assert(!is_sep(p[p.len() - 2]));
        }
    }
}

/// On a Windows device a normalised path has no `/` left in it, and
/// normalising it again changes nothing; on any other device the path is
/// left exactly as it was, literal backslashes included.
pub proof fn law_normalized_paths_settle(p: Seq<char>, platform: Seq<char>)
    ensures
        !is_windows(platform) ==> normalize_spec(p, platform) == p,
        is_windows(platform) ==> !normalize_spec(p, platform).contains('/'),
        is_windows(platform) ==> normalize_spec(normalize_spec(p, platform), platform) == normalize_spec(
            p,
            platform,
        ),
{
    if is_windows(platform) {
        let ps = path_parts(p);
        lemma_path_parts(p);
        lemma_parts_good(p);
        lemma_join_chars(ps);
        let pre = windows_prefix(p);
        let jn = join(ps, '\\');
        let base = pre + jn;
        let r = windows_separators(p);
        let cond = ps.len() > 0 && is_drive(ps.last()) && (p.contains('\\') || p.contains('/'));
        assert(forall|j: int| 0 <= j < pre.len() ==> #[trigger] pre[j] == '\\');
        assert(forall|j: int| 0 <= j < pre.len() ==> is_sep(#[trigger] pre[j]));
        lemma_join_parts(pre, ps);
        assert(r == if cond { base.push('\\') } else { base });
        // The parts come back unchanged.
        lemma_path_parts(r);
        if cond {
            assert(r.drop_last() =~= base);
            assert(is_sep(r.last()));
        }
        assert(path_parts(r) == ps);
        // No forward slash anywhere.
        assert forall|j: int| 0 <= j < r.len() implies r[j] != '/' by {
            if j < pre.len() {
                assert(r[j] == pre[j]);
            } else if j < base.len() {
                assert(r[j] == jn[j - pre.len()]);
            } else {
                assert(r[j] == '\\');
            }
        }
        // The prefix reads back the same.
        if ps.len() > 0 {
            assert(r[pre.len() as int] == jn[0]);
        } else {
            assert(jn.len() == 0);
            assert(r =~= pre);
        }
        if pre == seq!['\\', '\\'] {
            assert(r.take(2) =~= seq!['\\', '\\']);
        } else if pre == seq!['\\'] {
            assert(r[0] == '\\');
            if r.len() >= 2 {
                assert(!is_sep(r[1]));
                assert(r.take(2) != seq!['\\', '\\']) by {
                    assert(r.take(2)[1] == r[1]);
                }
                assert(r.take(2) != seq!['/', '/']) by {
                    assert(r.take(2)[0] == r[0]);
                }
            }
        } else {
            assert(pre.len() == 0);
            if r.len() > 0 {
                assert(!is_sep(r[0]));
                if r.len() >= 2 {
                    assert(r.take(2)[0] == r[0]);
                }
            }
        }
        assert(windows_prefix(r) == pre);
        // The trailing backslash is kept just when it was added.
        if !cond && ps.len() > 0 && is_drive(ps.last()) {
            assert forall|j: int| 0 <= j < p.len() implies !is_sep(#[trigger] p[j]) by {
                if p[j] == '\\' {
                    assert(p.contains('\\'));
                }
                if p[j] == '/' {
                    assert(p.contains('/'));
                }
            }
            lemma_no_sep_one_part(p);
            if p.len() > 0 {
                assert(!is_sep(p[0]));
                if p.len() >= 2 {
                    assert(p.take(2)[0] == p[0]);
                }
            }
            assert(pre.len() == 0);
            assert(r =~= jn);
            assert(!r.contains('\\') && !r.contains('/'));
        }
        if cond {
            assert(r[r.len() - 1] == '\\');
            assert(r.contains('\\'));
        }
        assert(windows_separators(r) =~= r);
    }
}


proof fn lemma_trim_end_seps_at(p: Seq<char>, w: bool, i: int)
    requires
        0 <= i < p.len(),
        !(p[i] == '/' || (w && p[i] == '\\')),
        forall|j: int| i < j < p.len() ==> (#[trigger] p[j] == '/' || (w && p[j] == '\\')),
    ensures
        trim_end_seps(p, w) == p.take(i + 1),
    decreases p.len(),
{
    if p.len() > i + 1 {
        assert(p[p.len() - 1] == '/' || (w && p[p.len() - 1] == '\\'));
        let d = p.drop_last();
        assert forall|j: int| i < j < d.len() implies (#[trigger] d[j] == '/' || (w && d[j] == '\\')) by {
            assert(d[j] == p[j]);
        }
        lemma_trim_end_seps_at(d, w, i);
        assert(d.take(i + 1) =~= p.take(i + 1));
    } else {
        assert(p.take(i + 1) =~= p);
    }
}

proof fn lemma_last_part_clean(t: Seq<char>, w: bool)
    ensures
        forall|k: int| 0 <= k < last_part(t, w).len() ==> !(#[trigger] last_part(t, w)[k] == '/' || (w
            && last_part(t, w)[k] == '\\')),
        t.len() > 0 && !(t.last() == '/' || (w && t.last() == '\\')) ==> last_part(t, w).len() > 0
            && last_part(t, w).last() == t.last(),
    decreases t.len(),
{
    if t.len() > 0 {
        lemma_last_part_clean(t.drop_last(), w);
        if !device_sep(t.last(), w) {
            let r0 = last_part(t.drop_last(), w);
            assert forall|k: int| 0 <= k < last_part(t, w).len() implies !(#[trigger] last_part(t, w)[k] == '/'
                || (w && last_part(t, w)[k] == '\\')) by {
                if k < r0.len() {
                    assert(last_part(t, w)[k] == r0[k]);
                }
            }
        }
    }
}

/// A project is named by the last part of its folder's path, the device's
/// separators and any trailing ones aside: `/` on every device and `\` too
/// on Windows. Unless the path is a root kept whole (nothing but
/// separators, or a drive on Windows), the name is not empty, holds no
/// separator, and ends with the path's last character that is not one.
pub proof fn law_project_name_is_the_last_part(p: Seq<char>, platform: Seq<char>, i: int)
    requires
        0 <= i < p.len(),
        !(p[i] == '/' || (is_windows(platform) && p[i] == '\\')),
        forall|j: int| i < j < p.len() ==> (#[trigger] p[j] == '/' || (is_windows(platform) && p[j] == '\\')),
        !(is_windows(platform) && p[i] == ':'),
    ensures
        project_name_spec(p, platform).len() > 0,
        forall|k: int| 0 <= k < project_name_spec(p, platform).len() ==> #[trigger] project_name_spec(p, platform)[k]
            != '/',
        is_windows(platform) ==> forall|k: int|
            0 <= k < project_name_spec(p, platform).len() ==> #[trigger] project_name_spec(p, platform)[k] != '\\',
        project_name_spec(p, platform).last() == p[i],
{
    let w = is_windows(platform);
    lemma_trim_end_seps_at(p, w, i);
    let t = p.take(i + 1);
    assert(t.last() == p[i]);
    lemma_last_part_clean(t, w);
}

} // verus!
