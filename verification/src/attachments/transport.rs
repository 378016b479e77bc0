//! How attachments ride a prompt, and how that prompt is read back. The
//! staged files' local paths are appended to the text under a marker line,
//! and the same text is what a conversation keeps.
use vstd::prelude::*;
use crate::attachments::staging::{format_by_extension, format_by_extension_spec};
use crate::text::{
    append, chars_eq, chars_of, chars_view, decimal, decimal_chars, ends_with, ends_with_exec,
    find_char_from, find_from, first_where, lower_all, lower_chars, occurs_at, owned, slice_of,
    split_any, split_any_exec, starts_with, starts_with_exec, string_of, strs_view, take_until,
    trim, trim_chars, trim_end, trim_end_chars, trim_start, trim_start_chars,
};

verus! {

/// The body used for file-only sends.
pub const FILE_ONLY_TEXT: &'static str = "See the attached file(s).";

/// The body image-only sends used; saved conversations still carry it.
pub const ATTACHMENT_ONLY_TEXT: &'static str = "See the attached image(s).";

pub open spec fn file_only_spec() -> Seq<char> {
    "See the attached file(s)."@
}

pub open spec fn attachment_only_spec() -> Seq<char> {
    "See the attached image(s)."@
}

pub open spec fn images_marker() -> Seq<char> {
    "Attached images (local files \u{2014} open them to view):"@
}

pub open spec fn files_marker() -> Seq<char> {
    "Attached files (local files, open them to read or view):"@
}

/// Every path names an image format by its extension.
pub open spec fn images_only(paths: Seq<Seq<char>>) -> bool {
    forall|i: int| 0 <= i < paths.len() ==> (#[trigger] format_by_extension_spec(paths[i])) is Some
}

/// One `- <path>` line per path, joined by newlines.
pub open spec fn ref_lines(paths: Seq<Seq<char>>) -> Seq<char>
    decreases paths.len(),
{
    if paths.len() == 0 {
        seq![]
    } else if paths.len() == 1 {
        "- "@ + paths[0]
    } else {
        ref_lines(paths.drop_last()) + "\n- "@ + paths.last()
    }
}

/// The prompt text with its attachments' paths appended under a marker
/// line; the text alone when there are none. An empty text gets a body that
/// says there are attachments.
pub open spec fn with_attachments_spec(text: Seq<char>, paths: Seq<Seq<char>>) -> Seq<char> {
    if paths.len() == 0 {
        text
    } else {
        let body = if text.len() == 0 {
            if images_only(paths) {
                attachment_only_spec()
            } else {
                file_only_spec()
            }
        } else {
            text
        };
        let marker = if images_only(paths) {
            images_marker()
        } else {
            files_marker()
        };
        body + "\n\n"@ + marker + "\n"@ + ref_lines(paths)
    }
}

fn all_images(paths: &[String]) -> (r: bool)
    ensures
        r == images_only(strs_view(paths@)),
{
    let ghost pv = strs_view(paths@);
    let mut i: usize = 0;
    while i < paths.len()
        invariant
            i <= paths@.len(),
            pv == strs_view(paths@),
            forall|j: int| 0 <= j < i ==> (#[trigger] format_by_extension_spec(pv[j])) is Some,
        decreases paths@.len() - i,
    {
        assert(pv[i as int] == paths@[i as int]@);
        if format_by_extension(paths[i].as_str()).is_none() {
            return false;
        }
        i += 1;
    }
    true
}

/// How attachments ride the prompt: plain local paths appended to the
/// text. The files are staged on the device that runs the agent, so the
/// agent opens them with its own tools.
pub fn with_attachments(text: &str, paths: &[String]) -> (r: String)
    ensures
        r@ == with_attachments_spec(text@, strs_view(paths@)),
{
    if paths.len() == 0 {
        return owned(text);
    }
    let ghost pv = strs_view(paths@);
    let images = all_images(paths);
    let tv = chars_of(text);
    let mut v: Vec<char> = if tv.len() == 0 {
        if images {
            chars_of(ATTACHMENT_ONLY_TEXT)
        } else {
            chars_of(FILE_ONLY_TEXT)
        }
    } else {
        tv
    };
    append(&mut v, chars_of("\n\n").as_slice());
    if images {
        append(&mut v, chars_of("Attached images (local files \u{2014} open them to view):").as_slice());
    } else {
        append(&mut v, chars_of("Attached files (local files, open them to read or view):").as_slice());
    }
    append(&mut v, chars_of("\n").as_slice());
    let ghost head = v@;
    let mut i: usize = 0;
    while i < paths.len()
        invariant
            i <= paths@.len(),
            pv == strs_view(paths@),
            paths@.len() > 0,
            v@ == head + ref_lines(pv.take(i as int)),
        decreases paths@.len() - i,
    {
        assert(pv.take(i + 1).drop_last() == pv.take(i as int));
        assert(pv.take(i + 1).last() == paths@[i as int]@);
        if i > 0 {
            append(&mut v, chars_of("\n").as_slice());
        }
        append(&mut v, chars_of("- ").as_slice());
        append(&mut v, chars_of(paths[i].as_str()).as_slice());
        proof {
            if i > 0 {
                assert(ref_lines(pv.take(i + 1)) == ref_lines(pv.take(i as int)) + "\n- "@ + paths@[i as int]@);
                reveal_strlit("\n- ");
                reveal_strlit("\n");
                reveal_strlit("- ");
                assert("\n- "@ == "\n"@ + "- "@);
            }
        }
        i += 1;
    }
    assert(pv.take(pv.len() as int) == pv);
    string_of(v.as_slice())
}

/// An attachment ref parsed back out of a user message's text.
#[derive(Debug, Clone, PartialEq, Eq)]
pub struct UserImageAttachment {
    pub id: String,
    pub path: String,
    pub name: String,
}

#[derive(Debug, Clone, PartialEq, Eq)]
pub struct ParsedUserMessage {
    /// The visible prompt: the refs trailer stripped, empty for a send that
    /// was only attachments.
    pub text: String,
    pub attachments: Vec<UserImageAttachment>,
}

/// The part of `path` after its last `/` or `\`, trimmed; "image" when that
/// is empty.
pub open spec fn name_from_path_spec(path: Seq<char>) -> Seq<char> {
    let name = trim(split_any(path, '/', '\\').last());
    if name.len() == 0 {
        "image"@
    } else {
        name
    }
}

/// What a ref's card is called: the file name of its path.
pub fn name_from_path(path: &str) -> (r: String)
    ensures
        r@ == name_from_path_spec(path@),
{
    let parts = split_any_exec(chars_of(path).as_slice(), '/', '\\');
    proof {
        crate::text::lemma_split_any_nonempty(path@, '/', '\\');
    }
    let last = parts.len() - 1;
    let name = trim_chars(parts[last].as_slice());
    if name.len() == 0 {
        owned("image")
    } else {
        string_of(name.as_slice())
    }
}

pub open spec fn needle_images() -> Seq<char> {
    "\n\nattached images (local files"@
}

pub open spec fn needle_files() -> Seq<char> {
    "\n\nattached files (local files"@
}

/// A marker line may start at `j` of the lower-cased text.
pub open spec fn marker_at(lower: Seq<char>, j: int) -> bool {
    occurs_at(lower, needle_images(), j) || occurs_at(lower, needle_files(), j)
}

pub open spec fn is_first_marker(lower: Seq<char>, from: int, j: int) -> bool {
    from <= j && marker_at(lower, j) && forall|k: int| from <= k < j ==> !marker_at(lower, k)
}

/// `s` without its trailing carriage returns.
pub open spec fn trim_end_cr(s: Seq<char>) -> Seq<char>
    decreases s.len(),
{
    if s.len() > 0 && s.last() == '\r' {
        trim_end_cr(s.drop_last())
    } else {
        s
    }
}

/// Where the line that starts at `start` ends: its newline, or the end.
pub open spec fn line_end(c: Seq<char>, start: int) -> int {
    start + first_where(c.skip(start), |x: char| x == '\n')
}

/// The refs trailer at or after `from`: a blank line, then a line starting
/// (in any case) with "Attached images (local files" or "Attached files
/// (local files" and ending "):". Gives where the body ends and where the
/// refs start.
pub open spec fn marker_from(c: Seq<char>, from: int) -> Option<(int, int)>
    decreases c.len() - from,
{
    let lower = lower_all(c);
    if from >= 0 && exists|j: int| is_first_marker(lower, from, j) {
        let gap = choose|j: int| is_first_marker(lower, from, j);
        let ls = gap + 2;
        let le = line_end(c, ls);
        if ends_with(trim_end_cr(c.subrange(ls, le)), "):"@) {
            Some((gap, if le + 1 < c.len() { le + 1 } else { c.len() as int }))
        } else if c.len() - ls < c.len() - from && 0 <= c.len() - ls {
            marker_from(c, ls)
        } else {
            None
        }
    } else {
        None
    }
}

proof fn lemma_first_marker_unique(lower: Seq<char>, from: int, j: int)
    requires
        is_first_marker(lower, from, j),
    ensures
        (choose|k: int| is_first_marker(lower, from, k)) == j,
{
    let k = choose|k: int| is_first_marker(lower, from, k);
    assert(is_first_marker(lower, from, k));
    if k < j {
        assert(!marker_at(lower, k));
    }
    if j < k {
        assert(!marker_at(lower, j));
    }
}

fn trim_end_cr_chars(v: &[char]) -> (r: Vec<char>)
    ensures
        r@ == trim_end_cr(v@),
{
    let mut i: usize = v.len();
    assert(v@.take(i as int) == v@);
    while i > 0 && v[i - 1] == '\r'
        invariant
            i <= v@.len(),
            trim_end_cr(v@) == trim_end_cr(v@.take(i as int)),
        decreases i,
    {
        assert(v@.take(i as int).drop_last() == v@.take(i - 1));
        i -= 1;
    }
    if i > 0 {
        assert(v@.take(i as int).last() == v@[i - 1]);
    }
    slice_of(v, 0, i)
}

/// The trailer's place in `content`, by characters.
fn find_refs_marker(content: &[char]) -> (r: Option<(usize, usize)>)
    ensures
        match marker_from(content@, 0) {
            Some((a, b)) => r matches Some((x, y)) && x == a && y == b,
            None => r is None,
        },
        r matches Some((x, y)) ==> x <= content@.len() && y <= content@.len(),
{
    let lower = lower_chars(content);
    let n1 = chars_of("\n\nattached images (local files");
    let n2 = chars_of("\n\nattached files (local files");
    proof {
        reveal_strlit("\n\nattached images (local files");
        reveal_strlit("\n\nattached files (local files");
    }
    let n = content.len();
    let mut from: usize = 0;
    while from <= n
        invariant
            from <= n + 2,
            n == content@.len(),
            lower@ == lower_all(content@),
            n1@ == needle_images(),
            n2@ == needle_files(),
            needle_images().len() == 30,
            needle_files().len() == 29,
            marker_from(content@, 0) == marker_from(content@, from as int),
        decreases n + 2 - from,
    {
        let a = find_from(lower.as_slice(), n1.as_slice(), from);
        let b = find_from(lower.as_slice(), n2.as_slice(), from);
        let gap = match (a, b) {
            (Some(x), Some(y)) => if x <= y {
                x
            } else {
                y
            },
            (Some(x), None) => x,
            (None, Some(y)) => y,
            (None, None) => {
                proof {
                    assert(!exists|j: int| is_first_marker(lower@, from as int, j));
                }
                return None;
            },
        };
        proof {
            assert(is_first_marker(lower@, from as int, gap as int));
            lemma_first_marker_unique(lower@, from as int, gap as int);
        }
        assert(gap + 29 <= n);
        let line_start = gap + 2;
        let rest = slice_of(content, line_start, n);
        assert(rest@ == content@.skip(line_start as int));
        let head = take_until(rest.as_slice(), '\n');
        let line_end = line_start + head.len();
        let line = slice_of(content, line_start, line_end);
        let line = trim_end_cr_chars(line.as_slice());
        if ends_with_exec(line.as_slice(), chars_of("):").as_slice()) {
            let refs_start = if line_end < n && line_end + 1 < n {
                line_end + 1
            } else {
                n
            };
            return Some((gap, refs_start));
        }
        from = line_start;
    }
    None
}

/// The path a trailer line carries: `- <path>`, indentation and padding
/// aside; none for any other line or an empty path.
pub open spec fn ref_path(line: Seq<char>) -> Option<Seq<char>> {
    let t = trim_start(line);
    if starts_with(t, "- "@) && trim(t.skip(2)).len() > 0 {
        Some(trim(t.skip(2)))
    } else {
        None
    }
}

/// The paths the trailer's lines carry, in order.
pub open spec fn ref_paths(lines: Seq<Seq<char>>) -> Seq<Seq<char>>
    decreases lines.len(),
{
    if lines.len() == 0 {
        seq![]
    } else {
        match ref_path(lines.last()) {
            Some(p) => ref_paths(lines.drop_last()).push(p),
            None => ref_paths(lines.drop_last()),
        }
    }
}

/// A ref's id, path and name: `<index>:<path>`, the path, its file name.
pub open spec fn attachment_spec(index: nat, path: Seq<char>) -> (Seq<char>, Seq<char>, Seq<char>) {
    (decimal(index) + ":"@ + path, path, name_from_path_spec(path))
}

pub open spec fn attachments_view(a: Seq<UserImageAttachment>) -> Seq<(Seq<char>, Seq<char>, Seq<char>)> {
    a.map_values(|x: UserImageAttachment| (x.id@, x.path@, x.name@))
}

pub open spec fn attachments_of(paths: Seq<Seq<char>>) -> Seq<(Seq<char>, Seq<char>, Seq<char>)> {
    Seq::new(paths.len(), |i: int| attachment_spec(i as nat, paths[i]))
}

/// A user message split into its visible prompt and the paths of its
/// trailer. Without a trailer, or when the trailer carries no path, the
/// text is kept whole. A body that only says there are attachments reads
/// as empty.
pub open spec fn parse_spec(c: Seq<char>) -> (Seq<char>, Seq<Seq<char>>) {
    match marker_from(c, 0) {
        None => (c, seq![]),
        Some((body_end, refs_start)) => {
            let paths = ref_paths(split_any(c.skip(refs_start), '\n', '\n'));
            if paths.len() == 0 {
                (c, seq![])
            } else {
                let body = trim_end(c.take(body_end));
                if trim(body) == attachment_only_spec() || trim(body) == file_only_spec() {
                    (seq![], paths)
                } else {
                    (body, paths)
                }
            }
        },
    }
}

fn ref_path_exec(line: &[char]) -> (r: Option<Vec<char>>)
    ensures
        match ref_path(line@) {
            Some(p) => r matches Some(v) && v@ == p,
            None => r is None,
        },
{
    let t = trim_start_chars(line);
    let dash = chars_of("- ");
    proof {
        reveal_strlit("- ");
    }
    if starts_with_exec(t.as_slice(), dash.as_slice()) {
        let rest = slice_of(t.as_slice(), 2, t.len());
        assert(rest@ == t@.skip(2));
        let p = trim_chars(rest.as_slice());
        if p.len() > 0 {
            return Some(p);
        }
    }
    None
}

fn make_attachment(index: usize, path: &[char]) -> (r: UserImageAttachment)
    ensures
        (r.id@, r.path@, r.name@) == attachment_spec(index as nat, path@),
{
    let mut id = decimal_chars(index as u64);
    append(&mut id, chars_of(":").as_slice());
    append(&mut id, path);
    let p = string_of(path);
    let name = name_from_path(p.as_str());
    UserImageAttachment { id: string_of(id.as_slice()), path: p, name }
}

/// Split the visible prompt from its attachment-ref trailer.
pub fn parse_user_message_images(content: &str) -> (r: ParsedUserMessage)
    ensures
        r.text@ == parse_spec(content@).0,
        attachments_view(r.attachments@) == attachments_of(parse_spec(content@).1),
{
    let c = chars_of(content);
    let n = c.len();
    let found = find_refs_marker(c.as_slice());
    let (body_end, refs_start) = match found {
        None => {
            let r = ParsedUserMessage { text: owned(content), attachments: Vec::new() };
            assert(attachments_view(r.attachments@) =~= attachments_of(Seq::<Seq<char>>::empty()));
            return r;
        },
        Some(pair) => pair,
    };
    proof {
        let (a, b) = marker_from(c@, 0)->0;
        assert(a == body_end && b == refs_start);
    }
    let tail = slice_of(c.as_slice(), refs_start, n);
    assert(tail@ == c@.skip(refs_start as int));
    let lines = split_any_exec(tail.as_slice(), '\n', '\n');
    let ghost lv = chars_view(lines@);
    assert(lv =~= split_any(tail@, '\n', '\n'));
    let mut attachments: Vec<UserImageAttachment> = Vec::new();
    let mut k: usize = 0;
    assert(lv.take(0) == Seq::<Seq<char>>::empty());
    while k < lines.len()
        invariant
            k <= lines@.len(),
            lv == chars_view(lines@),
            attachments_view(attachments@) == attachments_of(ref_paths(lv.take(k as int))),
            ref_paths(lv.take(k as int)).len() == attachments@.len(),
        decreases lines@.len() - k,
    {
        assert(lv.take(k + 1).drop_last() == lv.take(k as int));
        assert(lv.take(k + 1).last() == lines@[k as int]@);
        let ghost before = ref_paths(lv.take(k as int));
        match ref_path_exec(lines[k].as_slice()) {
            Some(p) => {
                let index = attachments.len();
                let a = make_attachment(index, p.as_slice());
                let ghost old_att = attachments@;
                attachments.push(a);
                assert(attachments@ == old_att.push(a));
                assert forall|j: int| 0 <= j < attachments@.len() implies #[trigger] attachments_view(
                    attachments@,
                )[j] == attachments_of(before.push(p@))[j] by {
                    if j < old_att.len() {
                        assert(attachments_view(old_att)[j] == attachments_of(before)[j]);
                    }
                }
                assert(attachments_view(attachments@) =~= attachments_of(before.push(p@)));
            },
            None => {},
        }
        k += 1;
    }
    assert(lv.take(lv.len() as int) == lv);
    if attachments.len() == 0 {
        return ParsedUserMessage { text: owned(content), attachments };
    }
    let head = slice_of(c.as_slice(), 0, body_end);
    assert(head@ == c@.take(body_end as int));
    let body = trim_end_chars(head.as_slice());
    let tb = trim_chars(body.as_slice());
    let text = if chars_eq(tb.as_slice(), chars_of(ATTACHMENT_ONLY_TEXT).as_slice()) || chars_eq(
        tb.as_slice(),
        chars_of(FILE_ONLY_TEXT).as_slice(),
    ) {
        String::new()
    } else {
        string_of(body.as_slice())
    };
    ParsedUserMessage { text, attachments }
}

/// What the rail shows for a user message: its prompt, or for a send that
/// was only attachments, how many there were and of which kind.
pub open spec fn rail_text_spec(content: Seq<char>) -> Seq<char> {
    let (text, paths) = parse_spec(content);
    if trim(text).len() > 0 {
        text
    } else if !images_only(paths) {
        if paths.len() == 1 {
            "Attached file"@
        } else {
            decimal(paths.len()) + " attached files"@
        }
    } else if paths.len() == 0 {
        content
    } else if paths.len() == 1 {
        "Attached image"@
    } else {
        decimal(paths.len()) + " attached images"@
    }
}

fn all_image_refs(a: &Vec<UserImageAttachment>, Ghost(paths): Ghost<Seq<Seq<char>>>) -> (r: bool)
    requires
        attachments_view(a@) == attachments_of(paths),
    ensures
        r == images_only(paths),
{
    let mut i: usize = 0;
    assert(a@.len() == paths.len()) by {
        assert(attachments_view(a@).len() == a@.len());
    }
    while i < a.len()
        invariant
            i <= a@.len(),
            a@.len() == paths.len(),
            attachments_view(a@) == attachments_of(paths),
            forall|j: int| 0 <= j < i ==> (#[trigger] format_by_extension_spec(paths[j])) is Some,
        decreases a@.len() - i,
    {
        assert(attachments_view(a@)[i as int] == attachments_of(paths)[i as int]);
        if format_by_extension(a[i].path.as_str()).is_none() {
            return false;
        }
        i += 1;
    }
    true
}

/// What the rail or sidebar shows for a user message.
pub fn user_message_rail_text(content: &str) -> (r: String)
    ensures
        r@ == rail_text_spec(content@),
{
    let parsed = parse_user_message_images(content);
    let ghost paths = parse_spec(content@).1;
    if trim_chars(chars_of(parsed.text.as_str()).as_slice()).len() > 0 {
        return parsed.text;
    }
    let n = parsed.attachments.len();
    assert(n == paths.len()) by {
        assert(attachments_view(parsed.attachments@).len() == parsed.attachments@.len());
    }
    let images = all_image_refs(&parsed.attachments, Ghost(paths));
    if !images {
        if n == 1 {
            return owned("Attached file");
        }
        let mut v = decimal_chars(n as u64);
        append(&mut v, chars_of(" attached files").as_slice());
        return string_of(v.as_slice());
    }
    if n == 0 {
        owned(content)
    } else if n == 1 {
        owned("Attached image")
    } else {
        let mut v = decimal_chars(n as u64);
        append(&mut v, chars_of(" attached images").as_slice());
        string_of(v.as_slice())
    }
}

} // verus!

verus! {

/// A path that rides the trailer unchanged: not empty, no surrounding
/// blanks, no line break.
pub open spec fn plain_ref(p: Seq<char>) -> bool {
    p.len() > 0 && trim(p) == p && !p.contains('\n')
}

/// No marker line can start inside `text`.
pub open spec fn no_marker(text: Seq<char>) -> bool {
    forall|j: int| !marker_at(lower_all(text), j)
}

proof fn lemma_split_append_plain(s: Seq<char>, t: Seq<char>)
    requires
        !t.contains('\n'),
    ensures
        split_any(s + t, '\n', '\n') == split_any(s, '\n', '\n').update(
            split_any(s, '\n', '\n').len() - 1,
            split_any(s, '\n', '\n').last() + t,
        ),
    decreases t.len(),
{
    crate::text::lemma_split_any_nonempty(s, '\n', '\n');
    if t.len() == 0 {
        assert(s + t == s);
        let r = split_any(s, '\n', '\n');
        assert(r.last() + t == r.last());
        assert(r.update(r.len() - 1, r.last()) =~= r);
    } else {
        let t0 = t.drop_last();
        assert(!t0.contains('\n')) by {
            assert forall|k: int| 0 <= k < t0.len() implies t0[k] != '\n' by {
                assert(t0[k] == t[k]);
            }
        }
        lemma_split_append_plain(s, t0);
        assert((s + t).drop_last() == s + t0);
        assert((s + t).last() == t.last());
        assert(t.last() != '\n') by {
            assert(t[t.len() - 1] == t.last());
        }
        crate::text::lemma_split_any_nonempty(s + t0, '\n', '\n');
        let r = split_any(s, '\n', '\n');
        assert(r.last() + t0.push(t.last()) == r.last() + t);
        assert(t0.push(t.last()) == t);
    }
}

proof fn lemma_split_refs(ps: Seq<Seq<char>>)
    requires
        ps.len() > 0,
        forall|i: int| 0 <= i < ps.len() ==> !(#[trigger] ps[i]).contains('\n'),
    ensures
        split_any(ref_lines(ps), '\n', '\n') == ps.map_values(|p: Seq<char>| "- "@ + p),
    decreases ps.len(),
{
    reveal_strlit("- ");
    reveal_strlit("\n- ");
    let line = "- "@ + ps.last();
    assert(!line.contains('\n')) by {
        assert forall|k: int| 0 <= k < line.len() implies line[k] != '\n' by {
            if k >= 2 {
                assert(line[k] == ps.last()[k - 2]);
                assert(ps.last() == ps[ps.len() - 1]);
            }
        }
    }
    if ps.len() == 1 {
        lemma_split_append_plain(seq![], line);
        assert(Seq::<char>::empty() + line == line);
        assert(ref_lines(ps) == "- "@ + ps[0]);
        assert(split_any(Seq::<char>::empty(), '\n', '\n') == seq![Seq::<char>::empty()]);
        assert(ps.map_values(|p: Seq<char>| "- "@ + p) =~= seq![line]);
        assert(Seq::<char>::empty() + line == line);
        assert(seq![Seq::<char>::empty()].update(0, Seq::<char>::empty() + line) =~= seq![line]);
    } else {
        let front = ps.drop_last();
        assert forall|i: int| 0 <= i < front.len() implies !(#[trigger] front[i]).contains('\n') by {
            assert(front[i] == ps[i]);
        }
        lemma_split_refs(front);
        let rf = ref_lines(front);
        assert(ref_lines(ps) == rf + "\n- "@ + ps.last());
        assert(rf + "\n- "@ + ps.last() == rf.push('\n') + line);
        lemma_split_append_plain(rf.push('\n'), line);
        assert(rf.push('\n').drop_last() == rf);
        crate::text::lemma_split_any_nonempty(rf, '\n', '\n');
        let sr = split_any(rf, '\n', '\n');
        assert(split_any(rf.push('\n'), '\n', '\n') == sr.push(seq![]));
        assert(Seq::<char>::empty() + line == line);
        assert(sr.push(seq![]).update(sr.len() as int, Seq::<char>::empty() + line) =~= sr.push(line));
        assert(ps.map_values(|p: Seq<char>| "- "@ + p) =~= front.map_values(|p: Seq<char>| "- "@ + p).push(
            line,
        ));
    }
}

proof fn lemma_trim_plain_dash(p: Seq<char>)
    requires
        plain_ref(p),
    ensures
        ref_path("- "@ + p) == Some(p),
{
    reveal_strlit("- ");
    let l = "- "@ + p;
    assert(l[0] == '-');
    assert(!crate::text::is_ws('-'));
    assert(trim_start(l) == l);
    assert(l.take(2) == "- "@);
    assert(l.skip(2) == p);
}

proof fn lemma_ref_paths_of_dashed(ps: Seq<Seq<char>>)
    requires
        forall|i: int| 0 <= i < ps.len() ==> plain_ref(#[trigger] ps[i]),
    ensures
        ref_paths(ps.map_values(|p: Seq<char>| "- "@ + p)) == ps,
    decreases ps.len(),
{
    if ps.len() > 0 {
        let front = ps.drop_last();
        assert forall|i: int| 0 <= i < front.len() implies plain_ref(#[trigger] front[i]) by {
            assert(front[i] == ps[i]);
        }
        lemma_ref_paths_of_dashed(front);
        let m = ps.map_values(|p: Seq<char>| "- "@ + p);
        assert(m.drop_last() =~= front.map_values(|p: Seq<char>| "- "@ + p));
        assert(plain_ref(ps[ps.len() - 1]));
        lemma_trim_plain_dash(ps.last());
        assert(m.last() == "- "@ + ps.last());
        assert(front.push(ps.last()) =~= ps);
    } else {
        assert(ps.map_values(|p: Seq<char>| "- "@ + p) =~= Seq::<Seq<char>>::empty());
    }
}

proof fn lemma_lower_concat(a: Seq<char>, b: Seq<char>)
    ensures
        lower_all(a + b) == lower_all(a) + lower_all(b),
{
    assert(lower_all(a + b) =~= lower_all(a) + lower_all(b));
}

proof fn lemma_lower_newline(c: char)
    ensures
        (crate::text::lower(c) == '\n') == (c == '\n'),
{
}

/// The facts about the two markers and their needles that the search
/// depends on.
proof fn lemma_marker_words()
    ensures
        needle_images().len() == 30,
        needle_files().len() == 29,
        needle_images()[0] == '\n' && needle_images()[1] == '\n' && needle_images()[2] == 'a',
        needle_files()[0] == '\n' && needle_files()[1] == '\n' && needle_files()[2] == 'a',
        forall|k: int| 2 <= k < 30 ==> #[trigger] needle_images()[k] != '\n',
        forall|k: int| 2 <= k < 29 ==> #[trigger] needle_files()[k] != '\n',
        !images_marker().contains('\n'),
        !files_marker().contains('\n'),
        images_marker().last() == ':',
        files_marker().last() == ':',
        images_marker().len() >= 30,
        files_marker().len() >= 30,
        ends_with(images_marker(), "):"@),
        ends_with(files_marker(), "):"@),
        needle_images() == "\n\n"@ + lower_all(images_marker()).take(28),
        needle_files() == "\n\n"@ + lower_all(files_marker()).take(27),
{
    reveal_strlit("\n\nattached images (local files");
    reveal_strlit("\n\nattached files (local files");
    reveal_strlit("Attached images (local files \u{2014} open them to view):");
    reveal_strlit("Attached files (local files, open them to read or view):");
    reveal_strlit("):");
    reveal_strlit("\n\n");
    let im = images_marker();
    let fm = files_marker();
    assert(!im.contains('\n')) by {
        assert forall|k: int| 0 <= k < im.len() implies im[k] != '\n' by {}
    }
    assert(!fm.contains('\n')) by {
        assert forall|k: int| 0 <= k < fm.len() implies fm[k] != '\n' by {}
    }
    assert(im.skip(im.len() - 2) =~= "):"@);
    assert(fm.skip(fm.len() - 2) =~= "):"@);
    assert(needle_images() =~= "\n\n"@ + lower_all(im).take(28));
    assert(needle_files() =~= "\n\n"@ + lower_all(fm).take(27));
}

proof fn lemma_no_marker_without_newline(s: Seq<char>)
    requires
        !s.contains('\n'),
    ensures
        no_marker(s),
{
    lemma_marker_words();
    assert forall|j: int| !marker_at(lower_all(s), j) by {
        if marker_at(lower_all(s), j) {
            let n = if occurs_at(lower_all(s), needle_images(), j) {
                needle_images()
            } else {
                needle_files()
            };
            assert(occurs_at(lower_all(s), n, j));
            assert(lower_all(s).subrange(j, j + n.len())[0] == n[0]);
            assert(lower_all(s)[j] == '\n');
            lemma_lower_newline(s[j]);
            assert(s[j] == '\n');
        }
    }
}

/// In `body`, a blank line, a marker line and the refs, the search finds
/// the marker right after the body.
proof fn lemma_marker_found(body: Seq<char>, images: bool, rest: Seq<char>)
    requires
        no_marker(body),
        body.len() == 0 || body.last() != '\n',
        rest.len() > 0,
    ensures
        ({
            let marker = if images {
                images_marker()
            } else {
                files_marker()
            };
            marker_from(body + "\n\n"@ + marker + "\n"@ + rest, 0) == Some(
                (body.len() as int, (body.len() + 2 + marker.len() + 1) as int),
            )
        }),
{
    lemma_marker_words();
    reveal_strlit("\n\n");
    reveal_strlit("\n");
    let marker = if images {
        images_marker()
    } else {
        files_marker()
    };
    let needle = if images {
        needle_images()
    } else {
        needle_files()
    };
    let nl = needle.len() as int;
    let c = body + "\n\n"@ + marker + "\n"@ + rest;
    let l = body.len() as int;
    let ml = marker.len() as int;
    let lc = lower_all(c);
    lemma_lower_concat(body, "\n\n"@);
    lemma_lower_concat(body + "\n\n"@, marker);
    lemma_lower_concat(body + "\n\n"@ + marker, "\n"@);
    lemma_lower_concat(body + "\n\n"@ + marker + "\n"@, rest);
    assert(lower_all("\n\n"@) =~= "\n\n"@);
    assert(lower_all("\n"@) =~= "\n"@);
    let lm = lower_all(marker);
    assert(lm.len() == ml);
    assert(lc == lower_all(body) + "\n\n"@ + lm + "\n"@ + lower_all(rest));
    assert(lc.len() == c.len());
    assert(lc[l] == '\n' && lc[l + 1] == '\n');
    // The needle sits right after the body.
    assert(occurs_at(lc, needle, l)) by {
        assert(lc.subrange(l, l + nl) =~= needle) by {
            assert forall|k: int| 0 <= k < nl implies lc.subrange(l, l + nl)[k] == needle[k] by {
                if k >= 2 {
                    assert(k - 2 < ml);
                    assert(lc[l + k] == lm[k - 2]);
                    assert(needle[k] == lm.take(nl - 2)[k - 2]);
                }
            }
        }
    }
    assert(marker_at(lc, l));
    // And nowhere before it.
    assert forall|j: int| 0 <= j < l implies !marker_at(lc, j) by {
        if marker_at(lc, j) {
            let n = if occurs_at(lc, needle_images(), j) {
                needle_images()
            } else {
                needle_files()
            };
            assert(occurs_at(lc, n, j));
            let w = n.len() as int;
            assert(lc.subrange(j, j + w) == n);
            if j + w <= l {
                assert(lc.subrange(j, j + w) =~= lower_all(body).subrange(j, j + w));
                assert(occurs_at(lower_all(body), n, j));
                assert(marker_at(lower_all(body), j));
            } else if j == l - 1 {
                assert(lc.subrange(j, j + w)[2] == n[2]);
                assert(lc[l + 1] == '\n');
            } else {
                let k = l - j;
                assert(2 <= k < w);
                assert(lc.subrange(j, j + w)[k] == n[k]);
                assert(lc[l] == '\n');
                assert(n[k] != '\n');
            }
        }
    }
    assert(is_first_marker(lc, 0, l));
    lemma_first_marker_unique(lc, 0, l);
    // The marker line runs to the newline after it.
    let tail = c.skip(l + 2);
    assert(tail =~= marker + "\n"@ + rest);
    let f = |x: char| x == '\n';
    assert(crate::text::is_first_where(tail, f, ml)) by {
        assert(tail[ml] == '\n');
        assert forall|j: int| 0 <= j < ml implies !f(#[trigger] tail[j]) by {
            assert(tail[j] == marker[j]);
            assert(marker.contains(marker[j]));
        }
    }
    crate::text::lemma_first_where_unique(tail, f, ml);
    assert(line_end(c, l + 2) == l + 2 + ml);
    assert(c.subrange(l + 2, l + 2 + ml) =~= marker);
    assert(trim_end_cr(marker) == marker) by {
        assert(marker.last() != '\r');
    }
    assert(l + 2 + ml + 1 < c.len());
}

proof fn lemma_trim_end_len(s: Seq<char>)
    ensures
        trim_end(s).len() <= s.len(),
    decreases s.len(),
{
    if s.len() > 0 && crate::text::is_ws(s.last()) {
        lemma_trim_end_len(s.drop_last());
    }
}

proof fn lemma_ref_lines_len(ps: Seq<Seq<char>>)
    requires
        ps.len() > 0,
    ensures
        ref_lines(ps).len() >= 2,
{
    reveal_strlit("- ");
    reveal_strlit("\n- ");
}

/// Attaching files to a prompt and reading the message back gives the
/// prompt and the paths again, as long as the prompt cannot be mistaken
/// for a trailer (no marker line inside it, no trailing blanks, and not
/// one of the bodies an attachment-only send gets) and each path is a
/// single trimmed line. An attachment-only send reads back as an empty
/// prompt.
pub proof fn law_attachments_round_trip(text: Seq<char>, paths: Seq<Seq<char>>)
    requires
        paths.len() > 0,
        forall|i: int| 0 <= i < paths.len() ==> plain_ref(#[trigger] paths[i]),
        trim_end(text) == text,
        no_marker(text),
        trim(text) != attachment_only_spec(),
        trim(text) != file_only_spec(),
    ensures
        parse_spec(with_attachments_spec(text, paths)) == (text, paths),
{
    reveal_strlit("See the attached image(s).");
    reveal_strlit("See the attached file(s).");
    reveal_strlit("\n\n");
    reveal_strlit("\n");
    let images = images_only(paths);
    let body = if text.len() == 0 {
        if images {
            attachment_only_spec()
        } else {
            file_only_spec()
        }
    } else {
        text
    };
    let marker = if images {
        images_marker()
    } else {
        files_marker()
    };
    let rest = ref_lines(paths);
    lemma_ref_lines_len(paths);
    if text.len() == 0 {
        assert(!body.contains('\n')) by {
            assert forall|k: int| 0 <= k < body.len() implies body[k] != '\n' by {}
        }
        lemma_no_marker_without_newline(body);
        assert(body.last() == '.');
        assert(trim_end(body) == body);
        assert(crate::text::trim_start(body) == body);
        assert(trim(body) == body);
    } else {
        if crate::text::is_ws(text.last()) {
            lemma_trim_end_len(text.drop_last());
        }
        assert(text.last() != '\n');
    }
    lemma_marker_found(body, images, rest);
    let c = body + "\n\n"@ + marker + "\n"@ + rest;
    assert(c == with_attachments_spec(text, paths));
    let l = body.len() as int;
    let rs = (body.len() + 2 + marker.len() + 1) as int;
    assert(c.skip(rs) =~= rest);
    assert(c.take(l) =~= body);
    assert forall|i: int| 0 <= i < paths.len() implies !(#[trigger] paths[i]).contains('\n') by {
        assert(plain_ref(paths[i]));
    }
    lemma_split_refs(paths);
    lemma_ref_paths_of_dashed(paths);
    assert(ref_paths(split_any(c.skip(rs), '\n', '\n')) == paths);
}


/// A send that is only attachments reads on the rail as what was attached:
/// one image is "Attached image" and more are "<n> attached images"; when
/// any path is not an image, one is "Attached file" and more are "<n>
/// attached files". Each path is a single trimmed line.
pub proof fn law_attachment_only_sends_name_what_was_sent(paths: Seq<Seq<char>>)
    requires
        paths.len() > 0,
        forall|i: int| 0 <= i < paths.len() ==> plain_ref(#[trigger] paths[i]),
    ensures
        (forall|i: int| 0 <= i < paths.len() ==> (#[trigger] format_by_extension_spec(paths[i])) is Some)
            ==> rail_text_spec(with_attachments_spec(seq![], paths)) == if paths.len() == 1 {
            "Attached image"@
        } else {
            decimal(paths.len()) + " attached images"@
        },
        (exists|i: int| 0 <= i < paths.len() && (#[trigger] format_by_extension_spec(paths[i])) is None)
            ==> rail_text_spec(with_attachments_spec(seq![], paths)) == if paths.len() == 1 {
            "Attached file"@
        } else {
            decimal(paths.len()) + " attached files"@
        },
{
    let text = Seq::<char>::empty();
    reveal_strlit("See the attached image(s).");
    reveal_strlit("See the attached file(s).");
    assert(trim_start(text) == text);
    assert(trim_end(text) == text);
    assert(trim(text) == text);
    assert(no_marker(text)) by {
        reveal_strlit("\n\nattached images (local files");
        reveal_strlit("\n\nattached files (local files");
        assert forall|j: int| !marker_at(lower_all(text), j) by {
            assert(lower_all(text).len() == 0);
        }
    }
    assert(text != attachment_only_spec());
    assert(text != file_only_spec());
    law_attachments_round_trip(text, paths);
    assert(parse_spec(with_attachments_spec(text, paths)) == (text, paths));
}

} // verus!
