//! Which local files can be staged for upload, and under what name: the
//! image formats the pipeline supports, by extension, and the checks a file
//! passes before it is staged as an image or as UTF-8 text.
use vstd::prelude::*;
use crate::attachments::image_bytes::{encoded_format, encoded_format_spec};
use crate::text::{
    append, chars_eq, chars_of, decimal, decimal_chars, is_ascii_alnum, last_index_of,
    last_index_of_exec, lower_all, lower_chars, slice_of, split_any, split_any_exec, string_of,
};

verus! {

/// The image formats the whole pipeline supports.
#[derive(Debug, Clone, Copy, PartialEq, Eq, Structural)]
pub enum ImageFormat {
    Png,
    Jpeg,
    Webp,
    Gif,
    Svg,
    Bmp,
    Tiff,
}

/// The largest file that is staged: 24 MB.
pub const MAX_ATTACHMENT_BYTES: u64 = 25165824;

/// The extensions the pipeline takes, each with its format: one table, so
/// the check that stages a file and the notice that names the extensions
/// cannot drift apart.
pub open spec fn by_extension() -> Seq<(Seq<char>, ImageFormat)> {
    seq![
        ("png"@, ImageFormat::Png),
        ("jpg"@, ImageFormat::Jpeg),
        ("jpeg"@, ImageFormat::Jpeg),
        ("gif"@, ImageFormat::Gif),
        ("webp"@, ImageFormat::Webp),
        ("svg"@, ImageFormat::Svg),
        ("bmp"@, ImageFormat::Bmp),
        ("tif"@, ImageFormat::Tiff),
        ("tiff"@, ImageFormat::Tiff),
    ]
}

fn by_extension_table() -> (r: Vec<(&'static str, ImageFormat)>)
    ensures
        r@.len() == by_extension().len(),
        forall|i: int|
            0 <= i < r@.len() ==> (#[trigger] r@[i]).0@ == by_extension()[i].0 && r@[i].1
                == by_extension()[i].1,
{
    let r = vec![
        ("png", ImageFormat::Png),
        ("jpg", ImageFormat::Jpeg),
        ("jpeg", ImageFormat::Jpeg),
        ("gif", ImageFormat::Gif),
        ("webp", ImageFormat::Webp),
        ("svg", ImageFormat::Svg),
        ("bmp", ImageFormat::Bmp),
        ("tif", ImageFormat::Tiff),
        ("tiff", ImageFormat::Tiff),
    ];
    assert(r@.len() == 9);
    r
}

/// The format of the first table row whose extension is `ext`.
pub open spec fn format_for(table: Seq<(Seq<char>, ImageFormat)>, ext: Seq<char>) -> Option<ImageFormat>
    decreases table.len(),
{
    if table.len() == 0 {
        None
    } else if table[0].0 == ext {
        Some(table[0].1)
    } else {
        format_for(table.drop_first(), ext)
    }
}

/// The last component of `parts` that names something: empty parts and `.`
/// are skipped, as `Path::components` skips them.
pub open spec fn last_normal(parts: Seq<Seq<char>>) -> Option<Seq<char>>
    decreases parts.len(),
{
    if parts.len() == 0 {
        None
    } else if parts.last().len() == 0 || parts.last() == "."@ {
        last_normal(parts.drop_last())
    } else {
        Some(parts.last())
    }
}

/// `Path::file_name`: the final component, unless the path ends in `..`.
pub open spec fn file_name_spec(path: Seq<char>) -> Option<Seq<char>> {
    match last_normal(split_any(path, '/', '/')) {
        Some(n) => if n == ".."@ {
            None
        } else {
            Some(n)
        },
        None => None,
    }
}

/// `Path::extension` of a file name: what follows its last `.`, unless
/// nothing comes before that dot.
pub open spec fn extension_of(name: Seq<char>) -> Option<Seq<char>> {
    match last_index_of(name, '.') {
        Some(i) => if i == 0 {
            None
        } else {
            Some(name.skip(i + 1))
        },
        None => None,
    }
}

/// The image format a path's extension names, in any case.
pub open spec fn format_by_extension_spec(path: Seq<char>) -> Option<ImageFormat> {
    match file_name_spec(path) {
        Some(n) => match extension_of(n) {
            Some(e) => format_for(by_extension(), lower_all(e)),
            None => None,
        },
        None => None,
    }
}

fn last_normal_exec(parts: &Vec<Vec<char>>) -> (r: Option<usize>)
    ensures
        match last_normal(crate::text::chars_view(parts@)) {
            Some(n) => r matches Some(i) && i < parts@.len() && parts@[i as int]@ == n,
            None => r is None,
        },
{
    let ghost pv = crate::text::chars_view(parts@);
    let dot = chars_of(".");
    let mut i: usize = parts.len();
    assert(pv.take(i as int) == pv);
    while i > 0
        invariant
            i <= parts@.len(),
            pv == crate::text::chars_view(parts@),
            dot@ == "."@,
            last_normal(pv) == last_normal(pv.take(i as int)),
        decreases i,
    {
        assert(pv.take(i as int).last() == parts@[i - 1]@);
        assert(pv.take(i as int).drop_last() == pv.take(i - 1));
        let p = &parts[i - 1];
        if p.len() > 0 && !chars_eq(p.as_slice(), dot.as_slice()) {
            return Some(i - 1);
        }
        i -= 1;
    }
    None
}

/// The file name of `path`, by `Path::file_name`'s rules.
pub fn file_name_chars(path: &[char]) -> (r: Option<Vec<char>>)
    ensures
        match file_name_spec(path@) {
            Some(n) => r matches Some(v) && v@ == n,
            None => r is None,
        },
{
    let parts = split_any_exec(path, '/', '/');
    assert(crate::text::chars_view(parts@) =~= split_any(path@, '/', '/'));
    match last_normal_exec(&parts) {
        Some(i) => {
            let n = slice_of(parts[i].as_slice(), 0, parts[i].len());
            assert(n@ == parts@[i as int]@);
            if chars_eq(n.as_slice(), chars_of("..").as_slice()) {
                None
            } else {
                Some(n)
            }
        },
        None => None,
    }
}

fn extension_chars(name: &[char]) -> (r: Option<Vec<char>>)
    ensures
        match extension_of(name@) {
            Some(e) => r matches Some(v) && v@ == e,
            None => r is None,
        },
{
    let n = name.len();
    match last_index_of_exec(name, '.') {
        Some(i) => {
            if i == 0 {
                None
            } else {
                let e = slice_of(name, i + 1, n);
                assert(e@ == name@.skip(i + 1));
                Some(e)
            }
        },
        None => None,
    }
}

fn format_for_exec(ext: &[char]) -> (r: Option<ImageFormat>)
    ensures
        r == format_for(by_extension(), ext@),
{
    let table = by_extension_table();
    let mut i: usize = 0;
    assert(by_extension().skip(0) == by_extension());
    while i < table.len()
        invariant
            i <= table@.len(),
            table@.len() == by_extension().len(),
            forall|j: int|
                0 <= j < table@.len() ==> (#[trigger] table@[j]).0@ == by_extension()[j].0
                    && table@[j].1 == by_extension()[j].1,
            format_for(by_extension(), ext@) == format_for(by_extension().skip(i as int), ext@),
        decreases table@.len() - i,
    {
        let (cand, format) = table[i];
        assert(by_extension().skip(i as int)[0] == by_extension()[i as int]);
        assert(by_extension().skip(i as int).drop_first() == by_extension().skip(i + 1));
        if chars_eq(chars_of(cand).as_slice(), ext) {
            return Some(format);
        }
        i += 1;
    }
    None
}

/// The image format of a path, from its extension (`png`, `JPG`, ...).
pub fn format_by_extension(path: &str) -> (r: Option<ImageFormat>)
    ensures
        r == format_by_extension_spec(path@),
{
    match file_name_chars(chars_of(path).as_slice()) {
        Some(n) => match extension_chars(n.as_slice()) {
            Some(e) => format_for_exec(lower_chars(e.as_slice()).as_slice()),
            None => None,
        },
        None => None,
    }
}

/// The extensions of `table`, joined by ", ".
pub open spec fn extension_list(table: Seq<(Seq<char>, ImageFormat)>) -> Seq<char>
    decreases table.len(),
{
    if table.len() == 0 {
        seq![]
    } else if table.len() == 1 {
        table[0].0
    } else {
        extension_list(table.drop_last()) + ", "@ + table.last().0
    }
}

/// The same extensions, spelled out for a message that has to name them:
/// every accepted spelling, `jpeg` beside `jpg` and `tiff` beside `tif`.
pub fn supported_extensions() -> (r: String)
    ensures
        r@ == extension_list(by_extension()),
{
    let table = by_extension_table();
    let mut v: Vec<char> = Vec::new();
    let mut i: usize = 0;
    while i < table.len()
        invariant
            i <= table@.len(),
            table@.len() == by_extension().len(),
            forall|j: int|
                0 <= j < table@.len() ==> (#[trigger] table@[j]).0@ == by_extension()[j].0
                    && table@[j].1 == by_extension()[j].1,
            v@ == extension_list(by_extension().take(i as int)),
        decreases table@.len() - i,
    {
        let (ext, _) = table[i];
        assert(by_extension().take(i + 1).drop_last() == by_extension().take(i as int));
        assert(by_extension().take(i + 1).last() == by_extension()[i as int]);
        if i > 0 {
            append(&mut v, chars_of(", ").as_slice());
        }
        append(&mut v, chars_of(ext).as_slice());
        i += 1;
    }
    assert(by_extension().take(by_extension().len() as int) == by_extension());
    string_of(v.as_slice())
}

/// The extension a staged image's name gets when it has none.
pub open spec fn format_extension_spec(f: ImageFormat) -> Seq<char> {
    match f {
        ImageFormat::Png => "png"@,
        ImageFormat::Jpeg => "jpeg"@,
        ImageFormat::Webp => "webp"@,
        ImageFormat::Gif => "gif"@,
        ImageFormat::Svg => "svg"@,
        ImageFormat::Bmp => "bmp"@,
        ImageFormat::Tiff => "tiff"@,
    }
}

impl ImageFormat {
    /// The format's usual extension, lower case.
    pub fn extension(self) -> (r: &'static str)
        ensures
            r@ == format_extension_spec(self),
    {
        match self {
            ImageFormat::Png => "png",
            ImageFormat::Jpeg => "jpeg",
            ImageFormat::Webp => "webp",
            ImageFormat::Gif => "gif",
            ImageFormat::Svg => "svg",
            ImageFormat::Bmp => "bmp",
            ImageFormat::Tiff => "tiff",
        }
    }
}

/// A name already carries a type: a non-empty stem, a dot, and two to five
/// ASCII letters or digits.
pub open spec fn has_extension(name: Seq<char>) -> bool {
    match last_index_of(name, '.') {
        Some(i) => {
            let ext = name.skip(i + 1);
            i > 0 && 2 <= ext.len() <= 5 && forall|k: int| 0 <= k < ext.len() ==> is_ascii_alnum(#[trigger] ext[k])
        },
        None => false,
    }
}

pub open spec fn ensure_extension_spec(name: Seq<char>, format: ImageFormat) -> Seq<char> {
    if has_extension(name) {
        name
    } else {
        name + "."@ + format_extension_spec(format)
    }
}

fn all_alnum(v: &[char]) -> (r: bool)
    ensures
        r == forall|k: int| 0 <= k < v@.len() ==> is_ascii_alnum(#[trigger] v@[k]),
{
    let mut i: usize = 0;
    while i < v.len()
        invariant
            i <= v@.len(),
            forall|k: int| 0 <= k < i ==> is_ascii_alnum(#[trigger] v@[k]),
        decreases v@.len() - i,
    {
        let c = v[i];
        if !(('a' <= c && c <= 'z') || ('A' <= c && c <= 'Z') || ('0' <= c && c <= '9')) {
            return false;
        }
        i += 1;
    }
    true
}

/// Pasted screenshots often arrive as a bare "image": make sure the staged
/// name carries a type-matching extension.
pub fn ensure_extension(name: &str, format: ImageFormat) -> (r: String)
    ensures
        r@ == ensure_extension_spec(name@, format),
{
    let v = chars_of(name);
    let n = v.len();
    let has = match last_index_of_exec(v.as_slice(), '.') {
        Some(i) => {
            let ext = slice_of(v.as_slice(), i + 1, n);
            assert(ext@ == v@.skip(i + 1));
            i > 0 && 2 <= ext.len() && ext.len() <= 5 && all_alnum(ext.as_slice())
        },
        None => false,
    };
    if has {
        string_of(v.as_slice())
    } else {
        let mut w = v;
        append(&mut w, chars_of(".").as_slice());
        append(&mut w, chars_of(format.extension()).as_slice());
        string_of(w.as_slice())
    }
}

/// A run of bytes is well-formed UTF-8 (the Unicode standard's table of
/// well-formed byte sequences).
pub open spec fn utf8_from(b: Seq<u8>, i: int) -> bool
    decreases b.len() - i,
{
    if i < 0 || i >= b.len() {
        true
    } else {
        let c0 = b[i];
        let cont = |k: int| i + k < b.len() && 0x80 <= b[i + k] <= 0xBF;
        if c0 <= 0x7F {
            utf8_from(b, i + 1)
        } else if 0xC2 <= c0 <= 0xDF {
            cont(1) && utf8_from(b, i + 2)
        } else if 0xE0 <= c0 <= 0xEF {
            let lo: u8 = if c0 == 0xE0 { 0xA0 } else { 0x80 };
            let hi: u8 = if c0 == 0xED { 0x9F } else { 0xBF };
            i + 1 < b.len() && lo <= b[i + 1] <= hi && cont(2) && utf8_from(b, i + 3)
        } else if 0xF0 <= c0 <= 0xF4 {
            let lo: u8 = if c0 == 0xF0 { 0x90 } else { 0x80 };
            let hi: u8 = if c0 == 0xF4 { 0x8F } else { 0xBF };
            i + 1 < b.len() && lo <= b[i + 1] <= hi && cont(2) && cont(3) && utf8_from(b, i + 4)
        } else {
            false
        }
    }
}

pub open spec fn well_formed_utf8(b: Seq<u8>) -> bool {
    utf8_from(b, 0)
}

/// `std::str::from_utf8(bytes).is_ok()`: std documents that it accepts
/// exactly the well-formed UTF-8 sequences.
#[verifier::external_body]
fn is_utf8(bytes: &[u8]) -> (r: bool)
    ensures
        r == well_formed_utf8(bytes@),
{
    std::str::from_utf8(bytes).is_ok()
}

/// What a staged file is.
#[derive(Debug, Clone, Copy, PartialEq, Eq, Structural)]
pub enum StagedKind {
    /// An image, with the format its bytes decode as.
    Image(ImageFormat),
    /// UTF-8 text.
    Text,
}

pub open spec fn unreadable_spec(name: Seq<char>) -> Seq<char> {
    name + " could not be read."@
}

pub open spec fn too_large_spec(name: Seq<char>) -> Seq<char> {
    name + " is too large (24 MB max)."@
}

pub open spec fn not_a_file_spec(name: Seq<char>) -> Seq<char> {
    name + " is not a file."@
}

pub open spec fn unsupported_spec(name: Seq<char>) -> Seq<char> {
    name + " is not a supported image or UTF-8 text file."@
}

fn name_then(name: &str, tail: &str) -> (r: String)
    ensures
        r@ == name@ + tail@,
{
    let mut v = chars_of(name);
    append(&mut v, chars_of(tail).as_slice());
    string_of(v.as_slice())
}

/// The message for a file that could not be opened or read.
pub fn unreadable(name: &str) -> (r: String)
    ensures
        r@ == unreadable_spec(name@),
{
    name_then(name, " could not be read.")
}

/// What the file's metadata rules out before its bytes are read: it must be
/// a file, and no larger than the limit.
pub fn stage_checks(name: &str, is_file: bool, len: u64) -> (r: Result<(), String>)
    ensures
        !is_file ==> (r matches Err(m) && m@ == not_a_file_spec(name@)),
        is_file && len > MAX_ATTACHMENT_BYTES ==> (r matches Err(m) && m@ == too_large_spec(name@)),
        is_file && len <= MAX_ATTACHMENT_BYTES ==> r is Ok,
{
    if !is_file {
        return Err(name_then(name, " is not a file."));
    }
    if len > MAX_ATTACHMENT_BYTES {
        return Err(name_then(name, " is too large (24 MB max)."));
    }
    Ok(())
}

/// What the bytes read make of the file: an image when its extension names
/// a format (decoded by what the bytes say they are), else UTF-8 text
/// without NUL bytes. The name of an image gets an extension if it has
/// none.
pub open spec fn stage_contents_spec(path: Seq<char>, name: Seq<char>, bytes: Seq<u8>) -> Result<
    (Seq<char>, StagedKind),
    Seq<char>,
> {
    if bytes.len() > MAX_ATTACHMENT_BYTES {
        Err(too_large_spec(name))
    } else {
        match format_by_extension_spec(path) {
            Some(f) => Ok(
                (ensure_extension_spec(name, f), StagedKind::Image(encoded_format_spec(bytes, f))),
            ),
            None => if bytes.contains(0u8) || !well_formed_utf8(bytes) {
                Err(unsupported_spec(name))
            } else {
                Ok((name, StagedKind::Text))
            },
        }
    }
}

fn has_nul(bytes: &[u8]) -> (r: bool)
    ensures
        r == bytes@.contains(0u8),
{
    let mut i: usize = 0;
    while i < bytes.len()
        invariant
            i <= bytes@.len(),
            forall|k: int| 0 <= k < i ==> bytes@[k] != 0u8,
        decreases bytes@.len() - i,
    {
        if bytes[i] == 0 {
            assert(bytes@[i as int] == 0u8);
            return true;
        }
        i += 1;
    }
    false
}

/// Stage the bytes read from `path` under `name`. `Err` carries the
/// user-facing message.
pub fn stage_contents(path: &str, name: &str, bytes: &[u8]) -> (r: Result<(String, StagedKind), String>)
    ensures
        match stage_contents_spec(path@, name@, bytes@) {
            Ok((n, k)) => r matches Ok((rn, rk)) && rn@ == n && rk == k,
            Err(m) => r matches Err(rm) && rm@ == m,
        },
{
    if bytes.len() as u64 > MAX_ATTACHMENT_BYTES {
        return Err(name_then(name, " is too large (24 MB max)."));
    }
    match format_by_extension(path) {
        Some(f) => Ok((ensure_extension(name, f), StagedKind::Image(encoded_format(bytes, f)))),
        None => {
            if has_nul(bytes) || !is_utf8(bytes) {
                Err(name_then(name, " is not a supported image or UTF-8 text file."))
            } else {
                Ok((owned_name(name), StagedKind::Text))
            }
        },
    }
}

fn owned_name(name: &str) -> (r: String)
    ensures
        r@ == name@,
{
    crate::text::owned(name)
}

} // verus!
