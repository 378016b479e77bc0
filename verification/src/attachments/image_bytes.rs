//! Choose the decoder from encoded bytes, not an untrusted filename or MIME.
use vstd::prelude::*;
use crate::attachments::staging::ImageFormat;

verus! {

/// `bytes` begins with `p`.
pub open spec fn bytes_start(bytes: Seq<u8>, p: Seq<u8>) -> bool {
    p.len() <= bytes.len() && bytes.take(p.len() as int) == p
}

/// Raster signatures are authoritative. SVG has no fixed binary signature,
/// so the declared format remains the fallback, as for unknown or corrupt
/// data.
pub open spec fn encoded_format_spec(bytes: Seq<u8>, fallback: ImageFormat) -> ImageFormat {
    if bytes_start(bytes, seq![0x89u8, 0x50, 0x4E, 0x47, 0x0D, 0x0A, 0x1A, 0x0A]) {
        ImageFormat::Png
    } else if bytes_start(bytes, seq![0xFFu8, 0xD8, 0xFF]) {
        ImageFormat::Jpeg
    } else if bytes_start(bytes, seq![0x47u8, 0x49, 0x46, 0x38, 0x37, 0x61]) || bytes_start(
        bytes,
        seq![0x47u8, 0x49, 0x46, 0x38, 0x39, 0x61],
    ) {
        ImageFormat::Gif
    } else if bytes_start(bytes, seq![0x52u8, 0x49, 0x46, 0x46]) && bytes.len() >= 12
        && bytes.subrange(8, 12) == seq![0x57u8, 0x45, 0x42, 0x50] {
        ImageFormat::Webp
    } else if bytes_start(bytes, seq![0x42u8, 0x4D]) {
        ImageFormat::Bmp
    } else if bytes_start(bytes, seq![0x49u8, 0x49, 0x2A, 0x00]) || bytes_start(
        bytes,
        seq![0x4Du8, 0x4D, 0x00, 0x2A],
    ) {
        ImageFormat::Tiff
    } else {
        fallback
    }
}

fn starts_at(bytes: &[u8], at: usize, p: &[u8]) -> (r: bool)
    ensures
        r == (at + p@.len() <= bytes@.len() && bytes@.subrange(at as int, at + p@.len()) == p@),
{
    if at > bytes.len() || p.len() > bytes.len() - at {
        return false;
    }
    let mut k: usize = 0;
    while k < p.len()
        invariant
            k <= p@.len(),
            at + p@.len() <= bytes@.len(),
            bytes@.len() == bytes.len(),
            forall|j: int| 0 <= j < k ==> bytes@[at + j] == p@[j],
        decreases p@.len() - k,
    {
        if bytes[at + k] != p[k] {
            assert(bytes@.subrange(at as int, at + p@.len())[k as int] != p@[k as int]);
            return false;
        }
        k += 1;
    }
    assert(bytes@.subrange(at as int, at + p@.len()) =~= p@);
    true
}

fn starts(bytes: &[u8], p: &[u8]) -> (r: bool)
    ensures
        r == bytes_start(bytes@, p@),
{
    let r = starts_at(bytes, 0, p);
    assert(bytes@.subrange(0, p@.len() as int) == bytes@.take(p@.len() as int));
    r
}

/// The format the bytes are, by their signature, else `fallback`.
pub fn encoded_format(bytes: &[u8], fallback: ImageFormat) -> (r: ImageFormat)
    ensures
        r == encoded_format_spec(bytes@, fallback),
{
    let png: [u8; 8] = [0x89, 0x50, 0x4E, 0x47, 0x0D, 0x0A, 0x1A, 0x0A];
    let jpeg: [u8; 3] = [0xFF, 0xD8, 0xFF];
    let gif7: [u8; 6] = [0x47, 0x49, 0x46, 0x38, 0x37, 0x61];
    let gif9: [u8; 6] = [0x47, 0x49, 0x46, 0x38, 0x39, 0x61];
    let riff: [u8; 4] = [0x52, 0x49, 0x46, 0x46];
    let webp: [u8; 4] = [0x57, 0x45, 0x42, 0x50];
    let bmp: [u8; 2] = [0x42, 0x4D];
    let tiff_le: [u8; 4] = [0x49, 0x49, 0x2A, 0x00];
    let tiff_be: [u8; 4] = [0x4D, 0x4D, 0x00, 0x2A];
    assert(png@ == seq![0x89u8, 0x50, 0x4E, 0x47, 0x0D, 0x0A, 0x1A, 0x0A]);
    assert(jpeg@ == seq![0xFFu8, 0xD8, 0xFF]);
    assert(gif7@ == seq![0x47u8, 0x49, 0x46, 0x38, 0x37, 0x61]);
    assert(gif9@ == seq![0x47u8, 0x49, 0x46, 0x38, 0x39, 0x61]);
    assert(riff@ == seq![0x52u8, 0x49, 0x46, 0x46]);
    assert(webp@ == seq![0x57u8, 0x45, 0x42, 0x50]);
    assert(bmp@ == seq![0x42u8, 0x4D]);
    assert(tiff_le@ == seq![0x49u8, 0x49, 0x2A, 0x00]);
    assert(tiff_be@ == seq![0x4Du8, 0x4D, 0x00, 0x2A]);
    if starts(bytes, png.as_slice()) {
        ImageFormat::Png
    } else if starts(bytes, jpeg.as_slice()) {
        ImageFormat::Jpeg
    } else if starts(bytes, gif7.as_slice()) || starts(bytes, gif9.as_slice()) {
        ImageFormat::Gif
    } else if starts(bytes, riff.as_slice()) && starts_at(bytes, 8, webp.as_slice()) {
        ImageFormat::Webp
    } else if starts(bytes, bmp.as_slice()) {
        ImageFormat::Bmp
    } else if starts(bytes, tiff_le.as_slice()) || starts(bytes, tiff_be.as_slice()) {
        ImageFormat::Tiff
    } else {
        fallback
    }
}

} // verus!
