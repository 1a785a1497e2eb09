//! Screen preview: once a second the newest captured
//! BGRA frame is scaled to 640x360, turned into RGBA, encoded as PNG and
//! sent to the UI as a `data:` URL. The PNG and base64 encoders are the
//! `image` and `base64` crates.

use vstd::prelude::*;
use base64::Engine;
use crate::video::sink::{bgra_to_rgba, scale_bgra, scaled, swapped};
use crate::text::push_str;
use vstd::arithmetic::div_mod::lemma_fundamental_div_mod_converse;

verus! {

/// Preview width in pixels.
pub const PREVIEW_W: u32 = 640;
/// Preview height in pixels.
pub const PREVIEW_H: u32 = 360;

/// The PNG file the `image` crate writes for `w`x`h` RGBA8 `pixels`.
pub uninterp spec fn png_rgba8(pixels: Seq<u8>, w: u32, h: u32) -> Seq<u8>;

/// The base64 alphabet (RFC 4648, standard): `A-Z`, `a-z`, `0-9`, `+`,
/// `/` for the six-bit values `0..64`.
pub open spec fn b64_char(v: int) -> char {
    if v < 26 {
        ((v + 65) as u32) as char
    } else if v < 52 {
        ((v - 26 + 97) as u32) as char
    } else if v < 62 {
        ((v - 52 + 48) as u32) as char
    } else if v == 62 {
        '+'
    } else {
        '/'
    }
}

/// The padded standard base64 text of `bytes`: each group of three bytes
/// becomes four characters of six bits each; a final group of one or two
/// bytes is zero-filled and padded with `=` to four characters.
pub open spec fn base64_standard(bytes: Seq<u8>) -> Seq<char>
    decreases bytes.len(),
{
    if bytes.len() == 0 {
        Seq::empty()
    } else if bytes.len() == 1 {
        let a = bytes[0] as int;
        seq![b64_char(a / 4), b64_char((a % 4) * 16), '=', '=']
    } else if bytes.len() == 2 {
        let a = bytes[0] as int;
        let b = bytes[1] as int;
        seq![b64_char(a / 4), b64_char((a % 4) * 16 + b / 16), b64_char((b % 16) * 4), '=']
    } else {
        let a = bytes[0] as int;
        let b = bytes[1] as int;
        let c = bytes[2] as int;
        seq![
            b64_char(a / 4),
            b64_char((a % 4) * 16 + b / 16),
            b64_char((b % 16) * 4 + c / 64),
            b64_char(c % 64),
        ] + base64_standard(bytes.skip(3))
    }
}

/// Encodes RGBA pixels as PNG: `image::RgbaImage::from_raw` followed by
/// `write_to` with `ImageFormat::Png` into an in-memory buffer. Claims:
/// `None` when the buffer is shorter than `w * h * 4` bytes (`from_raw`
/// refuses it) or the width or height is zero (the PNG writer refuses
/// it); a result for every other geometry the buffer holds (writing to
/// memory does not fail); a result is the named PNG of the pixels, and,
/// being a `Vec`, holds at most `isize::MAX` bytes.
#[verifier::external_body]
pub fn encode_png(rgba: &[u8], w: u32, h: u32) -> (r: Option<Vec<u8>>)
    ensures
        w as int * h as int * 4 > rgba@.len() ==> r is None,
        w == 0 || h == 0 ==> r is None,
        0 < w && 0 < h && w as int * h as int * 4 <= rgba@.len() ==> r is Some,
        r matches Some(p) ==> w as int * h as int * 4 <= rgba@.len() && p@ == png_rgba8(
            rgba@,
            w,
            h,
        ),
        r matches Some(p) ==> p@.len() <= isize::MAX,
{
    let mut out = std::io::Cursor::new(Vec::new());
    image::RgbaImage::from_raw(w, h, rgba.to_vec())?.write_to(&mut out, image::ImageFormat::Png).ok()?;
    Some(out.into_inner())
}

/// `base64::Engine::encode` on the padded `STANDARD` engine. Claims: the
/// result is the standard padded encoding of `bytes`; the call panics only
/// when its length, `4 * ceil(n / 3)`, overflows, which `requires`
/// excludes.
#[verifier::external_body]
fn encode_base64(bytes: &[u8]) -> (r: String)
    requires
        4 * ((bytes@.len() + 2) / 3) <= usize::MAX,
    ensures
        r@ == base64_standard(bytes@),
{
    base64::engine::general_purpose::STANDARD.encode(bytes)
}

/// The `data:` URL of a PNG whose base64 text is `b64`.
pub open spec fn png_data_url_text(b64: Seq<char>) -> Seq<char> {
    "data:image/png;base64,"@ + b64
}

/// The `data:` URL of a PNG given its base64 text.
pub fn data_url_from_base64(b64: &str) -> (r: String)
    ensures
        r@ == png_data_url_text(b64@),
{
    let mut s = String::from_str("data:image/png;base64,");
    push_str(&mut s, b64);
    s
}

/// The `data:` URL of PNG bytes.
pub fn png_data_url(png: &[u8]) -> (r: String)
    requires
        4 * ((png@.len() + 2) / 3) <= usize::MAX,
    ensures
        r@ == png_data_url_text(base64_standard(png@)),
{
    let b64 = encode_base64(png);
    data_url_from_base64(b64.as_str())
}

/// The RGBA pixels of the preview of a `src_w`x`src_h` BGRA frame.
pub open spec fn preview_pixels(frame: Seq<u8>, src_w: u32, src_h: u32) -> Seq<u8> {
    swapped(scaled(frame, src_w as int, src_h as int, PREVIEW_W as int, PREVIEW_H as int))
}

/// The preview pixels are the RGBA form of the frame scaled to 640x360:
/// each pixel takes its red byte from the scaled frame's third byte (BGRA
/// order), its blue byte from the first, and keeps green and alpha.
pub proof fn preview_is_rgba_of_scaled_frame(frame: Seq<u8>, src_w: u32, src_h: u32, k: int)
    requires
        0 <= k < PREVIEW_W * PREVIEW_H,
    ensures
        ({
            let p = preview_pixels(frame, src_w, src_h);
            let s = scaled(frame, src_w as int, src_h as int, PREVIEW_W as int, PREVIEW_H as int);
            &&& p.len() == PREVIEW_W * PREVIEW_H * 4
            &&& p[4 * k] == s[4 * k + 2]
            &&& p[4 * k + 1] == s[4 * k + 1]
            &&& p[4 * k + 2] == s[4 * k]
            &&& p[4 * k + 3] == s[4 * k + 3]
        }),
{
    let n: int = PREVIEW_W * PREVIEW_H * 4;
    assert(n / 4 * 4 == n);
    lemma_fundamental_div_mod_converse(4 * k, 4, k, 0);
    lemma_fundamental_div_mod_converse(4 * k + 1, 4, k, 1);
    lemma_fundamental_div_mod_converse(4 * k + 2, 4, k, 2);
    lemma_fundamental_div_mod_converse(4 * k + 3, 4, k, 3);
}

/// The preview `data:` URL of a `src_w`x`src_h` BGRA frame: scaled and
/// letterboxed to 640x360, converted to RGBA, PNG-encoded. Every frame
/// has a preview (an unusable one previews as black).
pub fn preview_data_url(frame: &[u8], src_w: u32, src_h: u32) -> (r: Option<String>)
    ensures
        r matches Some(s) && s@ == png_data_url_text(
            base64_standard(png_rgba8(preview_pixels(frame@, src_w, src_h), PREVIEW_W, PREVIEW_H)),
        ),
{
    let small = scale_bgra(frame, src_w, src_h, PREVIEW_W, PREVIEW_H);
    let rgba = bgra_to_rgba(small.as_slice());
    let png = match encode_png(rgba.as_slice(), PREVIEW_W, PREVIEW_H) {
        Some(p) => p,
        None => {
            return None;
        },
    };
    assert(png@.len() <= isize::MAX);
    Some(png_data_url(png.as_slice()))
}

} // verus!
