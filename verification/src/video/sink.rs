//! Nearest-neighbor BGRA scaling with letterboxing, row repacking for
//! padded buffers, and the BGRA → RGBA swap used for previews.

use vstd::prelude::*;
use vstd::arithmetic::div_mod::{lemma_fundamental_div_mod, lemma_fundamental_div_mod_converse};

verus! {

/// Byte `c` of an opaque black BGRA pixel.
pub open spec fn black(c: int) -> u8 {
    if c == 3 {
        255
    } else {
        0
    }
}

/// `min(max(v, lo), hi)`, in that order (`hi` wins when `hi < lo`).
pub open spec fn clamp(v: int, lo: int, hi: int) -> int {
    let a = if v < lo {
        lo
    } else {
        v
    };
    if a > hi {
        hi
    } else {
        a
    }
}

/// Aspect-preserving fit of `sw×sh` into `dw×dh`: the constrained side
/// fills the destination, the other is scaled down (at least 1 pixel).
pub open spec fn fit(sw: int, sh: int, dw: int, dh: int) -> (int, int) {
    if dw * sh <= dh * sw {
        (dw, clamp(sh * dw / sw, 1, dh))
    } else {
        (clamp(sw * dh / sh, 1, dw), dh)
    }
}

/// Nearest source coordinate for output coordinate `d` when `s` source
/// pixels map onto `o` output pixels (pixel centers, integer math).
pub open spec fn nearest(d: int, s: int, o: int) -> int {
    let v = (2 * d + 1) * s / (2 * o);
    if v > s - 1 {
        s - 1
    } else {
        v
    }
}

/// The source holds at least `sw×sh` BGRA pixels and is not empty.
pub open spec fn src_ok(src: Seq<u8>, sw: int, sh: int) -> bool {
    sw > 0 && sh > 0 && src.len() >= sw * sh * 4
}

/// Byte `c` of output pixel `(x, y)` when `src` (`sw×sh` BGRA) is
/// normalized into `dw×dh`: an unusable source gives opaque black; an
/// equal size copies B, G, R with opaque alpha; otherwise the source is
/// nearest-neighbor scaled into the centered fit rectangle, the rest is
/// opaque black. Alpha is always 255.
pub open spec fn pixel_byte(src: Seq<u8>, sw: int, sh: int, dw: int, dh: int, x: int, y: int, c: int) -> u8 {
    if !src_ok(src, sw, sh) {
        black(c)
    } else if sw == dw && sh == dh {
        if c == 3 {
            255
        } else {
            src[(y * sw + x) * 4 + c]
        }
    } else {
        let (ow, oh) = fit(sw, sh, dw, dh);
        let ox = (dw - ow) / 2;
        let oy = (dh - oh) / 2;
        if c < 3 && ox <= x < ox + ow && oy <= y < oy + oh {
            let sx = nearest(x - ox, sw, ow);
            let sy = nearest(y - oy, sh, oh);
            src[(sy * sw + sx) * 4 + c]
        } else {
            black(c)
        }
    }
}

/// The `dw×dh` BGRA frame `src` normalizes to, byte by byte.
pub open spec fn scaled(src: Seq<u8>, sw: int, sh: int, dw: int, dh: int) -> Seq<u8> {
    Seq::new(
        (dw * dh * 4) as nat,
        |i: int| pixel_byte(src, sw, sh, dw, dh, (i / 4) % dw, (i / 4) / dw, i % 4),
    )
}

proof fn lemma_index(x: int, y: int, dw: int, c: int)
    requires
        0 <= x < dw,
        0 <= y,
        0 <= c < 4,
    ensures
        ((y * dw + x) * 4 + c) / 4 == y * dw + x,
        ((y * dw + x) * 4 + c) % 4 == c,
        (y * dw + x) % dw == x,
        (y * dw + x) / dw == y,
{
    lemma_fundamental_div_mod_converse((y * dw + x) * 4 + c, 4, y * dw + x, c);
    lemma_fundamental_div_mod_converse(y * dw + x, dw, y, x);
}

proof fn lemma_pixel_bound(x: int, y: int, w: int, h: int)
    requires
        0 <= x < w,
        0 <= y < h,
    ensures
        0 <= y * w + x < w * h,
        (y * w + x) * 4 + 3 < w * h * 4,
{
    assert(y * w + x < w * h) by (nonlinear_arith)
        requires
            0 <= x < w,
            0 <= y < h,
    ;
    assert(0 <= y * w) by (nonlinear_arith)
        requires
            0 <= x < w,
            0 <= y < h,
    ;
}

fn fit_output(src_w: u32, src_h: u32, dst_w: u32, dst_h: u32) -> (r: (u32, u32))
    requires
        src_w > 0,
        src_h > 0,
    ensures
        r.0 as int == fit(src_w as int, src_h as int, dst_w as int, dst_h as int).0,
        r.1 as int == fit(src_w as int, src_h as int, dst_w as int, dst_h as int).1,
        r.0 <= dst_w,
        r.1 <= dst_h,
{
    let sw = src_w as u64;
    let sh = src_h as u64;
    let dw = dst_w as u64;
    let dh = dst_h as u64;
    assert(dw * sh <= u64::MAX && dh * sw <= u64::MAX) by (nonlinear_arith)
        requires
            sw <= u32::MAX,
            sh <= u32::MAX,
            dw <= u32::MAX,
            dh <= u32::MAX,
    ;
    if dw * sh <= dh * sw {
        let v = sh * dw / sw;
        let a = if v < 1 { 1 } else { v };
        let out_h = if a > dh { dh } else { a };
        (dst_w, out_h as u32)
    } else {
        let v = sw * dh / sh;
        let a = if v < 1 { 1 } else { v };
        let out_w = if a > dw { dw } else { a };
        (out_w as u32, dst_h)
    }
}

fn nearest_exec(d: u32, s: u32, o: u32) -> (r: u32)
    requires
        s > 0,
        o > 0,
    ensures
        r as int == nearest(d as int, s as int, o as int),
        r < s,
{
    let a = 2 * d as u128 + 1;
    assert(a * (s as u128) <= 0x1_0000_0000_0000_0000_0000_0000) by (nonlinear_arith)
        requires
            a <= 0x2_0000_0000,
            s <= 0xffff_ffff,
    ;
    let v = (a * s as u128) / (2 * o as u128);
    if v > s as u128 - 1 {
        s - 1
    } else {
        v as u32
    }
}

proof fn lemma_scaled_at(src: Seq<u8>, sw: int, sh: int, dw: int, dh: int, x: int, y: int, c: int)
    requires
        0 <= x < dw,
        0 <= y < dh,
        0 <= c < 4,
    ensures
        0 <= (y * dw + x) * 4 + c < dw * dh * 4,
        scaled(src, sw, sh, dw, dh)[(y * dw + x) * 4 + c] == pixel_byte(src, sw, sh, dw, dh, x, y, c),
{
    lemma_index(x, y, dw, c);
    lemma_pixel_bound(x, y, dw, dh);
}

/// Writes opaque black over `dst[..n]` when the source is unusable.
fn fill_invalid(dst: &mut [u8], n: usize, ghost_src: Ghost<(Seq<u8>, int, int, int, int)>)
    requires
        n <= old(dst)@.len(),
        n == ghost_src@.3 * ghost_src@.4 * 4,
        !src_ok(ghost_src@.0, ghost_src@.1, ghost_src@.2),
        ghost_src@.3 >= 0,
        ghost_src@.4 >= 0,
    ensures
        final(dst)@.len() == old(dst)@.len(),
        final(dst)@.subrange(0, n as int) == scaled(
            ghost_src@.0,
            ghost_src@.1,
            ghost_src@.2,
            ghost_src@.3,
            ghost_src@.4,
        ),
        final(dst)@.subrange(n as int, old(dst)@.len() as int) == old(dst)@.subrange(
            n as int,
            old(dst)@.len() as int,
        ),
{
    let ghost (src, sw, sh, dw, dh) = ghost_src@;
    let ghost target = scaled(src, sw, sh, dw, dh);
    let mut i: usize = 0;
    while i < n
        invariant
            i <= n <= dst@.len(),
            dst@.len() == old(dst)@.len(),
            target.len() == n,
            target == scaled(src, sw, sh, dw, dh),
            !src_ok(src, sw, sh),
            forall|k: int| 0 <= k < i ==> dst@[k] == target[k],
            forall|k: int| n <= k < dst@.len() ==> dst@[k] == old(dst)@[k],
        decreases n - i,
    {
        dst[i] = if i % 4 == 3 { 255 } else { 0 };
        i = i + 1;
    }
    assert(dst@.subrange(0, n as int) =~= target);
    assert(dst@.subrange(n as int, dst@.len() as int) =~= old(dst)@.subrange(
        n as int,
        old(dst)@.len() as int,
    ));
}

/// Copies B, G, R and forces opaque alpha when source and destination
/// sizes are equal (the identity fast path).
fn copy_bgra_opaque(dst: &mut [u8], src: &[u8], w: u32, h: u32, n: usize)
    requires
        n == w as int * h as int * 4,
        n <= old(dst)@.len(),
        src_ok(src@, w as int, h as int),
    ensures
        final(dst)@.len() == old(dst)@.len(),
        final(dst)@.subrange(0, n as int) == scaled(src@, w as int, h as int, w as int, h as int),
        final(dst)@.subrange(n as int, old(dst)@.len() as int) == old(dst)@.subrange(
            n as int,
            old(dst)@.len() as int,
        ),
{
    let ghost target = scaled(src@, w as int, h as int, w as int, h as int);
    let mut y: u32 = 0;
    while y < h
        invariant
            y <= h,
            n == w as int * h as int * 4,
            n <= dst@.len(),
            dst@.len() == old(dst)@.len(),
            src_ok(src@, w as int, h as int),
            target == scaled(src@, w as int, h as int, w as int, h as int),
            forall|k: int| 0 <= k < y as int * w as int * 4 ==> dst@[k] == target[k],
            forall|k: int| n <= k < dst@.len() ==> dst@[k] == old(dst)@[k],
        decreases h - y,
    {
        let mut x: u32 = 0;
        while x < w
            invariant
                x <= w,
                y < h,
                n == w as int * h as int * 4,
                n <= dst@.len(),
                dst@.len() == old(dst)@.len(),
                src_ok(src@, w as int, h as int),
                target == scaled(src@, w as int, h as int, w as int, h as int),
                forall|k: int| 0 <= k < (y as int * w as int + x as int) * 4 ==> dst@[k] == target[k],
                forall|k: int| n <= k < dst@.len() ==> dst@[k] == old(dst)@[k],
            decreases w - x,
        {
            proof {
                lemma_scaled_at(src@, w as int, h as int, w as int, h as int, x as int, y as int, 0);
                lemma_scaled_at(src@, w as int, h as int, w as int, h as int, x as int, y as int, 1);
                lemma_scaled_at(src@, w as int, h as int, w as int, h as int, x as int, y as int, 2);
                lemma_scaled_at(src@, w as int, h as int, w as int, h as int, x as int, y as int, 3);
            }
            let base = (y as usize * w as usize + x as usize) * 4;
            dst[base] = src[base];
            dst[base + 1] = src[base + 1];
            dst[base + 2] = src[base + 2];
            dst[base + 3] = 255;
            x = x + 1;
        }
        assert((y as int * w as int + w as int) * 4 == (y as int + 1) * w as int * 4)
            by (nonlinear_arith);
        y = y + 1;
    }
    assert(h as int * w as int * 4 == w as int * h as int * 4) by (nonlinear_arith);
    assert(dst@.subrange(0, n as int) =~= target);
    assert(dst@.subrange(n as int, dst@.len() as int) =~= old(dst)@.subrange(
        n as int,
        old(dst)@.len() as int,
    ));
}

proof fn lemma_src_index(sx: int, sy: int, sw: int, sh: int, c: int)
    requires
        0 <= sx < sw,
        0 <= sy < sh,
        0 <= c < 4,
    ensures
        0 <= (sy * sw + sx) * 4 + c < sw * sh * 4,
{
    lemma_pixel_bound(sx, sy, sw, sh);
}

/// Nearest-neighbor scale into the centered fit rectangle; everything
/// outside it is opaque black (the letterbox).
#[verifier::rlimit(60)]
fn blit_nearest(dst: &mut [u8], src: &[u8], sw: u32, sh: u32, dw: u32, dh: u32, n: usize)
    requires
        n == dw as int * dh as int * 4,
        n <= old(dst)@.len(),
        src_ok(src@, sw as int, sh as int),
        !(sw == dw && sh == dh),
    ensures
        final(dst)@.len() == old(dst)@.len(),
        final(dst)@.subrange(0, n as int) == scaled(src@, sw as int, sh as int, dw as int, dh as int),
        final(dst)@.subrange(n as int, old(dst)@.len() as int) == old(dst)@.subrange(
            n as int,
            old(dst)@.len() as int,
        ),
{
    let ghost target = scaled(src@, sw as int, sh as int, dw as int, dh as int);
    let (out_w, out_h) = fit_output(sw, sh, dw, dh);
    let off_x = (dw - out_w) / 2;
    let off_y = (dh - out_h) / 2;
    // Source column for every output column of the fit rectangle.
    let mut map_x: Vec<u32> = Vec::new();
    let mut j: u32 = 0;
    while j < out_w
        invariant
            j <= out_w,
            sw > 0,
            map_x@.len() == j,
            forall|q: int|
                0 <= q < j ==> (#[trigger] map_x@[q]) as int == nearest(q, sw as int, out_w as int)
                    && map_x@[q] < sw,
        decreases out_w - j,
    {
        map_x.push(nearest_exec(j, sw, out_w));
        j = j + 1;
    }
    let mut y: u32 = 0;
    while y < dh
        invariant
            y <= dh,
            n == dw as int * dh as int * 4,
            n <= dst@.len(),
            dst@.len() == old(dst)@.len(),
            src_ok(src@, sw as int, sh as int),
            !(sw == dw && sh == dh),
            out_w as int == fit(sw as int, sh as int, dw as int, dh as int).0,
            out_h as int == fit(sw as int, sh as int, dw as int, dh as int).1,
            out_w <= dw,
            out_h <= dh,
            off_x == (dw - out_w) / 2,
            off_y == (dh - out_h) / 2,
            map_x@.len() == out_w,
            forall|q: int|
                0 <= q < out_w ==> (#[trigger] map_x@[q]) as int == nearest(
                    q,
                    sw as int,
                    out_w as int,
                ) && map_x@[q] < sw,
            target == scaled(src@, sw as int, sh as int, dw as int, dh as int),
            forall|k: int| 0 <= k < y as int * dw as int * 4 ==> dst@[k] == target[k],
            forall|k: int| n <= k < dst@.len() ==> dst@[k] == old(dst)@[k],
        decreases dh - y,
    {
        let in_rows = off_y <= y && y < off_y + out_h;
        let sy: u32 = if in_rows {
            nearest_exec(y - off_y, sh, out_h)
        } else {
            0
        };
        let mut x: u32 = 0;
        while x < dw
            invariant
                x <= dw,
                y < dh,
                n == dw as int * dh as int * 4,
                n <= dst@.len(),
                dst@.len() == old(dst)@.len(),
                src_ok(src@, sw as int, sh as int),
                !(sw == dw && sh == dh),
                out_w as int == fit(sw as int, sh as int, dw as int, dh as int).0,
                out_h as int == fit(sw as int, sh as int, dw as int, dh as int).1,
                out_w <= dw,
                out_h <= dh,
                off_x == (dw - out_w) / 2,
                off_y == (dh - out_h) / 2,
                in_rows == (off_y <= y && y < off_y + out_h),
                in_rows ==> sy as int == nearest(y - off_y, sh as int, out_h as int) && sy < sh,
                map_x@.len() == out_w,
                forall|q: int|
                    0 <= q < out_w ==> (#[trigger] map_x@[q]) as int == nearest(
                        q,
                        sw as int,
                        out_w as int,
                    ) && map_x@[q] < sw,
                target == scaled(src@, sw as int, sh as int, dw as int, dh as int),
                forall|k: int|
                    0 <= k < (y as int * dw as int + x as int) * 4 ==> dst@[k] == target[k],
                forall|k: int| n <= k < dst@.len() ==> dst@[k] == old(dst)@[k],
            decreases dw - x,
        {
            proof {
                lemma_scaled_at(src@, sw as int, sh as int, dw as int, dh as int, x as int, y as int, 0);
                lemma_scaled_at(src@, sw as int, sh as int, dw as int, dh as int, x as int, y as int, 1);
                lemma_scaled_at(src@, sw as int, sh as int, dw as int, dh as int, x as int, y as int, 2);
                lemma_scaled_at(src@, sw as int, sh as int, dw as int, dh as int, x as int, y as int, 3);
            }
            let base = (y as usize * dw as usize + x as usize) * 4;
            if in_rows && off_x <= x && x < off_x + out_w {
                let sx = map_x[(x - off_x) as usize];
                proof {
                    lemma_src_index(sx as int, sy as int, sw as int, sh as int, 0);
                    lemma_src_index(sx as int, sy as int, sw as int, sh as int, 2);
                    assert(0 <= sy as int * sw as int);
                }
                let slen = src.len();
                assert((sy as int * sw as int + sx as int) * 4 + 2 < slen);
                let s = (sy as usize * sw as usize + sx as usize) * 4;
                dst[base] = src[s];
                dst[base + 1] = src[s + 1];
                dst[base + 2] = src[s + 2];
                dst[base + 3] = 255;
            } else {
                dst[base] = 0;
                dst[base + 1] = 0;
                dst[base + 2] = 0;
                dst[base + 3] = 255;
            }
            x = x + 1;
        }
        assert((y as int * dw as int + dw as int) * 4 == (y as int + 1) * dw as int * 4)
            by (nonlinear_arith);
        y = y + 1;
    }
    assert(dh as int * dw as int * 4 == dw as int * dh as int * 4) by (nonlinear_arith);
    assert(dst@.subrange(0, n as int) =~= target);
    assert(dst@.subrange(n as int, dst@.len() as int) =~= old(dst)@.subrange(
        n as int,
        old(dst)@.len() as int,
    ));
}

/// Normalizes `src` (`src_w×src_h` packed BGRA) into the first
/// `dst_w*dst_h*4` bytes of `dst`: nearest-neighbor scale, centered,
/// letterboxed with opaque black, alpha forced to 255. An empty or short
/// source yields an all-black frame. A `dst` shorter than the frame is
/// left untouched; bytes past the frame are never written.
pub fn scale_bgra_into(dst: &mut [u8], src: &[u8], src_w: u32, src_h: u32, dst_w: u32, dst_h: u32)
    ensures
        final(dst)@.len() == old(dst)@.len(),
        old(dst)@.len() < dst_w as int * dst_h as int * 4 ==> final(dst)@ == old(dst)@,
        old(dst)@.len() >= dst_w as int * dst_h as int * 4 ==> {
            &&& final(dst)@.subrange(0, dst_w as int * dst_h as int * 4) == scaled(
                src@,
                src_w as int,
                src_h as int,
                dst_w as int,
                dst_h as int,
            )
            &&& final(dst)@.subrange(dst_w as int * dst_h as int * 4, old(dst)@.len() as int)
                == old(dst)@.subrange(dst_w as int * dst_h as int * 4, old(dst)@.len() as int)
        },
{
    assert(dst_w as u128 * dst_h as u128 <= 0xffff_ffff_ffff_ffff_ffff) by (nonlinear_arith);
    assert(src_w as u128 * src_h as u128 <= 0xffff_ffff_ffff_ffff_ffff) by (nonlinear_arith);
    let dst_len128 = dst_w as u128 * dst_h as u128 * 4;
    if (dst.len() as u128) < dst_len128 {
        return;
    }
    let dst_len = dst_len128 as usize;
    let src_len128 = src_w as u128 * src_h as u128 * 4;
    if src_w == 0 || src_h == 0 || (src.len() as u128) < src_len128 {
        fill_invalid(
            dst,
            dst_len,
            Ghost((src@, src_w as int, src_h as int, dst_w as int, dst_h as int)),
        );
        return;
    }
    if src_w == dst_w && src_h == dst_h {
        copy_bgra_opaque(dst, src, src_w, src_h, dst_len);
        return;
    }
    blit_nearest(dst, src, src_w, src_h, dst_w, dst_h, dst_len);
}

/// Nearest-neighbor BGRA scale + letterbox into a new `dst_w×dst_h` frame
/// (all frames are normalized to the profile size before the pipeline).
pub fn scale_bgra(src: &[u8], src_w: u32, src_h: u32, dst_w: u32, dst_h: u32) -> (r: Vec<u8>)
    requires
        dst_w as int * dst_h as int * 4 <= usize::MAX,
    ensures
        r@ == scaled(src@, src_w as int, src_h as int, dst_w as int, dst_h as int),
{
    let n = dst_w as usize * dst_h as usize * 4;
    let mut dst: Vec<u8> = vec![0u8; n];
    scale_bgra_into(dst.as_mut_slice(), src, src_w, src_h, dst_w, dst_h);
    assert(dst@.subrange(0, n as int) =~= dst@);
    dst
}

/// A padded buffer (`stride` bytes per row) can be repacked: non-empty
/// geometry, every row present, and the packed frame fits in memory.
pub open spec fn repack_ok(len: int, w: int, h: int, stride: int) -> bool {
    &&& w > 0
    &&& h > 0
    &&& len >= (h - 1) * stride + w * 4
    &&& w * 4 * h <= usize::MAX
}

/// The `h` rows of `w` BGRA pixels of a `stride`-pitched buffer, packed
/// tightly.
pub open spec fn packed(src: Seq<u8>, w: int, h: int, stride: int) -> Seq<u8> {
    Seq::new((w * 4 * h) as nat, |i: int| src[(i / (w * 4)) * stride + i % (w * 4)])
}

/// Copies `src_h` rows of `src_w` 4-byte pixels from a `stride`-byte
/// pitched buffer into a tightly packed buffer. `None` when the source
/// cannot hold the last row (short chunk) or the geometry is empty.
pub fn repack_bgra_rows(src: &[u8], src_w: u32, src_h: u32, stride: usize) -> (r: Option<Vec<u8>>)
    ensures
        r is Some <==> repack_ok(src@.len() as int, src_w as int, src_h as int, stride as int),
        r matches Some(v) ==> v@ == packed(src@, src_w as int, src_h as int, stride as int),
{
    let slen = src.len();
    let row = match (src_w as usize).checked_mul(4) {
        Some(r) => r,
        None => {
            assert(src_h == 0 || src_w as int * 4 * src_h as int >= src_w as int * 4)
                by (nonlinear_arith);
            return None;
        },
    };
    let h = src_h as usize;
    if row == 0 || h == 0 {
        return None;
    }
    let last = match (h - 1).checked_mul(stride) {
        Some(v) => v,
        None => {
            return None;
        },
    };
    let needed = match last.checked_add(row) {
        Some(v) => v,
        None => {
            return None;
        },
    };
    if slen < needed {
        return None;
    }
    let total = match row.checked_mul(h) {
        Some(v) => v,
        None => {
            return None;
        },
    };
    let ghost target = packed(src@, src_w as int, src_h as int, stride as int);
    let mut out: Vec<u8> = vec![0u8; total];
    let mut y: usize = 0;
    while y < h
        invariant
            y <= h,
            h == src_h,
            row == src_w as int * 4,
            row > 0,
            total == row * h,
            out@.len() == total,
            (h - 1) * stride + row <= src@.len(),
            slen == src@.len(),
            target == packed(src@, src_w as int, src_h as int, stride as int),
            forall|k: int| 0 <= k < y * row ==> out@[k] == target[k],
        decreases h - y,
    {
        assert(y * stride <= (h - 1) * stride) by (nonlinear_arith)
            requires
                y <= h - 1,
        ;
        assert((y + 1) * row <= h * row) by (nonlinear_arith)
            requires
                y < h,
                row > 0,
        ;
        assert(y * row + row == (y + 1) * row) by (nonlinear_arith);
        assert(h * row == row * h) by (nonlinear_arith);
        let start = y * stride;
        let dst0 = y * row;
        let mut j: usize = 0;
        while j < row
            invariant
                j <= row,
                y < h,
                h == src_h,
                row == src_w as int * 4,
                row > 0,
                total == row * h,
                out@.len() == total,
                start == y * stride,
                dst0 == y * row,
                start + row <= src@.len(),
                slen == src@.len(),
                dst0 + row <= total,
                target == packed(src@, src_w as int, src_h as int, stride as int),
                forall|k: int| 0 <= k < dst0 + j ==> out@[k] == target[k],
            decreases row - j,
        {
            proof {
                lemma_fundamental_div_mod_converse((dst0 + j) as int, row as int, y as int, j as int);
            }
            out.set(dst0 + j, src[start + j]);
            j = j + 1;
        }
        assert(y * row + row == (y + 1) * row) by (nonlinear_arith);
        y = y + 1;
    }
    assert(h * row == row * h) by (nonlinear_arith);
    assert(out@ =~= target);
    Some(out)
}

/// The frame [`scale_bgra_strided`] produces, if any: the source read at
/// `stride` bytes per row (as packed when `stride` is not larger than a
/// packed row), normalized into `dw×dh`.
pub open spec fn strided_result(src: Seq<u8>, w: int, h: int, stride: int, dw: int, dh: int) -> Option<
    Seq<u8>,
> {
    if w * 4 > usize::MAX {
        None
    } else if stride <= w * 4 {
        Some(scaled(src, w, h, dw, dh))
    } else if !repack_ok(src.len() as int, w, h, stride) {
        None
    } else {
        Some(scaled(packed(src, w, h, stride), w, h, dw, dh))
    }
}

/// Like [`scale_bgra`], but reads source rows at `src_stride` bytes.
/// Portal screencast buffers can pad rows (stride > `src_w*4`); reading
/// them as packed would shift every row and skew the image. A stride that
/// is not larger than the packed row falls back to the packed path;
/// `None` when the packed row size overflows or a padded buffer is too
/// short (partial/corrupt frame).
pub fn scale_bgra_strided(
    src: &[u8],
    src_w: u32,
    src_h: u32,
    src_stride: usize,
    dst_w: u32,
    dst_h: u32,
) -> (r: Option<Vec<u8>>)
    requires
        dst_w as int * dst_h as int * 4 <= usize::MAX,
    ensures
        r is Some <==> strided_result(
            src@,
            src_w as int,
            src_h as int,
            src_stride as int,
            dst_w as int,
            dst_h as int,
        ) is Some,
        r matches Some(v) ==> Some(v@) == strided_result(
            src@,
            src_w as int,
            src_h as int,
            src_stride as int,
            dst_w as int,
            dst_h as int,
        ),
{
    let packed_row = match (src_w as usize).checked_mul(4) {
        Some(r) => r,
        None => {
            return None;
        },
    };
    if src_stride <= packed_row {
        return Some(scale_bgra(src, src_w, src_h, dst_w, dst_h));
    }
    match repack_bgra_rows(src, src_w, src_h, src_stride) {
        Some(p) => Some(scale_bgra(p.as_slice(), src_w, src_h, dst_w, dst_h)),
        None => None,
    }
}

/// BGRA pixels with the R and B bytes exchanged (a trailing partial pixel
/// is dropped).
pub open spec fn swapped(s: Seq<u8>) -> Seq<u8> {
    Seq::new(
        ((s.len() / 4) * 4) as nat,
        |i: int|
            {
                let c = i % 4;
                let from = if c == 0 {
                    2
                } else if c == 2 {
                    0
                } else {
                    c
                };
                s[(i / 4) * 4 + from]
            },
    )
}

/// BGRA → RGBA (for preview images).
pub fn bgra_to_rgba(bgra: &[u8]) -> (r: Vec<u8>)
    ensures
        r@ == swapped(bgra@),
{
    let blen = bgra.len();
    let px = blen / 4;
    let mut out: Vec<u8> = Vec::new();
    let mut p: usize = 0;
    while p < px
        invariant
            p <= px,
            px == bgra@.len() / 4,
            blen == bgra@.len(),
            out@.len() == p * 4,
            forall|k: int| 0 <= k < p * 4 ==> out@[k] == swapped(bgra@)[k],
        decreases px - p,
    {
        assert(p * 4 + 3 < bgra@.len());
        let b = p * 4;
        out.push(bgra[b + 2]);
        out.push(bgra[b + 1]);
        out.push(bgra[b]);
        out.push(bgra[b + 3]);
        proof {
            assert forall|k: int| 0 <= k < (p + 1) * 4 implies #[trigger] out@[k] == swapped(bgra@)[k] by {
                if k >= b {
                    lemma_fundamental_div_mod_converse(k, 4, p as int, k - b);
                }
            }
        }
        p = p + 1;
    }
    assert(out@ =~= swapped(bgra@));
    out
}

/// Every normalized frame is opaque: the alpha byte of each output pixel
/// is 255, letterbox included.
pub proof fn scaled_is_opaque(src: Seq<u8>, sw: int, sh: int, dw: int, dh: int, i: int)
    requires
        dw > 0,
        0 <= i < dw * dh * 4,
        i % 4 == 3,
    ensures
        scaled(src, sw, sh, dw, dh)[i] == 255,
{
}

/// Normalizing a frame to its own size keeps every colour byte.
pub proof fn identity_scale_copies(src: Seq<u8>, w: int, h: int, i: int)
    requires
        src_ok(src, w, h),
        0 <= i < w * h * 4,
        i % 4 != 3,
    ensures
        scaled(src, w, h, w, h)[i] == src[i],
{
    let p = i / 4;
    let c = i % 4;
    lemma_fundamental_div_mod(i, 4);
    lemma_fundamental_div_mod(p, w);
    let x = p % w;
    let y = p / w;
    assert(y * w + x == p) by (nonlinear_arith)
        requires
            p == w * (p / w) + p % w,
            x == p % w,
            y == p / w,
    ;
    assert((y * w + x) * 4 + c == i);
}

/// The RGBA form of a BGRA buffer exchanges the first and third byte of
/// every whole pixel and keeps the second and fourth; a trailing partial
/// pixel is dropped.
pub proof fn swap_exchanges_red_and_blue(s: Seq<u8>, k: int)
    requires
        0 <= k < s.len() / 4,
    ensures
        swapped(s).len() == s.len() / 4 * 4,
        swapped(s)[4 * k] == s[4 * k + 2],
        swapped(s)[4 * k + 1] == s[4 * k + 1],
        swapped(s)[4 * k + 2] == s[4 * k],
        swapped(s)[4 * k + 3] == s[4 * k + 3],
{
    lemma_fundamental_div_mod_converse(4 * k, 4, k, 0);
    lemma_fundamental_div_mod_converse(4 * k + 1, 4, k, 1);
    lemma_fundamental_div_mod_converse(4 * k + 2, 4, k, 2);
    lemma_fundamental_div_mod_converse(4 * k + 3, 4, k, 3);
}

/// Swapping R and B twice restores the whole pixels of a buffer.
pub proof fn swap_twice_restores(s: Seq<u8>)
    ensures
        swapped(swapped(s)) == s.take((s.len() / 4) as int * 4),
{
    let t = swapped(s);
    let n: int = (s.len() / 4) as int * 4;
    assert(t.len() == n);
    assert((n / 4) * 4 == n) by {
        lemma_fundamental_div_mod_converse(n, 4, (s.len() / 4) as int, 0);
    }
    assert forall|i: int| 0 <= i < n implies #[trigger] swapped(t)[i] == s[i] by {
        let q = i / 4;
        let c = i % 4;
        lemma_fundamental_div_mod(i, 4);
        let from = if c == 0 {
            2
        } else if c == 2 {
            0
        } else {
            c
        };
        let j = q * 4 + from;
        assert(0 <= j < n);
        lemma_fundamental_div_mod_converse(j, 4, q, from);
        assert(j / 4 == q && j % 4 == from);
    }
    assert(swapped(t) =~= s.take(n));
}

/// Repacking rows that carry no padding returns the frame unchanged.
pub proof fn packed_tight_is_prefix(src: Seq<u8>, w: int, h: int)
    requires
        w > 0,
        h > 0,
        src.len() >= w * 4 * h,
    ensures
        packed(src, w, h, w * 4) == src.take(w * 4 * h),
{
    assert(w * 4 * h >= 0) by (nonlinear_arith)
        requires
            w > 0,
            h > 0,
    ;
    assert forall|i: int| 0 <= i < w * 4 * h implies #[trigger] packed(src, w, h, w * 4)[i] == src[i] by {
        lemma_fundamental_div_mod(i, w * 4);
        assert((i / (w * 4)) * (w * 4) + i % (w * 4) == i) by (nonlinear_arith)
            requires
                i == (w * 4) * (i / (w * 4)) + i % (w * 4),
        ;
    }
    assert(packed(src, w, h, w * 4) =~= src.take(w * 4 * h));
}

/// A stride no larger than a packed row is read as packed.
pub proof fn tight_stride_reads_packed(src: Seq<u8>, w: int, h: int, dw: int, dh: int)
    requires
        0 <= w * 4 <= usize::MAX,
    ensures
        strided_result(src, w, h, w * 4, dw, dh) == Some(scaled(src, w, h, dw, dh)),
{
}

proof fn lemma_nearest_in(d: int, s: int, o: int)
    requires
        0 <= d,
        s > 0,
        o > 0,
    ensures
        0 <= nearest(d, s, o) < s,
{
    assert((2 * d + 1) * s >= 0) by (nonlinear_arith)
        requires
            0 <= d,
            s > 0,
    ;
    assert((2 * d + 1) * s / (2 * o) >= 0) by (nonlinear_arith)
        requires
            (2 * d + 1) * s >= 0,
            o > 0,
    ;
}

/// A source wider than the destination's shape fills the full width and
/// is letterboxed: with `oh` the scaled height, the image rows are exactly
/// `[(dh - oh) / 2, (dh - oh) / 2 + oh)`, which centers it (the bands above
/// and below differ by at most one row); every other row is opaque black,
/// and every image pixel carries the colour bytes of some source pixel.
pub proof fn letterbox_rows_are_centered(
    src: Seq<u8>,
    sw: int,
    sh: int,
    dw: int,
    dh: int,
    x: int,
    y: int,
    c: int,
)
    requires
        src_ok(src, sw, sh),
        dw > 0,
        dh > 0,
        dw * sh <= dh * sw,
        sh * dw >= sw,
        0 <= x < dw,
        0 <= y < dh,
        0 <= c < 4,
    ensures
        ({
            let oh = sh * dw / sw;
            let top = (dh - oh) / 2;
            let bottom = dh - oh - top;
            let b = scaled(src, sw, sh, dw, dh)[(y * dw + x) * 4 + c];
            &&& 1 <= oh <= dh
            &&& top <= bottom <= top + 1
            &&& (y < top || y >= top + oh) ==> b == (if c == 3 {
                255u8
            } else {
                0u8
            })
            &&& (top <= y < top + oh && c == 3) ==> b == 255
            &&& (top <= y < top + oh && c < 3) ==> exists|sx: int, sy: int|
                0 <= sx < sw && 0 <= sy < sh && b == #[trigger] src[(sy * sw + sx) * 4 + c]
        }),
{
    let oh = sh * dw / sw;
    let top = (dh - oh) / 2;
    assert(sh * dw == dw * sh) by (nonlinear_arith);
    assert(oh <= dh) by (nonlinear_arith)
        requires
            sh * dw <= dh * sw,
            sw > 0,
            oh == sh * dw / sw,
    ;
    assert(oh >= 1) by (nonlinear_arith)
        requires
            sh * dw >= sw,
            sw > 0,
            oh == sh * dw / sw,
    ;
    lemma_scaled_at(src, sw, sh, dw, dh, x, y, c);
    let b = scaled(src, sw, sh, dw, dh)[(y * dw + x) * 4 + c];
    if sw == dw && sh == dh {
        assert(oh == dh) by (nonlinear_arith)
            requires
                oh == sh * dw / sw,
                sw == dw,
                sh == dh,
                dw > 0,
        ;
        if c < 3 {
            assert(b == src[(y * sw + x) * 4 + c]);
        }
    } else {
        assert(fit(sw, sh, dw, dh) == (dw, oh));
        if top <= y < top + oh && c < 3 {
            lemma_nearest_in(x, sw, dw);
            lemma_nearest_in(y - top, sh, oh);
            let sx = nearest(x, sw, dw);
            let sy = nearest(y - top, sh, oh);
            assert(b == src[(sy * sw + sx) * 4 + c]);
        }
    }
}

/// A source taller than the destination's shape fills the full height and
/// is pillarboxed: with `ow` the scaled width, the image columns are
/// exactly `[(dw - ow) / 2, (dw - ow) / 2 + ow)`, centered (the bands left
/// and right differ by at most one column); every other column is opaque
/// black, and every image pixel carries the colour bytes of some source
/// pixel.
pub proof fn pillarbox_columns_are_centered(
    src: Seq<u8>,
    sw: int,
    sh: int,
    dw: int,
    dh: int,
    x: int,
    y: int,
    c: int,
)
    requires
        src_ok(src, sw, sh),
        dw > 0,
        dh > 0,
        dw * sh > dh * sw,
        sw * dh >= sh,
        0 <= x < dw,
        0 <= y < dh,
        0 <= c < 4,
    ensures
        ({
            let ow = sw * dh / sh;
            let left = (dw - ow) / 2;
            let right = dw - ow - left;
            let b = scaled(src, sw, sh, dw, dh)[(y * dw + x) * 4 + c];
            &&& 1 <= ow <= dw
            &&& left <= right <= left + 1
            &&& (x < left || x >= left + ow) ==> b == (if c == 3 {
                255u8
            } else {
                0u8
            })
            &&& (left <= x < left + ow && c == 3) ==> b == 255
            &&& (left <= x < left + ow && c < 3) ==> exists|sx: int, sy: int|
                0 <= sx < sw && 0 <= sy < sh && b == #[trigger] src[(sy * sw + sx) * 4 + c]
        }),
{
    let ow = sw * dh / sh;
    let left = (dw - ow) / 2;
    assert(sw * dh == dh * sw) by (nonlinear_arith);
    assert(ow <= dw) by (nonlinear_arith)
        requires
            sw * dh < dw * sh,
            sh > 0,
            ow == sw * dh / sh,
    ;
    assert(ow >= 1) by (nonlinear_arith)
        requires
            sw * dh >= sh,
            sh > 0,
            ow == sw * dh / sh,
    ;
    lemma_scaled_at(src, sw, sh, dw, dh, x, y, c);
    let b = scaled(src, sw, sh, dw, dh)[(y * dw + x) * 4 + c];
    assert(!(sw == dw && sh == dh));
    assert(fit(sw, sh, dw, dh) == (ow, dh));
    if left <= x < left + ow && c < 3 {
        lemma_nearest_in(x - left, sw, ow);
        lemma_nearest_in(y, sh, dh);
        let sx = nearest(x - left, sw, ow);
        let sy = nearest(y, sh, dh);
        assert(b == src[(sy * sw + sx) * 4 + c]);
    }
}

} // verus!
