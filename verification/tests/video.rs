use ezstreamer_core::video::sink::repack_bgra_rows;
use ezstreamer_core::video::{bgra_to_rgba, scale_bgra, scale_bgra_into, scale_bgra_strided};

#[test]
fn scale_identity() {
    let src = vec![7u8; 4 * 4 * 4];
    let dst = scale_bgra(&src, 4, 4, 4, 4);
    assert_eq!(dst.len(), 64);
    assert!(dst.chunks(4).all(|px| px == [7, 7, 7, 255]));
}

#[test]
fn scale_downsamples_with_letterbox() {
    let src = vec![10u8; 4 * 4 * 4];
    let dst = scale_bgra(&src, 4, 4, 8, 4);
    assert_eq!(dst.len(), 8 * 4 * 4);
    assert_eq!(&dst[0..4], &[0, 0, 0, 255]);
    assert_eq!(&dst[4 * 4..4 * 4 + 4], &[10, 10, 10, 255]);
    assert_eq!(&dst[7 * 4..8 * 4], &[0, 0, 0, 255]);
}

#[test]
fn scale_rejects_bad_source() {
    let dst = scale_bgra(&[0u8; 3], 4, 4, 4, 4);
    assert_eq!(dst.len(), 64);
    assert!(dst.chunks(4).all(|px| px == [0, 0, 0, 255]));
}

#[test]
fn strided_scale_reads_padded_rows() {
    let (w, h, stride) = (2usize, 2usize, 2 * 4 + 8);
    let mut src = vec![0u8; stride * h];
    for y in 0..h {
        for x in 0..w {
            let i = y * stride + x * 4;
            src[i] = (y * 10 + x) as u8;
            src[i + 3] = 255;
        }
    }
    for y in 0..h {
        for p in 0..8 {
            src[y * stride + 8 + p] = 0xFF;
        }
    }
    let dst = scale_bgra_strided(&src, 2, 2, stride, 2, 2).unwrap();
    assert_eq!(dst.len(), 16);
    assert_eq!(&dst[0..4], &[0, 0, 0, 255]);
    assert_eq!(&dst[4..8], &[1, 0, 0, 255]);
    assert_eq!(&dst[8..12], &[10, 0, 0, 255]);
    assert_eq!(&dst[12..16], &[11, 0, 0, 255]);
}

#[test]
fn strided_scale_rejects_truncated_padded_buffer() {
    let src = vec![0u8; 20];
    assert!(scale_bgra_strided(&src, 2, 2, 2 * 4 + 8, 2, 2).is_none());
}

#[test]
fn strided_scale_tight_stride_matches_packed() {
    let src: Vec<u8> = (0..32).collect();
    let strided = scale_bgra_strided(&src, 4, 2, 4 * 4, 4, 2).unwrap();
    assert_eq!(strided, scale_bgra(&src, 4, 2, 4, 2));
}

#[test]
fn bgra_rgba_swap() {
    let rgba = bgra_to_rgba(&[1, 2, 3, 4, 5, 6, 7, 8]);
    assert_eq!(rgba, vec![3, 2, 1, 4, 7, 6, 5, 8]);
}

#[test]
fn scale_preserves_gradient_corners() {
    let mut src = vec![0u8; 4 * 2 * 4];
    for x in 0..4 {
        for y in 0..2 {
            let i = (y * 4 + x) * 4;
            src[i] = (x * 60) as u8;
            src[i + 1] = (y * 120) as u8;
            src[i + 2] = 200;
            src[i + 3] = 255;
        }
    }
    let dst = scale_bgra(&src, 4, 2, 4, 2);
    assert_eq!(&dst[0..3], &[0, 0, 200]);
    assert_eq!(&dst[(3 * 4)..(3 * 4 + 3)], &[180, 0, 200]);
}

#[test]
fn scale_large_parallel_matches_single() {
    let sw = 256u32;
    let sh = 144u32;
    let mut src = vec![0u8; (sw * sh * 4) as usize];
    for y in 0..sh {
        for x in 0..sw {
            let i = ((y * sw + x) * 4) as usize;
            src[i] = (x % 251) as u8;
            src[i + 1] = (y % 251) as u8;
            src[i + 2] = ((x + y) % 251) as u8;
            src[i + 3] = 255;
        }
    }
    let dst = scale_bgra(&src, sw, sh, 1280, 720);
    assert_eq!(dst.len(), 1280 * 720 * 4);
    assert!(dst.chunks(4).all(|px| px[3] == 255));
    let center = ((360 * 1280 + 640) * 4) as usize;
    assert_ne!(&dst[center..center + 3], &[0, 0, 0]);
}

// ---- further cases of this library ----

#[test]
fn upscale_repeats_nearest_pixels() {
    // 2x1 source into 4x2: each source pixel covers a 2x2 block.
    let src = vec![1, 2, 3, 0, 9, 8, 7, 0];
    let dst = scale_bgra(&src, 2, 1, 4, 2);
    let px: Vec<&[u8]> = dst.chunks(4).collect();
    assert_eq!(px, vec![
        &[1, 2, 3, 255][..], &[1, 2, 3, 255][..], &[9, 8, 7, 255][..], &[9, 8, 7, 255][..],
        &[1, 2, 3, 255][..], &[1, 2, 3, 255][..], &[9, 8, 7, 255][..], &[9, 8, 7, 255][..],
    ]);
}

#[test]
fn tall_source_is_pillarboxed_vertically_centered() {
    // 2x4 source into 4x4: fits to 2x4, one black column each side.
    let src = vec![5u8; 2 * 4 * 4];
    let dst = scale_bgra(&src, 2, 4, 4, 4);
    for y in 0..4 {
        let row = &dst[y * 16..y * 16 + 16];
        assert_eq!(&row[0..4], &[0, 0, 0, 255]);
        assert_eq!(&row[4..8], &[5, 5, 5, 255]);
        assert_eq!(&row[8..12], &[5, 5, 5, 255]);
        assert_eq!(&row[12..16], &[0, 0, 0, 255]);
    }
}

#[test]
fn scale_into_leaves_short_or_trailing_bytes_alone() {
    let src = vec![3u8; 4];
    let mut short = vec![9u8; 3];
    scale_bgra_into(&mut short, &src, 1, 1, 1, 1);
    assert_eq!(short, vec![9, 9, 9]);
    let mut long = vec![9u8; 6];
    scale_bgra_into(&mut long, &src, 1, 1, 1, 1);
    assert_eq!(long, vec![3, 3, 3, 255, 9, 9]);
}

#[test]
fn repack_drops_row_padding_and_rejects_empty() {
    let src = vec![1, 2, 3, 4, 0, 0, 5, 6, 7, 8];
    assert_eq!(repack_bgra_rows(&src, 1, 2, 6), Some(vec![1, 2, 3, 4, 5, 6, 7, 8]));
    assert_eq!(repack_bgra_rows(&src, 0, 2, 6), None);
    assert_eq!(repack_bgra_rows(&src, 1, 0, 6), None);
    assert_eq!(repack_bgra_rows(&src[..9], 1, 2, 6), None);
}

#[test]
fn rgba_swap_drops_partial_pixel_and_is_an_involution() {
    let v = vec![1, 2, 3, 4, 5, 6];
    let once = bgra_to_rgba(&v);
    assert_eq!(once, vec![3, 2, 1, 4]);
    assert_eq!(bgra_to_rgba(&once), vec![1, 2, 3, 4]);
}
