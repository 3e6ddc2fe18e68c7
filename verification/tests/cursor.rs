use bettershot::cursor::{blend_premultiplied_over, composite_cursor, div255, mask_bit, CursorAnchor, CursorImage};
use bettershot::error::CaptureError;
use bettershot::frame::RawFrame;
use bettershot::geometry::Vec2D;

fn vec2(x: f32, y: f32) -> Vec2D {
    Vec2D::new(x as i64, y as i64)
}
fn filled(
    w: u32,
    h: u32,
    rgba: [u8; 4],
    origin: Vec2D,
    scale: f32,
) -> Result<RawFrame, CaptureError> {
    RawFrame::filled(w, h, rgba, origin, scale.to_bits())
}
fn clear(w: u32, h: u32, origin: Vec2D, scale: f32) -> Result<RawFrame, CaptureError> {
    RawFrame::transparent(w, h, origin, scale.to_bits())
}

fn opaque_cursor(w: u32, h: u32, rgb: [u8; 3], at: Vec2D) -> CursorImage {
    let mut data = Vec::new();
    for _ in 0..w * h {
        data.extend_from_slice(&[rgb[0], rgb[1], rgb[2], 255]);
    }
    CursorImage::from_premultiplied(w, h, data, CursorAnchor::TopLeft(at)).unwrap()
}

fn black_frame(w: u32, h: u32, origin: Vec2D) -> RawFrame {
    filled(w, h, [0, 0, 0, 255], origin, 1.0).unwrap()
}

#[test]
fn an_opaque_cursor_replaces_the_pixels_under_it() {
    let mut frame = black_frame(4, 4, vec2(0.0, 0.0));
    composite_cursor(
        &mut frame,
        &opaque_cursor(2, 2, [255, 0, 0], vec2(1.0, 1.0)),
    );
    assert_eq!(frame.pixel(1, 1), Some([255, 0, 0, 255]));
    assert_eq!(frame.pixel(2, 2), Some([255, 0, 0, 255]));
    assert_eq!(frame.pixel(0, 0), Some([0, 0, 0, 255]));
    assert_eq!(frame.pixel(3, 3), Some([0, 0, 0, 255]));
}

#[test]
fn a_half_transparent_cursor_blends_with_the_background() {
    let mut frame = black_frame(1, 1, vec2(0.0, 0.0));
    let cursor = CursorImage::from_straight(
        1,
        1,
        vec![255, 255, 255, 128],
        CursorAnchor::TopLeft(vec2(0.0, 0.0)),
    )
    .unwrap();
    composite_cursor(&mut frame, &cursor);
    let px = frame.pixel(0, 0).unwrap();
    assert!(
        (120..=136).contains(&px[0]),
        "expected roughly half brightness, got {px:?}"
    );
    assert_eq!(px[3], 255, "an opaque frame must stay opaque");
}

#[test]
fn a_fully_transparent_cursor_changes_nothing() {
    let mut frame = black_frame(2, 2, vec2(0.0, 0.0));
    let before = frame.data.clone();
    let pixels: Vec<u8> = (0..16).map(|i| if i % 4 == 3 { 0 } else { 255 }).collect();
    let cursor =
        CursorImage::from_straight(2, 2, pixels, CursorAnchor::TopLeft(vec2(0.0, 0.0))).unwrap();
    composite_cursor(&mut frame, &cursor);
    assert_eq!(frame.data, before);
}

#[test]
fn a_cursor_hanging_off_each_edge_is_clipped_not_wrapped() {
    let mut frame = black_frame(4, 4, vec2(0.0, 0.0));
    composite_cursor(
        &mut frame,
        &opaque_cursor(2, 2, [255, 0, 0], vec2(-1.0, -1.0)),
    );
    assert_eq!(frame.pixel(0, 0), Some([255, 0, 0, 255]));
    assert_eq!(frame.pixel(1, 0), Some([0, 0, 0, 255]));
    assert_eq!(frame.pixel(0, 1), Some([0, 0, 0, 255]));

    let mut frame = black_frame(4, 4, vec2(0.0, 0.0));
    composite_cursor(
        &mut frame,
        &opaque_cursor(2, 2, [0, 255, 0], vec2(3.0, 3.0)),
    );
    assert_eq!(frame.pixel(3, 3), Some([0, 255, 0, 255]));
    assert_eq!(frame.pixel(2, 3), Some([0, 0, 0, 255]));
}

#[test]
fn a_cursor_entirely_outside_the_frame_is_a_no_op() {
    let mut frame = black_frame(4, 4, vec2(0.0, 0.0));
    let before = frame.data.clone();
    for at in [
        vec2(-10.0, 0.0),
        vec2(10.0, 0.0),
        vec2(0.0, -10.0),
        vec2(0.0, 10.0),
    ] {
        composite_cursor(&mut frame, &opaque_cursor(2, 2, [255, 0, 0], at));
    }
    assert_eq!(frame.data, before);
}

#[test]
fn the_frame_origin_is_taken_into_account() {
    let mut frame = black_frame(4, 4, vec2(100.0, 100.0));
    composite_cursor(
        &mut frame,
        &opaque_cursor(1, 1, [255, 0, 0], vec2(100.0, 100.0)),
    );
    assert_eq!(frame.pixel(0, 0), Some([255, 0, 0, 255]));
}

#[test]
fn a_hotspot_anchor_shifts_the_bitmap_but_a_top_left_anchor_does_not() {
    let data = vec![255, 0, 0, 255];
    let top_left = CursorImage::from_premultiplied(
        1,
        1,
        data.clone(),
        CursorAnchor::TopLeft(vec2(10.0, 10.0)),
    )
    .unwrap();
    assert_eq!(top_left.position, vec2(10.0, 10.0));

    let hotspot = CursorImage::from_premultiplied(
        1,
        1,
        data,
        CursorAnchor::Hotspot {
            position: vec2(10.0, 10.0),
            xhot: 4,
            yhot: 3,
        },
    )
    .unwrap();
    assert_eq!(hotspot.position, vec2(6.0, 7.0));
}

#[test]
fn argb_words_are_unpacked_in_the_right_channel_order() {
    let cursor = CursorImage::from_argb_words(
        2,
        1,
        &[0xff11_2233, 0xff44_5566],
        CursorAnchor::TopLeft(vec2(0.0, 0.0)),
    )
    .unwrap();
    assert_eq!(
        cursor.data,
        vec![0x11, 0x22, 0x33, 0xff, 0x44, 0x55, 0x66, 0xff]
    );
}

#[test]
fn argb_words_rejects_a_short_buffer() {
    assert!(matches!(
        CursorImage::from_argb_words(4, 4, &[0; 3], CursorAnchor::TopLeft(vec2(0.0, 0.0))),
        Err(CaptureError::InvalidFrame(_))
    ));
}

#[test]
fn channels_brighter_than_the_alpha_are_clamped_to_it() {
    let cursor = CursorImage::from_premultiplied(
        1,
        1,
        vec![255, 255, 255, 10],
        CursorAnchor::TopLeft(vec2(0.0, 0.0)),
    )
    .unwrap();
    assert_eq!(cursor.data, vec![10, 10, 10, 10]);

    let mut frame = filled(1, 1, [255, 255, 255, 255], vec2(0.0, 0.0), 1.0).unwrap();
    composite_cursor(&mut frame, &cursor);
    assert_eq!(frame.pixel(0, 0), Some([255, 255, 255, 255]));
}

#[test]
fn blending_onto_a_transparent_gap_keeps_the_cursor_colour() {
    let mut frame = clear(1, 1, vec2(0.0, 0.0), 1.0).unwrap();
    composite_cursor(
        &mut frame,
        &opaque_cursor(1, 1, [200, 100, 50], vec2(0.0, 0.0)),
    );
    assert_eq!(frame.pixel(0, 0), Some([200, 100, 50, 255]));
}

#[test]
fn a_partly_transparent_cursor_over_a_transparent_gap_accumulates_alpha() {
    let mut frame = clear(1, 1, vec2(0.0, 0.0), 1.0).unwrap();
    let cursor = CursorImage::from_straight(
        1,
        1,
        vec![255, 0, 0, 128],
        CursorAnchor::TopLeft(vec2(0.0, 0.0)),
    )
    .unwrap();
    composite_cursor(&mut frame, &cursor);
    let px = frame.pixel(0, 0).unwrap();
    assert_eq!(px[3], 128, "alpha should come from the cursor alone");
    assert!(px[0] > 250, "un-premultiplying should restore full red");
}

#[test]
fn mismatched_buffer_lengths_are_rejected() {
    assert!(matches!(
        CursorImage::from_premultiplied(2, 2, vec![0; 8], CursorAnchor::TopLeft(vec2(0.0, 0.0))),
        Err(CaptureError::InvalidFrame(_))
    ));
}

#[test]
fn an_empty_cursor_is_a_no_op() {
    let mut frame = black_frame(2, 2, vec2(0.0, 0.0));
    let before = frame.data.clone();
    let cursor =
        CursorImage::from_premultiplied(0, 0, Vec::new(), CursorAnchor::TopLeft(vec2(0.0, 0.0)))
            .unwrap();
    assert!(cursor.is_empty());
    composite_cursor(&mut frame, &cursor);
    assert_eq!(frame.data, before);
}

#[test]
fn the_blend_matches_a_floating_point_source_over_reference() {
    fn reference(src_c: f64, sa: f64, dst_c: f64, da: f64) -> f64 {
        let (sa, da) = (sa / 255.0, da / 255.0);
        let out_a = sa + da * (1.0 - sa);
        if out_a == 0.0 {
            return 0.0;
        }
        let out_pm = src_c / 255.0 + (dst_c / 255.0) * da * (1.0 - sa);
        255.0 * out_pm / out_a
    }

    let mut worst: f64 = 0.0;
    for sa in 0..=255u32 {
        for da in (0..=255u32).step_by(3) {
            for src_c in (0..=sa).step_by((sa as usize / 8).max(1)) {
                for dst_c in (0..=255u32).step_by(17) {
                    let mut dst = [dst_c as u8, 0, 0, da as u8];
                    let src = [src_c as u8, 0, 0, sa as u8];
                    if sa == 0 {
                        continue;
                    }
                    blend_premultiplied_over(&src, &mut dst, sa);
                    let expected = reference(src_c as f64, sa as f64, dst_c as f64, da as f64);
                    worst = worst.max((f64::from(dst[0]) - expected).abs());

                    let expected_a = 255.0
                        * (sa as f64 / 255.0 + (da as f64 / 255.0) * (1.0 - sa as f64 / 255.0));
                    assert!(
                        (f64::from(dst[3]) - expected_a).abs() <= 1.0,
                        "alpha: sa={sa} da={da} got {} want {expected_a:.2}",
                        dst[3]
                    );
                }
            }
        }
    }
    assert!(
        worst <= 1.0,
        "blend drifts from the reference by {worst:.3} LSB"
    );
}

#[test]
fn a_low_alpha_destination_does_not_lose_the_colour_underneath() {
    let mut dst = [128, 0, 0, 1];
    blend_premultiplied_over(&[0, 0, 0, 1], &mut dst, 1);
    assert_eq!(dst[0], 64);
}

#[test]
fn a_cursor_built_by_struct_literal_cannot_corrupt_or_panic() {
    let mut frame = filled(2, 2, [255, 255, 255, 255], vec2(0.0, 0.0), 1.0).unwrap();
    composite_cursor(
        &mut frame,
        &CursorImage {
            width: 1,
            height: 1,
            data: vec![255, 255, 255, 1],
            position: vec2(0.0, 0.0),
        },
    );
    assert_eq!(
        frame.pixel(0, 0),
        Some([255, 255, 255, 255]),
        "white over white must stay white, not wrap to dark"
    );

    let before = frame.data.clone();
    composite_cursor(
        &mut frame,
        &CursorImage {
            width: 4,
            height: 4,
            data: vec![0; 8],
            position: vec2(0.0, 0.0),
        },
    );
    assert_eq!(frame.data, before);
}

#[test]
fn an_absurd_cursor_position_cannot_overflow_the_overlap_maths() {
    let mut frame = filled(4, 4, [0, 0, 0, 255], vec2(0.0, 0.0), 1.0).unwrap();
    let before = frame.data.clone();
    for x in [1e30, -1e30, f32::INFINITY, f32::NEG_INFINITY, f32::NAN] {
        composite_cursor(
            &mut frame,
            &opaque_cursor(2, 2, [255, 0, 0], vec2(x, x)),
        );
    }
    assert_eq!(frame.pixel(3, 3), Some([0, 0, 0, 255]));
    let _ = before;
}

fn pack_mask(width: u32, rows: &[Vec<bool>]) -> (Vec<u8>, usize) {
    let stride = ((width as usize).div_ceil(8)).div_ceil(4) * 4;
    let mut out = vec![0u8; stride * rows.len()];
    for (y, row) in rows.iter().enumerate() {
        for (x, &set) in row.iter().enumerate() {
            if set {
                out[y * stride + x / 8] |= 0x80 >> (x % 8);
            }
        }
    }
    (out, stride)
}

#[test]
fn a_win32_colour_cursor_uses_its_alpha_channel() {
    let bgra = vec![0, 0, 255, 255, 255, 0, 0, 128];
    let (mask, stride) = pack_mask(2, &[vec![false, false]]);
    let cursor = CursorImage::from_win32_color(
        2,
        1,
        &bgra,
        &mask,
        stride,
        CursorAnchor::TopLeft(vec2(0.0, 0.0)),
    )
    .unwrap();
    assert_eq!(&cursor.data[..4], &[255, 0, 0, 255]);
    assert_eq!(cursor.data[7], 128, "alpha is preserved");
    assert!(cursor.data[6] < 130, "blue should be premultiplied down");
}

#[test]
fn a_colour_cursor_with_no_alpha_falls_back_to_the_and_mask() {
    let bgra = vec![0, 0, 255, 0, 0, 255, 0, 0];
    let (mask, stride) = pack_mask(2, &[vec![false, true]]);
    let cursor = CursorImage::from_win32_color(
        2,
        1,
        &bgra,
        &mask,
        stride,
        CursorAnchor::TopLeft(vec2(0.0, 0.0)),
    )
    .unwrap();
    assert_eq!(&cursor.data[..4], &[255, 0, 0, 255], "left is opaque red");
    assert_eq!(&cursor.data[4..], &[0, 0, 0, 0], "right is transparent");
}

#[test]
fn a_monochrome_cursor_decodes_all_four_and_xor_combinations() {
    let and = vec![false, false, true, true];
    let xor = vec![false, true, false, true];
    let (mask, stride) = pack_mask(4, &[and, xor]);
    let cursor = CursorImage::from_win32_monochrome(
        4,
        1,
        &mask,
        stride,
        CursorAnchor::TopLeft(vec2(0.0, 0.0)),
    )
    .unwrap();
    assert_eq!(&cursor.data[0..4], &[0, 0, 0, 255], "opaque black");
    assert_eq!(&cursor.data[4..8], &[255, 255, 255, 255], "opaque white");
    assert_eq!(&cursor.data[8..12], &[0, 0, 0, 0], "transparent");
    assert_eq!(&cursor.data[12..16], &[0, 0, 0, 255], "invert -> black");
}

#[test]
fn mask_rows_are_read_at_their_padded_stride() {
    let (mask, stride) = pack_mask(1, &[vec![false], vec![true]]);
    assert_eq!(stride, 4);
    let cursor = CursorImage::from_win32_monochrome(
        1,
        1,
        &mask,
        stride,
        CursorAnchor::TopLeft(vec2(0.0, 0.0)),
    )
    .unwrap();
    assert_eq!(cursor.data, vec![255, 255, 255, 255]);
}

#[test]
fn mask_bits_are_read_most_significant_first() {
    let (mask, stride) = pack_mask(8, &[(0..8).map(|i| i == 0).collect()]);
    assert_eq!(mask[0], 0x80, "pixel 0 belongs in the high bit");
    assert!(mask_bit(&mask, stride, 0, 0));
    assert!(!mask_bit(&mask, stride, 1, 0));
}

#[test]
fn a_truncated_win32_mask_is_an_error_not_a_panic() {
    let bgra = vec![0; 4 * 4];
    assert!(
        CursorImage::from_win32_color(
            4,
            1,
            &bgra,
            &[0; 1],
            4,
            CursorAnchor::TopLeft(vec2(0.0, 0.0))
        )
        .is_err()
    );
    assert!(
        CursorImage::from_win32_monochrome(
            4,
            1,
            &[0; 4],
            4,
            CursorAnchor::TopLeft(vec2(0.0, 0.0))
        )
        .is_err()
    );
}

#[test]
fn a_win32_mask_stride_narrower_than_the_cursor_is_rejected() {
    assert!(
        CursorImage::from_win32_monochrome(
            64,
            1,
            &[0; 64],
            4,
            CursorAnchor::TopLeft(vec2(0.0, 0.0))
        )
        .is_err(),
        "a 64px row needs 8 bytes, not 4"
    );
}

#[test]
fn div255_rounds_rather_than_truncating() {
    assert_eq!(div255(0), 0);
    assert_eq!(div255(255), 1);
    assert_eq!(div255(255 * 255), 255);
    assert_eq!(div255(128 * 255), 128);
    for v in 0..=(255 * 255u32) {
        assert_eq!(div255(v), (f64::from(v) / 255.0).round() as u32, "v={v}");
    }
}
