use bettershot::error::CaptureError;
use bettershot::frame::{expected_len, stitch, RawFrame};
use bettershot::geometry::{PixelRect, Rect, Vec2D};
use bettershot::single::ScaleFactor;

fn xywh(x: f32, y: f32, w: f32, h: f32) -> Rect {
    Rect::from_xywh(x as i64, y as i64, w as i64, h as i64)
}
fn vec2(x: f32, y: f32) -> Vec2D {
    Vec2D::new(x as i64, y as i64)
}
fn scale(factor: f32) -> ScaleFactor {
    ScaleFactor { bits: factor.to_bits() }
}
fn filled(
    w: u32,
    h: u32,
    rgba: [u8; 4],
    origin: Vec2D,
    scale: f32,
) -> Result<RawFrame, CaptureError> {
    RawFrame::filled(w, h, rgba, origin, scale.to_bits())
}
fn clear(w: u32, h: u32, origin: Vec2D, scale: f32) -> Result<RawFrame, CaptureError> {
    RawFrame::transparent(w, h, origin, scale.to_bits())
}
fn raw(w: u32, h: u32, data: Vec<u8>, scale: f32) -> Result<RawFrame, CaptureError> {
    RawFrame::new(w, h, data, Vec2D::new(0, 0), scale.to_bits())
}

const RED: [u8; 4] = [255, 0, 0, 255];
const GREEN: [u8; 4] = [0, 255, 0, 255];
const BLUE: [u8; 4] = [0, 0, 255, 255];
const CLEAR: [u8; 4] = [0, 0, 0, 0];

fn solid(w: u32, h: u32, colour: [u8; 4], x: f32, y: f32) -> RawFrame {
    filled(w, h, colour, vec2(x, y), 1.0).unwrap()
}

#[test]
fn new_validates_the_buffer_length() {
    assert!(raw(2, 2, vec![0; 16], 1.0).is_ok());
    assert!(matches!(
        raw(2, 2, vec![0; 15], 1.0),
        Err(CaptureError::InvalidFrame(_))
    ));
}

#[test]
fn new_sanitizes_broken_scale_factors() {
    let f = raw(1, 1, vec![0; 4], 0.0).unwrap();
    assert_eq!(f.scale_factor, scale(1.0));
    let f = raw(1, 1, vec![0; 4], f32::NAN).unwrap();
    assert_eq!(f.scale_factor, scale(1.0));
}

#[test]
fn filled_paints_every_pixel() {
    let f = solid(3, 2, RED, 0.0, 0.0);
    assert_eq!(f.data.len(), 3 * 2 * 4);
    assert_eq!(f.pixel_count(), 6);
    for y in 0..2 {
        for x in 0..3 {
            assert_eq!(f.pixel(x, y), Some(RED));
        }
    }
    assert_eq!(f.pixel(3, 0), None);
    assert_eq!(f.pixel(0, 2), None);
}

#[test]
fn transparent_frames_start_fully_clear() {
    let f = clear(2, 2, vec2(0.0, 0.0), 1.0).unwrap();
    assert!(f.data.iter().all(|b| *b == 0));
}

#[test]
fn set_pixel_ignores_out_of_range_writes() {
    let mut f = solid(2, 2, RED, 0.0, 0.0);
    f.set_pixel(1, 1, GREEN);
    f.set_pixel(9, 9, BLUE);
    assert_eq!(f.pixel(1, 1), Some(GREEN));
    assert_eq!(f.pixel(0, 0), Some(RED));
}

#[test]
fn bounds_track_the_origin() {
    let f = solid(100, 50, RED, -1280.0, -200.0);
    assert_eq!(f.bounds(), xywh(-1280.0, -200.0, 100.0, 50.0));
    assert_eq!(f.pixel_bounds(), PixelRect::new(-1280, -200, 100, 50));
}

#[test]
fn stitch_of_nothing_is_an_empty_region() {
    assert!(matches!(stitch(&[]), Err(CaptureError::EmptyRegion)));
    let empty = clear(0, 0, vec2(0.0, 0.0), 1.0).unwrap();
    assert!(matches!(stitch(&[empty]), Err(CaptureError::EmptyRegion)));
}

#[test]
fn stitch_places_two_frames_side_by_side() {
    let left = solid(2, 2, RED, 0.0, 0.0);
    let right = solid(2, 2, GREEN, 2.0, 0.0);
    let out = stitch(&[left, right]).unwrap();

    assert_eq!(out.width, 4);
    assert_eq!(out.height, 2);
    assert_eq!(out.origin, vec2(0.0, 0.0));
    for y in 0..2 {
        assert_eq!(out.pixel(0, y), Some(RED));
        assert_eq!(out.pixel(1, y), Some(RED));
        assert_eq!(out.pixel(2, y), Some(GREEN));
        assert_eq!(out.pixel(3, y), Some(GREEN));
    }
}

#[test]
fn stitch_handles_a_negative_origin_by_rebasing_the_result() {
    let left = solid(2, 2, RED, -2.0, 0.0);
    let right = solid(2, 2, GREEN, 0.0, 0.0);
    let out = stitch(&[left, right]).unwrap();

    assert_eq!((out.width, out.height), (4, 2));
    assert_eq!(out.origin, vec2(-2.0, 0.0));
    assert_eq!(out.pixel(0, 0), Some(RED));
    assert_eq!(out.pixel(2, 0), Some(GREEN));
}

#[test]
fn stitch_handles_negative_origins_in_both_axes() {
    let above_left = solid(2, 2, RED, -2.0, -3.0);
    let main = solid(2, 2, GREEN, 0.0, 0.0);
    let out = stitch(&[above_left, main]).unwrap();

    assert_eq!((out.width, out.height), (4, 5));
    assert_eq!(out.origin, vec2(-2.0, -3.0));
    assert_eq!(out.pixel(0, 0), Some(RED));
    assert_eq!(out.pixel(2, 3), Some(GREEN));
    assert_eq!(out.pixel(3, 0), Some(CLEAR));
    assert_eq!(out.pixel(0, 4), Some(CLEAR));
}

#[test]
fn stitch_fills_a_vertical_gap_with_transparency() {
    let top = solid(2, 2, RED, 0.0, 0.0);
    let bottom = solid(2, 2, BLUE, 0.0, 5.0);
    let out = stitch(&[top, bottom]).unwrap();

    assert_eq!((out.width, out.height), (2, 7));
    for y in 0..2 {
        assert_eq!(out.pixel(0, y), Some(RED));
    }
    for y in 2..5 {
        assert_eq!(out.pixel(0, y), Some(CLEAR), "row {y} should be the gap");
        assert_eq!(out.pixel(1, y), Some(CLEAR));
    }
    for y in 5..7 {
        assert_eq!(out.pixel(0, y), Some(BLUE));
    }
}

#[test]
fn stitch_fills_an_l_shaped_layout_gap() {
    let top = solid(4, 1, RED, 0.0, 0.0);
    let bottom_left = solid(2, 1, GREEN, 0.0, 1.0);
    let out = stitch(&[top, bottom_left]).unwrap();

    assert_eq!((out.width, out.height), (4, 2));
    assert_eq!(out.pixel(3, 0), Some(RED));
    assert_eq!(out.pixel(1, 1), Some(GREEN));
    assert_eq!(out.pixel(2, 1), Some(CLEAR));
    assert_eq!(out.pixel(3, 1), Some(CLEAR));
}

#[test]
fn stitch_lets_later_frames_win_where_they_overlap() {
    let back = solid(2, 2, RED, 0.0, 0.0);
    let front = solid(2, 2, GREEN, 1.0, 1.0);
    let out = stitch(&[back, front]).unwrap();

    assert_eq!((out.width, out.height), (3, 3));
    assert_eq!(out.pixel(0, 0), Some(RED));
    assert_eq!(out.pixel(1, 1), Some(GREEN));
    assert_eq!(out.pixel(2, 2), Some(GREEN));
}

#[test]
fn stitch_reports_the_largest_source_scale_factor() {
    let lo = filled(2, 2, RED, vec2(0.0, 0.0), 1.0).unwrap();
    let hi = filled(2, 2, GREEN, vec2(2.0, 0.0), 1.5).unwrap();
    assert_eq!(stitch(&[lo, hi]).unwrap().scale_factor, scale(1.5));
}

#[test]
fn stitch_never_reports_a_scale_factor_below_one() {
    let a = filled(2, 2, RED, vec2(0.0, 0.0), 0.5).unwrap();
    let b = filled(2, 2, GREEN, vec2(2.0, 0.0), 0.75).unwrap();
    assert_eq!(a.scale_factor, scale(0.5));
    assert_eq!(stitch(&[a, b]).unwrap().scale_factor, scale(1.0));
}

#[test]
fn stitch_skips_empty_frames_but_keeps_the_rest() {
    let empty = clear(0, 0, vec2(-1000.0, 0.0), 1.0).unwrap();
    let real = solid(2, 2, RED, 0.0, 0.0);
    let out = stitch(&[empty, real]).unwrap();
    assert_eq!((out.width, out.height), (2, 2));
    assert_eq!(out.origin, vec2(0.0, 0.0));
}

#[test]
fn stitch_of_a_single_frame_is_a_copy() {
    let one = solid(3, 2, BLUE, -5.0, 7.0);
    let out = stitch(std::slice::from_ref(&one)).unwrap();
    assert_eq!(out.width, one.width);
    assert_eq!(out.height, one.height);
    assert_eq!(out.origin, one.origin);
    assert_eq!(out.data, one.data);
}

#[test]
fn crop_cuts_a_sub_image_in_virtual_coordinates() {
    let mut frame = solid(4, 4, RED, 100.0, 100.0);
    frame.set_pixel(2, 1, GREEN);
    let cropped = frame.crop(xywh(102.0, 101.0, 2.0, 2.0)).unwrap();

    assert_eq!((cropped.width, cropped.height), (2, 2));
    assert_eq!(cropped.origin, vec2(102.0, 101.0));
    assert_eq!(cropped.pixel(0, 0), Some(GREEN));
    assert_eq!(cropped.pixel(1, 0), Some(RED));
}

#[test]
fn crop_clips_to_the_frame_and_keeps_the_clipped_origin() {
    let frame = solid(4, 4, RED, 0.0, 0.0);
    let cropped = frame.crop(xywh(-10.0, 2.0, 20.0, 20.0)).unwrap();
    assert_eq!((cropped.width, cropped.height), (4, 2));
    assert_eq!(cropped.origin, vec2(0.0, 2.0));
}

#[test]
fn crop_rejects_regions_outside_the_frame() {
    let frame = solid(4, 4, RED, 0.0, 0.0);
    assert!(matches!(
        frame.crop(xywh(100.0, 100.0, 4.0, 4.0)),
        Err(CaptureError::EmptyRegion)
    ));
    assert!(matches!(
        frame.crop(xywh(0.0, 0.0, 0.0, 4.0)),
        Err(CaptureError::EmptyRegion)
    ));
}

#[test]
fn crop_preserves_the_scale_factor() {
    let frame = filled(4, 4, RED, vec2(0.0, 0.0), 2.0).unwrap();
    assert_eq!(
        frame
            .crop(xywh(1.0, 1.0, 2.0, 2.0))
            .unwrap()
            .scale_factor,
        scale(2.0)
    );
}

#[test]
fn stitch_then_crop_round_trips_a_monitor_out_of_the_desktop() {
    let left = solid(2, 2, RED, -2.0, 0.0);
    let right = solid(2, 2, GREEN, 0.0, 0.0);
    let desktop = stitch(&[left, right]).unwrap();
    let recovered = desktop.crop(xywh(-2.0, 0.0, 2.0, 2.0)).unwrap();
    assert_eq!(recovered.origin, vec2(-2.0, 0.0));
    assert_eq!(recovered.data, solid(2, 2, RED, 0.0, 0.0).data);
}

#[test]
fn a_frame_too_large_to_address_is_invalid() {
    assert_eq!(expected_len(1920, 1080).unwrap(), 1920 * 1080 * 4);
    assert!(matches!(
        expected_len(u32::MAX, u32::MAX),
        Err(CaptureError::InvalidFrame(_))
    ));
}

#[test]
fn stitching_and_cropping_keep_the_whole_frame() {
    let frame = solid(3, 2, GREEN, 7.0, -4.0);
    let whole = frame.crop(frame.bounds()).unwrap();
    assert_eq!(whole.data, frame.data);
    assert_eq!(whole.origin, frame.origin);
}

#[test]
fn frames_very_far_apart_are_too_large_to_stitch() {
    let one = 1.0f32.to_bits();
    let corner = Vec2D::new(-2_000_000_000, -2_000_000_000);
    let near = RawFrame::filled(1, 1, RED, corner, one).unwrap();
    let corner = Vec2D::new(2_000_000_000, 2_000_000_000);
    let far = RawFrame::filled(1, 1, GREEN, corner, one).unwrap();
    assert!(matches!(stitch(&[near, far]), Err(CaptureError::InvalidFrame(_))));
}
