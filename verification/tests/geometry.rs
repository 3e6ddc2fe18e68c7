use bettershot::error::CaptureError;
use bettershot::geometry::{bounding_box, clamp_edges, clamp_region, contains_half_open, PixelRect, Rect, Vec2D};

fn xywh(x: f32, y: f32, w: f32, h: f32) -> Rect {
    Rect::from_xywh(x as i64, y as i64, w as i64, h as i64)
}
fn vec2(x: f32, y: f32) -> Vec2D {
    Vec2D::new(x as i64, y as i64)
}

#[test]
fn bounding_box_of_nothing_is_none() {
    assert!(bounding_box(&[]).is_none());
}

#[test]
fn bounding_box_spans_negative_origins() {
    let bb = bounding_box(&[
        xywh(0.0, 0.0, 1920.0, 1080.0),
        xywh(-1280.0, -200.0, 1280.0, 1024.0),
    ])
    .unwrap();
    assert_eq!(bb, xywh(-1280.0, -200.0, 3200.0, 1280.0));
}

#[test]
fn bounding_box_covers_gaps() {
    let bb = bounding_box(&[
        xywh(0.0, 0.0, 100.0, 100.0),
        xywh(500.0, 0.0, 100.0, 100.0),
    ])
    .unwrap();
    assert_eq!(bb, xywh(0.0, 0.0, 600.0, 100.0));
}

#[test]
fn clamp_region_clips_to_bounds() {
    let bounds = xywh(0.0, 0.0, 100.0, 100.0);
    let got = clamp_region(xywh(-20.0, 40.0, 80.0, 400.0), bounds).unwrap();
    assert_eq!(got, xywh(0.0, 40.0, 60.0, 60.0));
}

#[test]
fn clamp_region_rejects_degenerate_requests() {
    let bounds = xywh(0.0, 0.0, 100.0, 100.0);
    assert!(matches!(
        clamp_region(xywh(10.0, 10.0, 0.0, 50.0), bounds),
        Err(CaptureError::EmptyRegion)
    ));
}

#[test]
fn clamp_region_rejects_fully_outside_requests() {
    let bounds = xywh(0.0, 0.0, 100.0, 100.0);
    assert!(matches!(
        clamp_region(xywh(200.0, 200.0, 10.0, 10.0), bounds),
        Err(CaptureError::EmptyRegion)
    ));
    assert!(matches!(
        clamp_region(xywh(100.0, 0.0, 10.0, 10.0), bounds),
        Err(CaptureError::EmptyRegion)
    ));
}

#[test]
fn clamp_region_normalizes_backwards_drags() {
    let bounds = xywh(0.0, 0.0, 100.0, 100.0);
    let dragged_up_left = xywh(80.0, 80.0, -60.0, -60.0);
    assert_eq!(
        clamp_region(dragged_up_left, bounds).unwrap(),
        xywh(20.0, 20.0, 60.0, 60.0)
    );
}

#[test]
fn pixel_rect_keeps_negative_origins() {
    let r = PixelRect::from_rect(xywh(-1280.0, -200.0, 1280.0, 1024.0)).unwrap();
    assert_eq!(r, PixelRect::new(-1280, -200, 1280, 1024));
    assert_eq!(r.right(), 0);
    assert_eq!(r.bottom(), 824);
    assert_eq!(r.pixel_count(), 1280 * 1024);
}

#[test]
fn pixel_rect_round_trips_through_rect() {
    let r = PixelRect::new(-5, 7, 30, 40);
    assert_eq!(PixelRect::from_rect(r.to_rect()).unwrap(), r);
}

#[test]
fn relative_to_shifts_into_frame_local_space() {
    let r = PixelRect::new(100, 50, 20, 20);
    assert_eq!(
        r.relative_to(vec2(-1280.0, -200.0)),
        PixelRect::new(1380, 250, 20, 20)
    );
}

/// A rectangle of single-precision coordinates, as its edges on the pixel grid.
fn snapped(x: f32, y: f32, w: f32, h: f32) -> Result<PixelRect, CaptureError> {
    PixelRect::from_edges(x.to_bits(), y.to_bits(), (x + w).to_bits(), (y + h).to_bits())
}

/// A request of single-precision coordinates, clipped to `bounds`.
fn clamped(x: f32, y: f32, w: f32, h: f32, bounds: Rect) -> Result<Rect, CaptureError> {
    clamp_edges(x.to_bits(), y.to_bits(), (x + w).to_bits(), (y + h).to_bits(), bounds)
}

#[test]
fn huge_requests_are_clipped_and_backwards_ones_put_in_order() {
    let bounds = xywh(-10.0, 0.0, 110.0, 50.0);
    assert_eq!(clamped(-1e30, -1e30, 2e30, 2e30, bounds).unwrap(), bounds);
    assert_eq!(clamped(30.4, 20.5, -10.0, 5.0, bounds).unwrap(), xywh(20.0, 21.0, 10.0, 5.0));
    assert!(matches!(clamped(200.0, 0.0, 10.0, 10.0, bounds), Err(CaptureError::EmptyRegion)));
}

#[test]
fn a_non_finite_region_is_rejected_rather_than_becoming_the_whole_desktop() {
    let bounds = xywh(0.0, 0.0, 1920.0, 1080.0);
    for (x, y, w, h) in [
        (f32::NAN, f32::NAN, 100.0, 100.0),
        (0.0, 0.0, f32::NAN, 100.0),
        (f32::INFINITY, 0.0, 100.0, 100.0),
        (0.0, 0.0, f32::NEG_INFINITY, 100.0),
    ] {
        assert!(
            matches!(clamped(x, y, w, h, bounds), Err(CaptureError::EmptyRegion)),
            "{x} {y} {w} {h} should not clamp to anything"
        );
    }
    assert!(clamped(10.0, 10.0, 50.0, 50.0, bounds).is_ok());
    assert!(clamp_region(xywh(10.0, 10.0, 50.0, 50.0), bounds).is_ok());
}

#[test]
fn half_open_containment_excludes_the_far_edges() {
    let r = xywh(0.0, 0.0, 10.0, 10.0);
    assert!(contains_half_open(r, vec2(0.0, 0.0)));
    assert!(contains_half_open(r, vec2(9.999, 9.999)));
    assert!(!contains_half_open(r, vec2(10.0, 5.0)));
    assert!(!contains_half_open(r, vec2(5.0, 10.0)));
    assert!(!contains_half_open(r, vec2((-0.001f32).floor(), 5.0)));
}

#[test]
fn adjacent_rects_never_both_claim_the_shared_edge() {
    let left = xywh(0.0, 0.0, 100.0, 100.0);
    let right = xywh(100.0, 0.0, 100.0, 100.0);
    let seam = vec2(100.0, 50.0);
    assert!(!contains_half_open(left, seam));
    assert!(contains_half_open(right, seam));
    assert!(left.contains(seam) && right.contains(seam));
}

#[test]
fn pixel_rect_rounds_edges_not_extents() {
    let a = snapped(0.4, 0.0, 10.0, 5.0).unwrap();
    let b = snapped(10.4, 0.0, 10.0, 5.0).unwrap();
    assert_eq!(a, PixelRect::new(0, 0, 10, 5));
    assert_eq!(b, PixelRect::new(10, 0, 10, 5));
    assert_eq!(a.right(), b.x);
}

#[test]
fn pixel_rect_rejects_subpixel_and_nonfinite_rects() {
    assert!(matches!(snapped(0.0, 0.0, 0.2, 10.0), Err(CaptureError::EmptyRegion)));
    assert!(matches!(snapped(0.0, 0.0, f32::NAN, 10.0), Err(CaptureError::InvalidFrame(_))));
    assert!(matches!(snapped(0.0, 0.0, f32::INFINITY, 10.0), Err(CaptureError::InvalidFrame(_))));
}

#[test]
fn halves_round_away_from_zero() {
    assert_eq!(snapped(0.5, -0.5, 2.0, 3.0).unwrap(), PixelRect::new(1, -1, 2, 4));
    assert_eq!(snapped(-2.5, 1.49, 5.0, 1.02).unwrap(), PixelRect::new(-3, 1, 6, 2));
}

#[test]
fn coordinates_beyond_the_grid_are_invalid() {
    assert!(matches!(snapped(0.0, 0.0, 1e12, 10.0), Err(CaptureError::InvalidFrame(_))));
    let wide = Rect::from_xywh(0, 0, 1 << 40, 10);
    assert!(matches!(
        PixelRect::from_rect(wide),
        Err(CaptureError::InvalidFrame(m)) if m == "region does not fit in i32 pixel coordinates: \
            left 0, top 0, right 1099511627776, bottom 10"
    ));
}

#[test]
fn regions_larger_than_the_grid_can_measure_are_invalid() {
    assert!(matches!(snapped(-2.0e9, 0.0, 4.0e9, 10.0), Err(CaptureError::InvalidFrame(_))));
    assert!(matches!(snapped(0.0, -2.0e9, 10.0, 4.0e9), Err(CaptureError::InvalidFrame(_))));
    let wide = Rect::from_xywh(-2_000_000_000, 0, 4_000_000_000, 10);
    assert!(matches!(
        PixelRect::from_rect(wide),
        Err(CaptureError::InvalidFrame(m)) if m == "region does not fit in i32 pixel coordinates: \
            left -2000000000, top 0, right 2000000000, bottom 10"
    ));
    let widest = Rect::from_xywh(-1, 0, i64::from(i32::MAX), 10);
    assert_eq!(PixelRect::from_rect(widest).unwrap().width, i32::MAX as u32);
    let wider = Rect::from_xywh(-1, 0, i64::from(i32::MAX) + 1, 10);
    assert!(matches!(PixelRect::from_rect(wider), Err(CaptureError::InvalidFrame(_))));
}

#[test]
fn refused_edges_are_named_by_their_bits() {
    assert!(matches!(
        snapped(0.0, 1.0, f32::INFINITY, 2.0),
        Err(CaptureError::InvalidFrame(m)) if m == "region has non-finite coordinates: \
            left 0x0, top 0x3f800000, right 0x7f800000, bottom 0x40400000"
    ));
}

#[test]
fn the_far_edges_stop_at_the_end_of_the_grid() {
    let r = PixelRect::new(i32::MAX - 5, i32::MAX - 7, 10, 20);
    assert_eq!(r.right(), i32::MAX);
    assert_eq!(r.bottom(), i32::MAX);
    let r = PixelRect::new(-2_000_000_000, -5, u32::MAX, 3);
    assert_eq!(r.right(), i32::MAX);
    assert_eq!(r.bottom(), -2);
}

#[test]
fn disjoint_rectangles_clip_to_nothing() {
    let a = xywh(0.0, 0.0, 10.0, 10.0);
    let b = xywh(20.0, 0.0, 10.0, 10.0);
    assert!(a.clamped_to(b).is_empty());
    assert_eq!(a.clamped_to(xywh(5.0, 5.0, 100.0, 100.0)), xywh(5.0, 5.0, 5.0, 5.0));
    assert_eq!(a.area(), 100);
    assert_eq!(Rect::default().area(), 0);
}
