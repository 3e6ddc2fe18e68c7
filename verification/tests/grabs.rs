use bettershot::cursor::CursorAnchor;
use bettershot::error::CaptureError;
use bettershot::frame::RawFrame;
use bettershot::geometry::{Rect, Vec2D};
use bettershot::grabs::{assemble, fit_to_target, plan_grabs, GrabPlan};
use bettershot::monitor::{MonitorId, MonitorInfo, VirtualDesktop};
use bettershot::single::ScaleFactor;
use bettershot::target::{resolve_target, CaptureTarget};
use bettershot::win32::{
    cursor_shape, decode_cursor, map_grab_failure, mask_stride, plan_capture,
    windows_front_to_back, CursorShape, GrabFailure,
};
use bettershot::window::{WindowId, WindowInfo};

const RED: [u8; 4] = [255, 0, 0, 255];
const BLUE: [u8; 4] = [0, 0, 255, 255];

fn scale(factor: f32) -> ScaleFactor {
    ScaleFactor { bits: factor.to_bits() }
}

/// An 8x4 monitor at the origin, and a 4x4 one at its right, two rows lower.
fn desktop() -> VirtualDesktop {
    VirtualDesktop::new(vec![
        MonitorInfo::new(
            MonitorId::new(1),
            "left",
            Rect::from_xywh(0, 0, 8, 4),
            1.0f32.to_bits(),
            true,
        ),
        MonitorInfo::new(
            MonitorId::new(2),
            "right",
            Rect::from_xywh(8, 2, 4, 4),
            2.0f32.to_bits(),
            false,
        ),
    ])
}

fn window(id: u64, bounds: Rect, z: u32) -> WindowInfo {
    WindowInfo::new(WindowId::new(id), "window", "app", bounds, false, z)
}

fn grabs() -> Vec<RawFrame> {
    vec![
        RawFrame::filled(8, 4, RED, Vec2D::new(0, 0), 1.0f32.to_bits()).unwrap(),
        RawFrame::filled(4, 4, BLUE, Vec2D::new(8, 2), 2.0f32.to_bits()).unwrap(),
    ]
}

#[test]
fn a_monitor_is_grabbed_in_full_where_it_is() {
    match plan_grabs(CaptureTarget::Monitor(MonitorId::new(2)), &desktop(), &[]) {
        Ok(GrabPlan::Monitor { id, origin, scale_factor }) => {
            assert_eq!(id, MonitorId::new(2));
            assert_eq!(origin, Vec2D::new(8, 2));
            assert_eq!(scale_factor, scale(2.0));
        }
        other => panic!("{other:?}"),
    }
    assert!(matches!(
        plan_grabs(CaptureTarget::Monitor(MonitorId::new(9)), &desktop(), &[]),
        Err(CaptureError::NoSuchMonitor(_))
    ));
}

#[test]
fn a_window_is_placed_where_all_of_it_is() {
    let windows = vec![window(5, Rect::from_xywh(-3, 1, 6, 2), 0)];
    match plan_grabs(CaptureTarget::Window(WindowId::new(5)), &desktop(), &windows) {
        Ok(GrabPlan::Window { id, origin, scale_factor }) => {
            assert_eq!(id, WindowId::new(5));
            assert_eq!(origin, Vec2D::new(-3, 1), "not clipped to the desktop");
            assert_eq!(scale_factor, scale(1.0));
        }
        other => panic!("{other:?}"),
    }
}

#[test]
fn a_region_needs_only_the_monitors_that_it_touches() {
    let covered = |rect: Rect| match plan_grabs(CaptureTarget::region(rect), &desktop(), &[]) {
        Ok(GrabPlan::Covering { monitors, resolved }) => (monitors, resolved.bounds),
        other => panic!("{other:?}"),
    };
    let inside = Rect::from_xywh(1, 1, 2, 2);
    assert_eq!(covered(inside), (vec![MonitorId::new(1)], inside));
    let across = Rect::from_xywh(6, 2, 4, 2);
    assert_eq!(
        covered(across),
        (vec![MonitorId::new(1), MonitorId::new(2)], across)
    );
}

#[test]
fn a_region_in_a_gap_of_the_layout_is_empty() {
    // On the bounding box of the desktop, and yet on none of its monitors.
    let gap = CaptureTarget::region(Rect::from_xywh(1, 5, 2, 1));
    assert!(matches!(
        plan_grabs(gap, &desktop(), &[]),
        Err(CaptureError::EmptyRegion)
    ));
}

#[test]
fn the_whole_desktop_is_assembled_with_clear_gaps() {
    let resolved = resolve_target(CaptureTarget::FullDesktop, &desktop(), &[]).unwrap();
    let frame = assemble(&grabs(), &resolved).unwrap();
    assert_eq!((frame.width, frame.height), (12, 6));
    assert_eq!(frame.origin, Vec2D::new(0, 0));
    assert_eq!(frame.pixel(7, 3), Some(RED));
    assert_eq!(frame.pixel(8, 2), Some(BLUE));
    assert_eq!(frame.pixel(11, 5), Some(BLUE));
    assert_eq!(frame.pixel(8, 1), Some([0, 0, 0, 0]), "above the right monitor");
    assert_eq!(frame.pixel(0, 5), Some([0, 0, 0, 0]), "below the left monitor");
}

#[test]
fn a_region_is_cut_out_of_the_assembled_grabs() {
    let target = CaptureTarget::region(Rect::from_xywh(6, 1, 4, 2));
    let resolved = resolve_target(target, &desktop(), &[]).unwrap();
    let frame = assemble(&grabs(), &resolved).unwrap();
    assert_eq!((frame.width, frame.height), (4, 2));
    assert_eq!(frame.origin, Vec2D::new(6, 1));
    assert_eq!(frame.scale_factor, resolved.scale_factor);
    assert_eq!(frame.pixel(0, 0), Some(RED));
    assert_eq!(frame.pixel(2, 0), Some([0, 0, 0, 0]));
    assert_eq!(frame.pixel(2, 1), Some(BLUE));
}

#[test]
fn nothing_grabbed_assembles_into_nothing() {
    let resolved = resolve_target(CaptureTarget::FullDesktop, &desktop(), &[]).unwrap();
    assert!(assemble(&[], &resolved).is_err());
}

#[test]
fn an_exact_grab_is_left_alone() {
    let target = CaptureTarget::Monitor(MonitorId::new(2));
    let resolved = resolve_target(target, &desktop(), &[]).unwrap();
    let grab = RawFrame::filled(4, 4, BLUE, Vec2D::new(8, 2), 1.0f32.to_bits()).unwrap();
    let frame = fit_to_target(grab, &resolved).unwrap();
    assert_eq!(frame.scale_factor, scale(1.0));
    assert_eq!((frame.width, frame.height), (4, 4));
}

#[test]
fn a_missing_window_is_named_even_without_a_display() {
    let target = CaptureTarget::Window(WindowId::new(4));
    let nowhere = VirtualDesktop::new(Vec::new());
    assert!(matches!(
        plan_capture(target, &nowhere, &[]),
        Err(CaptureError::NoSuchWindow(WindowId(4)))
    ));
    assert!(matches!(
        plan_grabs(target, &nowhere, &[]),
        Err(CaptureError::NoDisplay)
    ));
    let windows = vec![window(4, Rect::from_xywh(9, 3, 2, 2), 0)];
    match plan_capture(target, &desktop(), &windows) {
        Ok(GrabPlan::Window { origin, .. }) => assert_eq!(origin, Vec2D::new(9, 3)),
        other => panic!("{other:?}"),
    }
    assert!(matches!(
        plan_capture(CaptureTarget::FullDesktop, &desktop(), &[]),
        Ok(GrabPlan::Covering { .. })
    ));
}

#[test]
fn refused_grabs_say_what_was_refused() {
    assert!(matches!(
        map_grab_failure(&GrabFailure::NotSupported),
        CaptureError::Unsupported(m)
            if m == "this Windows build does not support the requested capture operation"
    ));
    assert!(matches!(
        map_grab_failure(&GrabFailure::InvalidCaptureRegion("too wide".to_string())),
        CaptureError::InvalidFrame(m) if m == "Windows rejected the capture region: too wide"
    ));
    assert!(matches!(
        map_grab_failure(&GrabFailure::Other("boom".to_string())),
        CaptureError::Backend(m) if m == "Windows capture: boom"
    ));
}

#[test]
fn windows_with_a_higher_level_are_nearer() {
    let bounds = Rect::from_xywh(0, 0, 2, 2);
    let windows = vec![window(1, bounds, 9), window(2, bounds, 9), window(3, bounds, 9)];
    let stacked = windows_front_to_back(&windows, &[1, 7, 1]);
    let ids: Vec<u64> = stacked.iter().map(|w| w.id.get()).collect();
    let levels: Vec<u32> = stacked.iter().map(|w| w.z_order).collect();
    assert_eq!(ids, vec![2, 1, 3], "equal levels keep their order");
    assert_eq!(levels, vec![0, 1, 2]);
}

#[test]
fn mask_rows_are_padded_to_four_bytes() {
    assert_eq!(mask_stride(0), 0);
    assert_eq!(mask_stride(1), 4);
    assert_eq!(mask_stride(32), 4);
    assert_eq!(mask_stride(33), 8);
    assert_eq!(mask_stride(u32::MAX), 536_870_912);
}

#[test]
fn a_mask_without_colour_is_twice_the_height_of_its_cursor() {
    assert_eq!(
        cursor_shape((32, 64), None).unwrap(),
        CursorShape { width: 32, height: 32, mask_rows: 64, has_color: false }
    );
    assert_eq!(
        cursor_shape((32, 7), None).unwrap(),
        CursorShape { width: 32, height: 3, mask_rows: 6, has_color: false }
    );
    assert_eq!(
        cursor_shape((32, 64), Some((16, 8))).unwrap(),
        CursorShape { width: 16, height: 8, mask_rows: 8, has_color: true }
    );
}

#[test]
fn negative_cursor_dimensions_are_refused_by_name() {
    let text = |mask, color| match cursor_shape(mask, color) {
        Err(CaptureError::InvalidFrame(message)) => message,
        other => panic!("{other:?}"),
    };
    assert_eq!(text((1, 1), Some((-1, -1))), "cursor has a negative width");
    assert_eq!(text((1, 1), Some((1, -1))), "cursor has a negative height");
    assert_eq!(text((-1, -1), None), "cursor mask has a negative height");
    assert_eq!(text((-1, 1), None), "cursor mask has a negative width");
}

#[test]
fn cursors_decode_by_their_shape() {
    let anchor = CursorAnchor::Hotspot { position: Vec2D::new(10, 20), xhot: 1, yhot: 2 };
    let colored = CursorShape { width: 1, height: 1, mask_rows: 1, has_color: true };
    let cursor = decode_cursor(colored, &[10, 20, 30, 255], &[0; 4], 4, anchor).unwrap();
    assert_eq!(cursor.data, vec![30, 20, 10, 255]);
    assert_eq!(cursor.position, Vec2D::new(9, 18));
    let plain = CursorShape { width: 1, height: 1, mask_rows: 2, has_color: false };
    let white = decode_cursor(plain, &[], &[0, 0, 0, 0, 0x80, 0, 0, 0], 4, anchor).unwrap();
    assert_eq!(white.data, vec![255, 255, 255, 255]);
    assert!(matches!(
        decode_cursor(plain, &[], &[0; 4], 4, anchor),
        Err(CaptureError::InvalidFrame(_))
    ));
    let empty = CursorShape { width: 0, height: 1, mask_rows: 2, has_color: false };
    assert!(matches!(
        decode_cursor(empty, &[], &[0; 8], 4, anchor),
        Err(CaptureError::EmptyRegion)
    ));
}
