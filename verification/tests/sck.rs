use bettershot::error::CaptureError;
use bettershot::geometry::{Rect, Vec2D};
use bettershot::grabs::GrabPlan;
use bettershot::macos::{WindowRecord, BYTE_ORDER_32_LITTLE};
use bettershot::monitor::{MonitorId, MonitorInfo};
use bettershot::sck::{
    decode_image, decode_result, display_pixel_size, unanswered, ImageLayout, ImagePixels,
    MacOsBackend, Snapshot, SystemError,
};
use bettershot::target::CaptureTarget;
use bettershot::window::WindowId;

fn monitor() -> MonitorInfo {
    MonitorInfo::new(
        MonitorId::new(1),
        "main",
        Rect::from_xywh(0, 0, 20, 10),
        2.0f32.to_bits(),
        true,
    )
}

fn record(id: u64, layer: i64) -> WindowRecord {
    WindowRecord {
        id,
        title: "title".to_string(),
        app_name: "app".to_string(),
        bounds: Rect::from_xywh(2, 3, 4, 5),
        layer,
        on_screen: true,
    }
}

/// A 1x2 image whose rows are padded to eight bytes.
fn layout() -> ImageLayout {
    ImageLayout {
        width: 1,
        height: 2,
        bytes_per_row: 8,
        bits_per_pixel: 32,
        byte_order: BYTE_ORDER_32_LITTLE,
        alpha_info: 2,
    }
}

fn bytes() -> ImagePixels {
    ImagePixels::Bytes(vec![1, 2, 3, 4, 0, 0, 0, 0, 5, 6, 7, 8])
}

fn text(result: Result<bettershot::sck::CapturedImage, CaptureError>) -> String {
    result.unwrap_err().message()
}

#[test]
fn the_classes_that_exist_decide_what_works() {
    assert!(MacOsBackend::new(true, true).unwrap().can_screenshot);
    let lists_only = MacOsBackend::new(true, false).unwrap();
    assert!(!lists_only.can_screenshot);
    assert!(lists_only.capabilities().window_enumeration);
    assert!(!lists_only.capabilities().window);
    assert_eq!(lists_only.name(), "macos-screencapturekit");
    let err = MacOsBackend::new(false, true).unwrap_err();
    assert!(matches!(&err, CaptureError::Unsupported(_)));
    assert!(err.message().contains("12.3"));
}

#[test]
fn a_snapshot_without_displays_is_a_stale_permission() {
    assert!(matches!(
        Snapshot::from_content(Vec::new(), &[record(1, 0)]),
        Err(CaptureError::PermissionDenied(_))
    ));
    let snapshot = Snapshot::from_content(vec![monitor()], &[record(1, 0), record(2, 5)]).unwrap();
    assert_eq!(snapshot.desktop.len(), 1);
    let ids: Vec<u64> = snapshot.windows.iter().map(|w| w.id.get()).collect();
    assert_eq!(ids, vec![2, 1]);
}

#[test]
fn an_old_system_is_named_before_a_missing_window() {
    let snapshot = Snapshot::from_content(vec![monitor()], &[record(1, 0)]).unwrap();
    let missing = CaptureTarget::Window(WindowId::new(9));
    let old = MacOsBackend { can_screenshot: false };
    assert!(matches!(
        old.plan_capture(missing, &snapshot),
        Err(CaptureError::Unsupported(m)) if m.contains("SCScreenshotManager")
    ));
    let new = MacOsBackend { can_screenshot: true };
    assert!(matches!(
        new.plan_capture(missing, &snapshot),
        Err(CaptureError::NoSuchWindow(_))
    ));
    match new.plan_capture(CaptureTarget::Window(WindowId::new(1)), &snapshot) {
        Ok(GrabPlan::Window { origin, scale_factor, .. }) => {
            assert_eq!(origin, Vec2D::new(2, 3));
            assert_eq!(scale_factor.bits, 2.0f32.to_bits());
        }
        other => panic!("{other:?}"),
    }
}

#[test]
fn unusable_display_modes_have_no_size() {
    assert_eq!(display_pixel_size(Some((3024, 1964))), (3024, 1964));
    assert_eq!(display_pixel_size(None), (0, 0));
    assert_eq!(display_pixel_size(Some((0, 1964))), (0, 0));
    assert_eq!(display_pixel_size(Some((usize::MAX, 1))), (0, 0));
}

#[test]
fn padded_rows_come_out_packed_and_swapped() {
    let image = decode_image(layout(), &bytes()).unwrap();
    assert_eq!((image.width, image.height), (1, 2));
    assert_eq!(image.rgba, vec![3, 2, 1, 4, 7, 6, 5, 8]);
    let skipped = ImageLayout { alpha_info: 6, ..layout() };
    let opaque = decode_image(skipped, &bytes()).unwrap();
    assert_eq!(opaque.rgba, vec![3, 2, 1, 255, 7, 6, 5, 255]);
}

#[test]
fn images_that_cannot_be_read_say_why() {
    let deep = ImageLayout { bits_per_pixel: 64, ..layout() };
    assert!(matches!(
        decode_image(deep, &ImagePixels::NoProvider),
        Err(CaptureError::Unsupported(_))
    ));
    let wide = ImageLayout { width: usize::MAX, ..layout() };
    assert!(text(decode_image(wide, &bytes())).contains("captured image is wider than u32"));
    let tall = ImageLayout { height: usize::MAX, ..layout() };
    assert!(text(decode_image(tall, &bytes())).contains("captured image is taller than u32"));
    for (pixels, why) in [
        (ImagePixels::NoProvider, "the captured CGImage has no data provider"),
        (ImagePixels::Unreadable, "the captured CGImage's pixels could not be read"),
        (ImagePixels::NegativeLength, "captured image length is negative"),
        (ImagePixels::NullBuffer, "the captured CGImage's pixel buffer is null"),
        (ImagePixels::Bytes(vec![0; 11]), "CGImage is 11 bytes, expected at least 12"),
    ] {
        assert!(text(decode_image(layout(), &pixels)).contains(why), "{why}");
    }
}

#[test]
fn a_reported_error_counts_before_an_image() {
    let error = SystemError {
        domain: "SCStreamErrorDomain".to_string(),
        code: -3817,
        message: "cancelled".to_string(),
    };
    assert!(matches!(
        decode_result(Some(error), Some((layout(), bytes()))),
        Err(CaptureError::Cancelled)
    ));
    assert!(decode_result(None, Some((layout(), bytes()))).is_ok());
    assert!(text(decode_result(None, None))
        .contains("ScreenCaptureKit returned neither image nor error"));
}

#[test]
fn a_handler_that_never_answers_is_an_error() {
    let dropped = unanswered(true, "capturing a screenshot", 20).message();
    assert!(dropped.contains("dropped its completion handler while capturing a screenshot"));
    let late = unanswered(false, "capturing a screenshot", 20).message();
    assert!(late.contains("did not call back within 20s while capturing a screenshot"));
}
