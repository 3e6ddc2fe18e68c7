use bettershot::backend::{backend_for, Construction};
use bettershot::env::{BackendChoice, BackendSelection, TargetOs};
use bettershot::error::CaptureError;
use bettershot::geometry::Rect;
use bettershot::monitor::MonitorId;
use bettershot::stub::{macos_unavailable, UnsupportedBackend};
use bettershot::target::{Capabilities, CaptureTarget};
use bettershot::window::WindowId;

fn xywh(x: f32, y: f32, w: f32, h: f32) -> Rect {
    Rect::from_xywh(x as i64, y as i64, w as i64, h as i64)
}

fn macos_stub() -> UnsupportedBackend {
    macos_unavailable("the ScreenCaptureKit backend is only available on macOS 12.3 or newer")
}

#[test]
fn the_macos_stub_refuses_every_operation() {
    let backend = macos_stub();
    assert_eq!(backend.name(), "macos-screencapturekit");
    assert!(matches!(
        backend.monitors(),
        Err(CaptureError::Unsupported(_))
    ));
    assert!(matches!(
        backend.windows(),
        Err(CaptureError::Unsupported(_))
    ));
    for target in [
        CaptureTarget::FullDesktop,
        CaptureTarget::Monitor(MonitorId::new(1)),
        CaptureTarget::Window(WindowId::new(1)),
        CaptureTarget::region(xywh(0.0, 0.0, 10.0, 10.0)),
    ] {
        assert!(matches!(
            backend.capture(target),
            Err(CaptureError::Unsupported(_))
        ));
    }
}

#[test]
fn the_macos_stub_explains_why_it_is_standing_in() {
    let err = macos_stub()
        .capture(CaptureTarget::FullDesktop)
        .unwrap_err();
    let text = err.message();
    assert!(text.contains("ScreenCaptureKit"), "{text}");
    assert!(text.contains("12.3"), "{text}");
}

#[test]
fn the_macos_stub_advertises_no_capabilities() {
    let caps = macos_stub().capabilities();
    assert_eq!(caps, Capabilities::none());
    assert!(!caps.supports(&CaptureTarget::FullDesktop));
}

fn chosen(choice: BackendChoice) -> BackendSelection {
    BackendSelection { choice, reason: "test".to_owned() }
}

#[test]
fn the_macos_backend_is_constructible_on_any_host() {
    for os in [TargetOs::Linux, TargetOs::Windows, TargetOs::Other] {
        match backend_for(&chosen(BackendChoice::MacOsScreenCaptureKit), os) {
            Ok(Construction::Placeholder(stub)) => assert_eq!(stub.name(), "macos-screencapturekit"),
            other => panic!("unexpected: {other:?}"),
        }
    }
    assert!(matches!(
        backend_for(&chosen(BackendChoice::MacOsScreenCaptureKit), TargetOs::MacOs),
        Ok(Construction::MacOs)
    ));
}

#[test]
fn backends_absent_from_this_target_report_unsupported() {
    for os in [TargetOs::Windows, TargetOs::MacOs] {
        for choice in [BackendChoice::X11, BackendChoice::WaylandPortal] {
            assert!(matches!(backend_for(&chosen(choice), os), Err(CaptureError::Unsupported(_))));
        }
    }
    for os in [TargetOs::Linux, TargetOs::MacOs] {
        assert!(matches!(
            backend_for(&chosen(BackendChoice::WindowsGraphicsCapture), os),
            Err(CaptureError::Unsupported(_))
        ));
    }
    assert!(matches!(backend_for(&chosen(BackendChoice::X11), TargetOs::Linux), Ok(Construction::X11)));
}
