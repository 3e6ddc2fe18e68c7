use bettershot::backend::{backend_for, default_backend, Construction};
use bettershot::env::{BackendChoice, BackendSelection, Environment, TargetOs};
use bettershot::error::CaptureError;
use bettershot::frame::{stitch, RawFrame};
use bettershot::geometry::{Rect, Vec2D};
use bettershot::monitor::{MonitorId, MonitorInfo, VirtualDesktop};
use bettershot::single::ScaleFactor;
use bettershot::target::{resolve_target, CaptureTarget};
use bettershot::window::{window_at, WindowId, WindowInfo};

fn xywh(x: f32, y: f32, w: f32, h: f32) -> Rect {
    Rect::from_xywh(x as i64, y as i64, w as i64, h as i64)
}
fn vec2(x: f32, y: f32) -> Vec2D {
    Vec2D::new(x as i64, y as i64)
}
fn scale(factor: f32) -> ScaleFactor {
    ScaleFactor { bits: factor.to_bits() }
}
fn filled(
    w: u32,
    h: u32,
    rgba: [u8; 4],
    origin: Vec2D,
    scale: f32,
) -> Result<RawFrame, CaptureError> {
    RawFrame::filled(w, h, rgba, origin, scale.to_bits())
}
fn clear(w: u32, h: u32, origin: Vec2D, scale: f32) -> Result<RawFrame, CaptureError> {
    RawFrame::transparent(w, h, origin, scale.to_bits())
}
fn display(id: MonitorId, name: &str, bounds: Rect, scale: f32, primary: bool) -> MonitorInfo {
    MonitorInfo::new(id, name, bounds, scale.to_bits(), primary)
}

fn desktop() -> VirtualDesktop {
    VirtualDesktop::new(vec![
        display(
            MonitorId::new(1),
            "primary",
            xywh(0.0, 0.0, 1920.0, 1080.0),
            1.0,
            true,
        ),
        display(
            MonitorId::new(2),
            "hidpi",
            xywh(1920.0, -360.0, 2560.0, 1440.0),
            1.5,
            false,
        ),
    ])
}

#[test]
fn a_mixed_dpi_desktop_stitches_into_one_correctly_placed_frame() {
    let desktop = desktop();
    let resolved = resolve_target(CaptureTarget::FullDesktop, &desktop, &[]).unwrap();
    assert_eq!(
        resolved.bounds,
        xywh(0.0, -360.0, 4480.0, 1440.0)
    );

    let factor = 40.0f32;
    let frames: Vec<RawFrame> = desktop
        .monitors()
        .iter()
        .map(|m| {
            filled(
                (m.bounds.width() as f32 / factor) as u32,
                (m.bounds.height() as f32 / factor) as u32,
                [m.id.get() as u8, 0, 0, 255],
                vec2(m.bounds.left as f32 / factor, m.bounds.top as f32 / factor),
                f32::from_bits(m.scale_factor.bits),
            )
            .unwrap()
        })
        .collect();

    let stitched = stitch(&frames).unwrap();
    assert_eq!(stitched.width, 4480 / 40);
    assert_eq!(stitched.height, 1440 / 40);
    assert_eq!(stitched.origin, vec2(0.0, -9.0));
    assert_eq!(stitched.scale_factor, scale(1.5));

    assert_eq!(stitched.pixel(0, 9), Some([1, 0, 0, 255]));
    assert_eq!(stitched.pixel(48, 0), Some([2, 0, 0, 255]));
    assert_eq!(stitched.pixel(0, 0), Some([0, 0, 0, 0]));
}

#[test]
fn a_region_dragged_across_the_seam_resolves_and_crops_consistently() {
    let desktop = desktop();
    let target = CaptureTarget::region(xywh(1900.0, 0.0, 40.0, 20.0));
    let resolved = resolve_target(target, &desktop, &[]).unwrap();
    assert_eq!(resolved.bounds, xywh(1900.0, 0.0, 40.0, 20.0));

    let full = clear(4480, 1440, vec2(0.0, -360.0), 1.5).unwrap();
    let cropped = full.crop(resolved.bounds).unwrap();
    assert_eq!((cropped.width, cropped.height), (40, 20));
    assert_eq!(cropped.origin, vec2(1900.0, 0.0));
}

#[test]
fn window_snapping_uses_the_same_coordinate_space_as_capture() {
    let desktop = desktop();
    let windows = vec![WindowInfo::new(
        WindowId::new(1),
        "Terminal",
        "kitty",
        xywh(2000.0, -200.0, 800.0, 600.0),
        false,
        0,
    )];
    let hovered = window_at(&windows, vec2(2100.0, -100.0)).unwrap();
    let resolved =
        resolve_target(CaptureTarget::Window(hovered.id), &desktop, &windows).unwrap();
    assert_eq!(resolved.bounds, hovered.bounds);
    assert_eq!(resolved.monitor, Some(MonitorId::new(2)));
    assert_eq!(resolved.scale_factor, scale(1.5));
}

#[test]
fn backend_selection_and_construction_agree_on_names() {
    for (choice, expected) in [
        (BackendChoice::WaylandPortal, "wayland-portal"),
        (BackendChoice::X11, "x11"),
        (BackendChoice::WindowsGraphicsCapture, "windows-graphics-capture"),
        (BackendChoice::MacOsScreenCaptureKit, "macos-screencapturekit"),
    ] {
        assert_eq!(choice.name(), expected);
    }
    let selection = BackendSelection {
        choice: BackendChoice::MacOsScreenCaptureKit,
        reason: "test".into(),
    };
    assert_eq!(
        backend_for(&selection, TargetOs::Linux).unwrap().name(),
        BackendChoice::MacOsScreenCaptureKit.name()
    );
}

#[test]
fn every_constructed_backend_carries_the_name_of_its_choice() {
    for (choice, os) in [
        (BackendChoice::WaylandPortal, TargetOs::Linux),
        (BackendChoice::X11, TargetOs::Linux),
        (BackendChoice::WindowsGraphicsCapture, TargetOs::Windows),
        (BackendChoice::MacOsScreenCaptureKit, TargetOs::MacOs),
        (BackendChoice::MacOsScreenCaptureKit, TargetOs::Windows),
    ] {
        let selection = BackendSelection { choice, reason: "test".into() };
        assert_eq!(backend_for(&selection, os).unwrap().name(), choice.name());
    }
    let selection = BackendSelection {
        choice: BackendChoice::MacOsScreenCaptureKit,
        reason: "test".into(),
    };
    assert!(matches!(
        backend_for(&selection, TargetOs::Linux),
        Ok(Construction::Placeholder(_))
    ));
}

#[test]
fn default_backend_never_panics_on_a_headless_machine() {
    let headless = Environment::new(TargetOs::Linux, None, None, None);
    assert!(matches!(default_backend(&headless), Err(CaptureError::NoDisplay)));
    let other = Environment::new(TargetOs::Other, None, None, None);
    assert!(matches!(default_backend(&other), Err(CaptureError::Unsupported(_))));
    let desktop = Environment::new(TargetOs::Linux, None, None, Some(":0"));
    assert!(matches!(default_backend(&desktop), Ok(Construction::X11)));
}

#[test]
fn virtual_desktop_is_derived_from_monitors() {
    let monitors = vec![display(
        MonitorId::new(1),
        "fake-0",
        xywh(0.0, 0.0, 100.0, 100.0),
        1.0,
        true,
    )];
    let desktop = VirtualDesktop::new(monitors);
    assert_eq!(desktop.len(), 1);
    assert_eq!(desktop.bounds(), xywh(0.0, 0.0, 100.0, 100.0));
}
