use bettershot::error::CaptureError;
use bettershot::geometry::{PixelRect, Rect};
use bettershot::monitor::{MonitorId, MonitorInfo, VirtualDesktop};
use bettershot::single::ScaleFactor;
use bettershot::target::{resolve_target, Capabilities, CaptureTarget};
use bettershot::window::{WindowId, WindowInfo};

fn xywh(x: f32, y: f32, w: f32, h: f32) -> Rect {
    Rect::from_xywh(x as i64, y as i64, w as i64, h as i64)
}
fn scale(factor: f32) -> ScaleFactor {
    ScaleFactor { bits: factor.to_bits() }
}
fn display(id: MonitorId, name: &str, bounds: Rect, scale: f32, primary: bool) -> MonitorInfo {
    MonitorInfo::new(id, name, bounds, scale.to_bits(), primary)
}

fn desktop() -> VirtualDesktop {
    VirtualDesktop::new(vec![
        display(
            MonitorId::new(1),
            "primary",
            xywh(0.0, 0.0, 1920.0, 1080.0),
            1.0,
            true,
        ),
        display(
            MonitorId::new(2),
            "hidpi-left",
            xywh(-2560.0, 0.0, 2560.0, 1440.0),
            1.5,
            false,
        ),
    ])
}

fn windows() -> Vec<WindowInfo> {
    vec![
        WindowInfo::new(
            WindowId::new(10),
            "Editor",
            "code",
            xywh(100.0, 100.0, 800.0, 600.0),
            false,
            0,
        ),
        WindowInfo::new(
            WindowId::new(11),
            "Chat",
            "chat",
            xywh(-2400.0, 200.0, 600.0, 400.0),
            false,
            1,
        ),
        WindowInfo::new(
            WindowId::new(12),
            "Hidden",
            "bg",
            xywh(0.0, 0.0, 400.0, 400.0),
            true,
            2,
        ),
        WindowInfo::new(
            WindowId::new(13),
            "Half off-screen",
            "stray",
            xywh(1800.0, 0.0, 400.0, 200.0),
            false,
            3,
        ),
    ]
}

#[test]
fn full_desktop_resolves_to_the_bounding_box() {
    let r = resolve_target(CaptureTarget::FullDesktop, &desktop(), &[]).unwrap();
    assert_eq!(r.bounds, xywh(-2560.0, 0.0, 4480.0, 1440.0));
    assert_eq!(r.monitor, None);
    assert_eq!(r.scale_factor, scale(1.5));
}

#[test]
fn full_desktop_on_a_single_monitor_names_that_monitor() {
    let single = VirtualDesktop::new(vec![display(
        MonitorId::new(1),
        "only",
        xywh(0.0, 0.0, 800.0, 600.0),
        2.0,
        true,
    )]);
    let r = resolve_target(CaptureTarget::FullDesktop, &single, &[]).unwrap();
    assert_eq!(r.monitor, Some(MonitorId::new(1)));
    assert_eq!(r.scale_factor, scale(2.0));
}

#[test]
fn every_target_fails_with_no_display_when_nothing_is_attached() {
    let empty = VirtualDesktop::new(Vec::new());
    for target in [
        CaptureTarget::FullDesktop,
        CaptureTarget::Monitor(MonitorId::new(1)),
        CaptureTarget::Window(WindowId::new(10)),
        CaptureTarget::region(xywh(0.0, 0.0, 10.0, 10.0)),
    ] {
        assert!(matches!(
            resolve_target(target, &empty, &windows()),
            Err(CaptureError::NoDisplay)
        ));
    }
}

#[test]
fn monitor_target_resolves_to_its_physical_bounds_and_scale() {
    let r = resolve_target(CaptureTarget::Monitor(MonitorId::new(2)), &desktop(), &[]).unwrap();
    assert_eq!(r.bounds, xywh(-2560.0, 0.0, 2560.0, 1440.0));
    assert_eq!(r.monitor, Some(MonitorId::new(2)));
    assert_eq!(r.scale_factor, scale(1.5));
}

#[test]
fn stale_monitor_ids_are_rejected() {
    assert!(matches!(
        resolve_target(CaptureTarget::Monitor(MonitorId::new(99)), &desktop(), &[]),
        Err(CaptureError::NoSuchMonitor(_))
    ));
}

#[test]
fn window_target_resolves_to_its_frame_and_owning_monitor() {
    let r = resolve_target(
        CaptureTarget::Window(WindowId::new(11)),
        &desktop(),
        &windows(),
    )
    .unwrap();
    assert_eq!(r.bounds, xywh(-2400.0, 200.0, 600.0, 400.0));
    assert_eq!(r.monitor, Some(MonitorId::new(2)));
    assert_eq!(r.scale_factor, scale(1.5));
}

#[test]
fn window_target_is_clipped_to_the_desktop() {
    let r = resolve_target(
        CaptureTarget::Window(WindowId::new(13)),
        &desktop(),
        &windows(),
    )
    .unwrap();
    assert_eq!(r.bounds, xywh(1800.0, 0.0, 120.0, 200.0));
    assert_eq!(r.monitor, Some(MonitorId::new(1)));
}

#[test]
fn stale_window_ids_are_rejected() {
    assert!(matches!(
        resolve_target(
            CaptureTarget::Window(WindowId::new(404)),
            &desktop(),
            &windows()
        ),
        Err(CaptureError::NoSuchWindow(_))
    ));
}

#[test]
fn minimized_windows_cannot_be_captured() {
    let err = resolve_target(
        CaptureTarget::Window(WindowId::new(12)),
        &desktop(),
        &windows(),
    )
    .unwrap_err();
    assert!(matches!(err, CaptureError::Unsupported(_)));
    assert!(err.message().contains("minimized"));
}

#[test]
fn desktop_relative_regions_are_clipped_to_the_desktop() {
    let r = resolve_target(
        CaptureTarget::region(xywh(-3000.0, -100.0, 1000.0, 500.0)),
        &desktop(),
        &[],
    )
    .unwrap();
    assert_eq!(r.bounds, xywh(-2560.0, 0.0, 560.0, 400.0));
    assert_eq!(r.monitor, Some(MonitorId::new(2)));
}

#[test]
fn monitor_relative_regions_are_translated_then_clipped() {
    let r = resolve_target(
        CaptureTarget::region_on(MonitorId::new(2), xywh(10.0, 20.0, 100.0, 50.0)),
        &desktop(),
        &[],
    )
    .unwrap();
    assert_eq!(r.bounds, xywh(-2550.0, 20.0, 100.0, 50.0));
    assert_eq!(r.monitor, Some(MonitorId::new(2)));
    assert_eq!(r.scale_factor, scale(1.5));
}

#[test]
fn the_same_rect_means_different_things_with_and_without_a_monitor() {
    let rect = xywh(10.0, 20.0, 100.0, 50.0);
    let global = resolve_target(CaptureTarget::region(rect), &desktop(), &[]).unwrap();
    let local = resolve_target(
        CaptureTarget::region_on(MonitorId::new(2), rect),
        &desktop(),
        &[],
    )
    .unwrap();
    assert_eq!(global.bounds, xywh(10.0, 20.0, 100.0, 50.0));
    assert_eq!(local.bounds, xywh(-2550.0, 20.0, 100.0, 50.0));
}

#[test]
fn monitor_relative_regions_running_off_the_monitor_are_clipped_to_it() {
    let r = resolve_target(
        CaptureTarget::region_on(
            MonitorId::new(2),
            xywh(2500.0, 0.0, 200.0, 100.0),
        ),
        &desktop(),
        &[],
    )
    .unwrap();
    assert_eq!(r.bounds, xywh(-60.0, 0.0, 60.0, 100.0));
}

#[test]
fn empty_and_off_desktop_regions_are_rejected() {
    assert!(matches!(
        resolve_target(
            CaptureTarget::region(xywh(0.0, 0.0, 0.0, 10.0)),
            &desktop(),
            &[]
        ),
        Err(CaptureError::EmptyRegion)
    ));
    assert!(matches!(
        resolve_target(
            CaptureTarget::region(xywh(9000.0, 9000.0, 10.0, 10.0)),
            &desktop(),
            &[]
        ),
        Err(CaptureError::EmptyRegion)
    ));
    assert!(matches!(
        resolve_target(
            CaptureTarget::region_on(
                MonitorId::new(1),
                xywh(5000.0, 0.0, 10.0, 10.0)
            ),
            &desktop(),
            &[]
        ),
        Err(CaptureError::EmptyRegion)
    ));
}

#[test]
fn monitor_relative_regions_reject_stale_monitor_ids() {
    assert!(matches!(
        resolve_target(
            CaptureTarget::region_on(MonitorId::new(77), xywh(0.0, 0.0, 10.0, 10.0)),
            &desktop(),
            &[]
        ),
        Err(CaptureError::NoSuchMonitor(_))
    ));
}

#[test]
fn resolved_targets_snap_to_the_pixel_grid() {
    let r = resolve_target(
        CaptureTarget::region(
            PixelRect::from_edges(
                10.4f32.to_bits(),
                20.6f32.to_bits(),
                110.4f32.to_bits(),
                70.6f32.to_bits(),
            )
            .unwrap()
            .to_rect(),
        ),
        &desktop(),
        &[],
    )
    .unwrap();
    assert_eq!(r.pixel_bounds().unwrap(), PixelRect::new(10, 21, 100, 50));
}

#[test]
fn capabilities_gate_targets() {
    let portal = Capabilities {
        full_desktop: true,
        region: true,
        may_prompt_for_permission: true,
        ..Capabilities::none()
    };
    assert!(portal.supports(&CaptureTarget::FullDesktop));
    assert!(portal.supports(&CaptureTarget::region(xywh(0.0, 0.0, 1.0, 1.0))));
    assert!(!portal.supports(&CaptureTarget::Monitor(MonitorId::new(1))));
    assert!(!portal.supports(&CaptureTarget::Window(WindowId::new(1))));

    assert!(Capabilities::full().supports(&CaptureTarget::Window(WindowId::new(1))));
    assert!(!Capabilities::none().supports(&CaptureTarget::FullDesktop));
}

#[test]
fn ensure_supports_names_the_backend_and_the_target_kind() {
    let err = Capabilities::none()
        .ensure_supports("portal", &CaptureTarget::Window(WindowId::new(1)))
        .unwrap_err();
    let text = err.message();
    assert!(text.contains("portal"), "{text}");
    assert!(text.contains("window"), "{text}");
    assert!(
        Capabilities::full()
            .ensure_supports("x11", &CaptureTarget::FullDesktop)
            .is_ok()
    );
}

#[test]
fn target_kinds_are_stable_strings() {
    assert_eq!(CaptureTarget::FullDesktop.kind(), "full-desktop");
    assert_eq!(CaptureTarget::Monitor(MonitorId::new(1)).kind(), "monitor");
    assert_eq!(CaptureTarget::Window(WindowId::new(1)).kind(), "window");
    assert_eq!(
        CaptureTarget::region(xywh(0.0, 0.0, 1.0, 1.0)).kind(),
        "region"
    );
}
