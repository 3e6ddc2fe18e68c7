use bettershot::error::CaptureError;
use bettershot::geometry::{Rect, Vec2D};
use bettershot::monitor::{MonitorId, MonitorInfo, VirtualDesktop};
use bettershot::single::ScaleFactor;

fn xywh(x: f32, y: f32, w: f32, h: f32) -> Rect {
    Rect::from_xywh(x as i64, y as i64, w as i64, h as i64)
}
fn vec2(x: f32, y: f32) -> Vec2D {
    Vec2D::new(x as i64, y as i64)
}
fn scale(factor: f32) -> ScaleFactor {
    ScaleFactor { bits: factor.to_bits() }
}
fn display(id: MonitorId, name: &str, bounds: Rect, scale: f32, primary: bool) -> MonitorInfo {
    MonitorInfo::new(id, name, bounds, scale.to_bits(), primary)
}

fn monitor(id: u64, x: f32, y: f32, w: f32, h: f32, scale: f32, primary: bool) -> MonitorInfo {
    display(
        MonitorId::new(id),
        &format!("DP-{id}"),
        xywh(x, y, w, h),
        scale,
        primary,
    )
}

fn three_monitor_desktop() -> VirtualDesktop {
    VirtualDesktop::new(vec![
        monitor(1, 0.0, 0.0, 1920.0, 1080.0, 1.0, true),
        monitor(2, -1280.0, 0.0, 1280.0, 1024.0, 1.0, false),
        monitor(3, 0.0, -1440.0, 2560.0, 1440.0, 1.5, false),
    ])
}

#[test]
fn bounds_of_an_empty_desktop_are_empty() {
    let desktop = VirtualDesktop::new(Vec::new());
    assert!(desktop.is_empty());
    assert_eq!(desktop.len(), 0);
    assert!(desktop.bounds().is_empty());
    assert!(desktop.primary().is_none());
}

#[test]
fn bounds_span_negative_origins_in_both_axes() {
    let desktop = three_monitor_desktop();
    assert_eq!(
        desktop.bounds(),
        xywh(-1280.0, -1440.0, 3840.0, 2520.0)
    );
}

#[test]
fn bounds_include_gaps_between_monitors() {
    let desktop = VirtualDesktop::new(vec![
        monitor(1, 0.0, 0.0, 1000.0, 1000.0, 1.0, true),
        monitor(2, 1500.0, 0.0, 1000.0, 1000.0, 1.0, false),
    ]);
    assert_eq!(desktop.bounds(), xywh(0.0, 0.0, 2500.0, 1000.0));
}

#[test]
fn bounds_handle_overlapping_monitors() {
    let desktop = VirtualDesktop::new(vec![
        monitor(1, 0.0, 0.0, 1000.0, 1000.0, 1.0, true),
        monitor(2, 500.0, 500.0, 1000.0, 1000.0, 1.0, false),
    ]);
    assert_eq!(desktop.bounds(), xywh(0.0, 0.0, 1500.0, 1500.0));
}

#[test]
fn primary_falls_back_to_the_first_monitor() {
    let desktop = VirtualDesktop::new(vec![
        monitor(9, 0.0, 0.0, 800.0, 600.0, 1.0, false),
        monitor(4, 800.0, 0.0, 800.0, 600.0, 1.0, false),
    ]);
    assert_eq!(desktop.primary().unwrap().id, MonitorId::new(9));
}

#[test]
fn require_reports_missing_monitors() {
    let desktop = three_monitor_desktop();
    assert!(desktop.require(MonitorId::new(1)).is_ok());
    assert!(matches!(
        desktop.require(MonitorId::new(99)),
        Err(CaptureError::NoSuchMonitor(id)) if id == MonitorId::new(99)
    ));
}

#[test]
fn monitor_at_finds_points_on_negative_coordinate_monitors() {
    let desktop = three_monitor_desktop();
    assert_eq!(
        desktop.monitor_at(vec2(-640.0, 500.0)).unwrap().id,
        MonitorId::new(2)
    );
    assert_eq!(
        desktop.monitor_at(vec2(100.0, -720.0)).unwrap().id,
        MonitorId::new(3)
    );
    assert_eq!(
        desktop.monitor_at(vec2(10.0, 10.0)).unwrap().id,
        MonitorId::new(1)
    );
}

#[test]
fn monitor_at_misses_outside_the_desktop_and_in_gaps() {
    let desktop = three_monitor_desktop();
    assert!(desktop.monitor_at(vec2(5000.0, 5000.0)).is_none());
    assert!(desktop.monitor_at(vec2(-640.0, 1050.0)).is_none());
}

#[test]
fn monitor_at_gives_a_seam_pixel_to_exactly_one_monitor() {
    let desktop = three_monitor_desktop();
    assert_eq!(
        desktop.monitor_at(vec2(0.0, 500.0)).unwrap().id,
        MonitorId::new(1)
    );
    assert_eq!(
        desktop.monitor_at(vec2(500.0, 0.0)).unwrap().id,
        MonitorId::new(1)
    );
    assert!(desktop.monitor_at(vec2(1920.0, 1080.0)).is_none());
}

#[test]
fn monitor_at_prefers_the_primary_when_monitors_overlap() {
    let desktop = VirtualDesktop::new(vec![
        monitor(7, 0.0, 0.0, 1000.0, 1000.0, 1.0, false),
        monitor(2, 0.0, 0.0, 1000.0, 1000.0, 1.0, true),
    ]);
    assert_eq!(
        desktop.monitor_at(vec2(10.0, 10.0)).unwrap().id,
        MonitorId::new(2)
    );
}

#[test]
fn monitor_at_ties_break_on_lowest_id_not_enumeration_order() {
    let desktop = VirtualDesktop::new(vec![
        monitor(7, 0.0, 0.0, 1000.0, 1000.0, 1.0, false),
        monitor(3, 0.0, 0.0, 1000.0, 1000.0, 1.0, false),
    ]);
    assert_eq!(
        desktop.monitor_at(vec2(10.0, 10.0)).unwrap().id,
        MonitorId::new(3)
    );
}

#[test]
fn monitor_for_region_picks_the_biggest_overlap() {
    let desktop = three_monitor_desktop();
    let rect = xywh(-800.0, 100.0, 900.0, 100.0);
    assert_eq!(
        desktop.monitor_for_region(rect).unwrap().id,
        MonitorId::new(2)
    );
    assert!(
        desktop
            .monitor_for_region(xywh(9000.0, 9000.0, 10.0, 10.0))
            .is_none()
    );
}

#[test]
fn local_and_virtual_coordinates_round_trip() {
    let desktop = three_monitor_desktop();
    let point = vec2(-1000.0, 300.0);
    let (monitor, local) = desktop.to_local(point).unwrap();
    assert_eq!(monitor.id, MonitorId::new(2));
    assert_eq!(local, vec2(280.0, 300.0));
    assert_eq!(desktop.to_virtual(monitor.id, local).unwrap(), point);
}

#[test]
fn to_virtual_rejects_unknown_monitors() {
    let desktop = three_monitor_desktop();
    assert!(matches!(
        desktop.to_virtual(MonitorId::new(404), vec2(0.0, 0.0)),
        Err(CaptureError::NoSuchMonitor(_))
    ));
}

#[test]
fn a_150_percent_monitor_keeps_physical_bounds_and_scales_only_locally() {
    let desktop = three_monitor_desktop();
    let hidpi = desktop.get(MonitorId::new(3)).unwrap();
    assert_eq!(hidpi.bounds, xywh(0.0, -1440.0, 2560.0, 1440.0));
    assert_eq!(hidpi.physical_size(), vec2(2560.0, 1440.0));
}

#[test]
fn mixed_dpi_neighbours_do_not_disturb_each_others_physical_layout() {
    let desktop = VirtualDesktop::new(vec![
        monitor(1, 0.0, 0.0, 1920.0, 1080.0, 1.0, true),
        monitor(2, 1920.0, 0.0, 2560.0, 1440.0, 1.5, false),
    ]);
    assert_eq!(desktop.bounds(), xywh(0.0, 0.0, 4480.0, 1440.0));
    assert_eq!(desktop.max_scale_factor(), scale(1.5));
}

#[test]
fn a_shared_scale_is_the_largest_scale() {
    let desktop = VirtualDesktop::new(vec![
        monitor(1, 0.0, 0.0, 1920.0, 1080.0, 2.0, true),
        monitor(2, 1920.0, 0.0, 1920.0, 1080.0, 2.0, false),
    ]);
    assert_eq!(desktop.max_scale_factor(), scale(2.0));
}

#[test]
fn the_largest_scale_factor_is_floored_at_one() {
    assert_eq!(VirtualDesktop::new(Vec::new()).max_scale_factor(), scale(1.0));
    let shrunk = VirtualDesktop::new(vec![
        monitor(1, 0.0, 0.0, 1920.0, 1080.0, 0.5, true),
        monitor(2, 1920.0, 0.0, 1920.0, 1080.0, 0.75, false),
    ]);
    assert_eq!(shrunk.monitors()[0].scale_factor, scale(0.5));
    assert_eq!(shrunk.max_scale_factor(), scale(1.0));
}

#[test]
fn broken_scale_factors_are_sanitized_to_one() {
    for bad in [0.0, -2.0, f32::NAN, f32::INFINITY] {
        let m = monitor(1, 0.0, 0.0, 100.0, 100.0, bad, true);
        assert_eq!(m.scale_factor, scale(1.0), "scale {bad} should sanitize to 1.0");
    }
}

#[test]
fn monitor_local_region_clamping_translates_and_clips() {
    let desktop = three_monitor_desktop();
    let left = desktop.get(MonitorId::new(2)).unwrap();
    let clamped = left
        .clamp_local_region(xywh(100.0, 100.0, 200.0, 200.0))
        .unwrap();
    assert_eq!(clamped, xywh(-1180.0, 100.0, 200.0, 200.0));

    let clipped = left
        .clamp_local_region(xywh(1200.0, 0.0, 400.0, 100.0))
        .unwrap();
    assert_eq!(clipped, xywh(-80.0, 0.0, 80.0, 100.0));
}

#[test]
fn region_clamping_against_the_whole_desktop_and_one_monitor_differ() {
    let desktop = three_monitor_desktop();
    let rect = xywh(-1500.0, -100.0, 2000.0, 400.0);
    assert_eq!(
        desktop.clamp_region(rect).unwrap(),
        xywh(-1280.0, -100.0, 1780.0, 400.0)
    );
    assert_eq!(
        desktop
            .clamp_region_to_monitor(MonitorId::new(2), rect)
            .unwrap(),
        xywh(-1280.0, 0.0, 1280.0, 300.0)
    );
}

#[test]
fn clamping_on_an_empty_desktop_is_a_no_display_error() {
    assert!(matches!(
        VirtualDesktop::new(Vec::new()).clamp_region(xywh(0.0, 0.0, 10.0, 10.0)),
        Err(CaptureError::NoDisplay)
    ));
}

#[test]
fn monitor_id_displays_readably() {
    assert_eq!(MonitorId::new(5).describe(), "monitor#5");
    assert_eq!(MonitorId::new(5).get(), 5);
}
