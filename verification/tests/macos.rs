use bettershot::error::CaptureError;
use bettershot::frame::RawFrame;
use bettershot::geometry::{Rect, Vec2D};
use bettershot::macos::{bgra_rows_to_rgba, capabilities_for, classify_sc_error, display_name, ensure_bgra8, ensure_capture_supported, ensure_permission, force_opaque_for, monitor_from_display, monitors_covering, permission_denied, stale_permission, timed_out, too_old, windows_front_to_back, WindowRecord, BYTE_ORDER_32_LITTLE, MIN_SCREENSHOT_MANAGER, MIN_SCREEN_CAPTURE_KIT, NAME, SETTINGS_PATH};
use bettershot::monitor::{MonitorId, MonitorInfo, VirtualDesktop};
use bettershot::single::ScaleFactor;
use bettershot::target::{resolve_target, CaptureTarget};
use bettershot::window::{topmost, WindowId};

fn xywh(x: f32, y: f32, w: f32, h: f32) -> Rect {
    Rect::from_xywh(x as i64, y as i64, w as i64, h as i64)
}
fn vec2(x: f32, y: f32) -> Vec2D {
    Vec2D::new(x as i64, y as i64)
}
fn scale(factor: f32) -> ScaleFactor {
    ScaleFactor { bits: factor.to_bits() }
}
fn clear(w: u32, h: u32, origin: Vec2D, scale: f32) -> Result<RawFrame, CaptureError> {
    RawFrame::transparent(w, h, origin, scale.to_bits())
}

#[test]
fn the_backend_name_is_stable() {
    assert_eq!(NAME, "macos-screencapturekit");
}

#[test]
fn monitor_from_display_reports_physical_bounds_and_the_derived_scale() {
    let monitor = from_points(
        1,
        "Built-in",
        xywh(0.0, 0.0, 1512.0, 982.0),
        (3024, 1964),
        true,
    );
    assert_eq!(monitor.id, MonitorId::new(1));
    assert_eq!(monitor.scale_factor, scale(2.0));
    assert_eq!(monitor.bounds, xywh(0.0, 0.0, 3024.0, 1964.0));
    assert!(monitor.is_primary);
}

#[test]
fn a_monitors_size_is_the_framebuffer_not_the_scaled_point_size() {
    let monitor = from_points(
        1,
        "Built-in",
        xywh(0.0, 0.0, 1800.0, 1169.0),
        (3456, 2234),
        true,
    );
    assert_eq!(monitor.bounds, xywh(0.0, 0.0, 3456.0, 2234.0));
    assert_eq!(monitor.scale_factor, scale(1.92));
    assert_eq!((1169.0_f32 * 1.92).round(), 2244.0);
}

#[test]
fn a_monitors_origin_is_still_derived_from_points() {
    let monitor = from_points(
        2,
        "External",
        xywh(-1440.0, -900.0, 1440.0, 900.0),
        (2880, 1800),
        false,
    );
    assert_eq!(
        monitor.bounds,
        xywh(-2880.0, -1800.0, 2880.0, 1800.0)
    );
}

#[test]
fn an_unreadable_display_mode_falls_back_to_the_point_size() {
    let monitor = from_points(
        3,
        "Unknown",
        xywh(10.0, 20.0, 1920.0, 1080.0),
        (0, 0),
        false,
    );
    assert_eq!(monitor.scale_factor, scale(1.0));
    assert_eq!(monitor.bounds, xywh(10.0, 20.0, 1920.0, 1080.0));
}

#[test]
fn display_names_mark_the_primary() {
    assert_eq!(display_name(7, true), "Display 7 (primary)");
    assert_eq!(display_name(7, false), "Display 7");
}

fn record(id: u64, layer: i64, on_screen: bool) -> WindowRecord {
    WindowRecord {
        id,
        title: format!("Window {id}"),
        app_name: "testapp".into(),
        bounds: xywh(0.0, 0.0, 100.0, 100.0),
        layer,
        on_screen,
    }
}

#[test]
fn screencapturekit_order_becomes_zero_is_frontmost() {
    let windows = windows_front_to_back(&vec![
        record(1, 0, true),
        record(2, 0, true),
        record(3, 0, true),
    ]);
    let ids: Vec<u64> = windows.iter().map(|w| w.id.get()).collect();
    assert_eq!(ids, vec![1, 2, 3]);
    let zs: Vec<u32> = windows.iter().map(|w| w.z_order).collect();
    assert_eq!(zs, vec![0, 1, 2]);
    assert_eq!(
        topmost(&windows).unwrap().id,
        WindowId::new(1)
    );
}

#[test]
fn higher_window_levels_are_pulled_in_front() {
    let windows = windows_front_to_back(&vec![
        record(1, 0, true),
        record(2, 0, true),
        record(3, 20, true),
    ]);
    let ids: Vec<u64> = windows.iter().map(|w| w.id.get()).collect();
    assert_eq!(ids, vec![3, 1, 2]);
    assert_eq!(windows[0].z_order, 0);
}

#[test]
fn windows_below_the_normal_level_sink_to_the_back() {
    let windows = windows_front_to_back(&vec![record(1, -2147483623, true), record(2, 0, true)]);
    let ids: Vec<u64> = windows.iter().map(|w| w.id.get()).collect();
    assert_eq!(ids, vec![2, 1]);
}

#[test]
fn off_screen_windows_are_reported_as_minimized() {
    let windows = windows_front_to_back(&vec![record(1, 0, false), record(2, 0, true)]);
    assert!(windows[0].is_minimized);
    assert!(!windows[1].is_minimized);
    assert_eq!(
        topmost(&windows).unwrap().id,
        WindowId::new(2)
    );
}

#[test]
fn an_off_screen_window_is_refused_with_the_reason_rather_than_grabbed() {
    let windows = windows_front_to_back(&vec![record(1, 0, false)]);
    let err = resolve_target(
        CaptureTarget::Window(WindowId::new(1)),
        &desktop(),
        &windows,
    )
    .unwrap_err();
    assert!(matches!(err, CaptureError::Unsupported(_)));
    assert!(err.message().contains("no on-screen pixels"), "{err:?}");
}

#[test]
fn an_empty_window_list_stays_empty() {
    assert!(windows_front_to_back(&[]).is_empty());
}

fn padded(width: u32, height: u32, bytes_per_row: usize) -> Vec<u8> {
    let mut data = vec![0xEE; bytes_per_row * height as usize];
    for y in 0..height as usize {
        for x in 0..width as usize {
            let at = y * bytes_per_row + x * 4;
            data[at] = 0x10 + x as u8;
            data[at + 1] = 0x20 + y as u8;
            data[at + 2] = 0x30;
            data[at + 3] = 0x80;
        }
    }
    data
}

#[test]
fn row_padding_is_skipped_and_channels_are_swapped() {
    let data = padded(3, 2, 16);
    let rgba = bgra_rows_to_rgba(&data, 3, 2, 16, false).unwrap();
    assert_eq!(rgba.len(), 3 * 2 * 4);
    assert_eq!(&rgba[0..4], &[0x30, 0x20, 0x10, 0x80]);
    assert_eq!(&rgba[8..12], &[0x30, 0x20, 0x12, 0x80]);
    assert_eq!(&rgba[12..16], &[0x30, 0x21, 0x10, 0x80]);
    assert!(!rgba.contains(&0xEE), "padding leaked into the output");
}

#[test]
fn a_tightly_packed_image_needs_no_special_case() {
    let data = padded(4, 3, 16);
    let rgba = bgra_rows_to_rgba(&data, 4, 3, 16, false).unwrap();
    assert_eq!(rgba.len(), 4 * 3 * 4);
    assert_eq!(&rgba[0..4], &[0x30, 0x20, 0x10, 0x80]);
}

#[test]
fn a_realistic_retina_stride_unpacks_cleanly() {
    let width = 3024;
    let stride = 12160;
    let data = vec![7u8; stride * 2];
    let rgba = bgra_rows_to_rgba(&data, width, 2, stride, true).unwrap();
    assert_eq!(rgba.len() as usize, width as usize * 2 * 4);
    assert_eq!(&rgba[0..4], &[7, 7, 7, 255]);
}

#[test]
fn opaque_forcing_overwrites_a_junk_alpha_channel() {
    let mut data = padded(2, 1, 8);
    data[3] = 0x00;
    data[7] = 0x00;
    let rgba = bgra_rows_to_rgba(&data, 2, 1, 8, true).unwrap();
    assert_eq!(rgba, vec![0x30, 0x20, 0x10, 255, 0x30, 0x20, 0x11, 255]);
}

#[test]
fn a_meaningful_alpha_channel_survives() {
    let data = padded(1, 1, 4);
    let rgba = bgra_rows_to_rgba(&data, 1, 1, 4, false).unwrap();
    assert_eq!(rgba, vec![0x30, 0x20, 0x10, 0x80]);
}

#[test]
fn only_the_last_row_may_be_short() {
    let data = vec![0u8; 16 + 12];
    assert!(bgra_rows_to_rgba(&data, 3, 2, 16, true).is_ok());
    let short = vec![0u8; 16 + 11];
    assert!(matches!(
        bgra_rows_to_rgba(&short, 3, 2, 16, true),
        Err(CaptureError::InvalidFrame(_))
    ));
}

#[test]
fn an_impossible_stride_is_rejected_rather_than_read_out_of_bounds() {
    let data = vec![0u8; 64];
    let err = bgra_rows_to_rgba(&data, 4, 2, 8, true).unwrap_err();
    assert!(matches!(err, CaptureError::InvalidFrame(_)));
    assert!(err.message().contains("bytes per row"), "{err:?}");
}

#[test]
fn a_zero_sized_image_is_an_empty_region() {
    assert!(matches!(
        bgra_rows_to_rgba(&[], 0, 4, 0, true),
        Err(CaptureError::EmptyRegion)
    ));
    assert!(matches!(
        bgra_rows_to_rgba(&[], 4, 0, 16, true),
        Err(CaptureError::EmptyRegion)
    ));
}

#[test]
fn alpha_layouts_without_information_force_opacity() {
    for none in [0, 5, 6] {
        assert!(force_opaque_for(none), "alpha info {none}");
    }
    for real in [1, 2, 3, 4] {
        assert!(!force_opaque_for(real), "alpha info {real}");
    }
}

fn desktop() -> VirtualDesktop {
    VirtualDesktop::new(vec![
        from_points(
            1,
            "built-in",
            xywh(0.0, 0.0, 1512.0, 982.0),
            (3024, 1964),
            true,
        ),
        from_points(
            2,
            "external",
            xywh(1512.0, 0.0, 1920.0, 1080.0),
            (1920, 1080),
            false,
        ),
    ])
}

#[test]
fn a_region_inside_one_display_only_grabs_that_display() {
    let desktop = desktop();
    let covering = monitors_covering(&desktop, xywh(100.0, 100.0, 200.0, 200.0));
    assert_eq!(covering, vec![MonitorId::new(1)]);
}

#[test]
fn a_region_across_the_seam_grabs_both_displays() {
    let desktop = desktop();
    let covering = monitors_covering(&desktop, xywh(1600.0, 0.0, 800.0, 400.0));
    assert_eq!(covering, vec![MonitorId::new(1), MonitorId::new(2)]);
}

#[test]
fn a_region_off_every_display_grabs_nothing() {
    let desktop = desktop();
    assert!(
        monitors_covering(&desktop, xywh(-5000.0, -5000.0, 10.0, 10.0)).is_empty()
    );
}

#[test]
fn a_full_desktop_grab_covers_every_display() {
    let desktop = desktop();
    let covering = monitors_covering(&desktop, desktop.bounds());
    assert_eq!(covering.len(), desktop.len());
}

#[test]
fn resolving_a_region_then_cropping_the_display_grab_lands_on_the_same_pixels() {
    let desktop = desktop();
    let resolved = resolve_target(
        CaptureTarget::region(xywh(100.0, 50.0, 200.0, 100.0)),
        &desktop,
        &[],
    )
    .unwrap();
    assert_eq!(resolved.monitor, Some(MonitorId::new(1)));
    assert_eq!(resolved.scale_factor, scale(2.0));

    let display = desktop.require(MonitorId::new(1)).unwrap();
    let grab = clear(
        display.bounds.width() as u32,
        display.bounds.height() as u32,
        display.origin(),
        f32::from_bits(display.scale_factor.bits),
    )
    .unwrap();
    let cropped = grab.crop(resolved.bounds).unwrap();
    assert_eq!((cropped.width, cropped.height), (200, 100));
    assert_eq!(cropped.origin, vec2(100.0, 50.0));
}

#[test]
fn a_macos_without_the_screenshot_api_can_still_enumerate() {
    let old = capabilities_for(false);
    assert!(old.monitor_enumeration);
    assert!(old.window_enumeration);
    assert!(!old.full_desktop);
    assert!(!old.monitor);
    assert!(!old.window);
    assert!(!old.region);
    assert!(old.may_prompt_for_permission);
    assert!(!old.interactive_only);
}

#[test]
fn a_modern_macos_can_capture_every_target() {
    let new = capabilities_for(true);
    for target in [
        CaptureTarget::FullDesktop,
        CaptureTarget::Monitor(MonitorId::new(1)),
        CaptureTarget::Window(WindowId::new(1)),
        CaptureTarget::region(xywh(0.0, 0.0, 1.0, 1.0)),
    ] {
        assert!(new.supports(&target), "{target:?}");
    }
}

#[test]
fn an_old_macos_is_told_the_version_it_needs_not_that_the_target_is_odd() {
    for target in [
        CaptureTarget::FullDesktop,
        CaptureTarget::Monitor(MonitorId::new(1)),
        CaptureTarget::Window(WindowId::new(1)),
        CaptureTarget::region(xywh(0.0, 0.0, 1.0, 1.0)),
    ] {
        let err = ensure_capture_supported(false, &target).unwrap_err();
        assert!(matches!(err, CaptureError::Unsupported(_)), "{target:?}");
        let text = err.message();
        assert!(text.contains(MIN_SCREENSHOT_MANAGER), "{text}");
        assert!(text.contains("SCScreenshotManager"), "{text}");
        assert!(!text.contains("cannot capture a"), "{text}");
    }
}

#[test]
fn a_modern_macos_passes_the_version_gate() {
    for target in [
        CaptureTarget::FullDesktop,
        CaptureTarget::Monitor(MonitorId::new(1)),
        CaptureTarget::Window(WindowId::new(1)),
        CaptureTarget::region(xywh(0.0, 0.0, 1.0, 1.0)),
    ] {
        assert!(
            ensure_capture_supported(true, &target).is_ok(),
            "{target:?}"
        );
    }
}

#[test]
fn little_endian_32_bit_images_are_the_accepted_layout() {
    assert!(ensure_bgra8(32, BYTE_ORDER_32_LITTLE).is_ok());
    assert_eq!(BYTE_ORDER_32_LITTLE, 0x2000);
}

#[test]
fn a_big_endian_32_bit_image_is_refused_rather_than_silently_recoloured() {
    let err = ensure_bgra8(32, 0x4000).unwrap_err();
    assert!(matches!(err, CaptureError::Unsupported(_)));
    let text = err.message();
    assert!(text.contains("kCGImageByteOrder32Big"), "{text}");
    assert!(text.contains("kCGImageByteOrder32Little"), "{text}");
}

#[test]
fn the_default_byte_order_is_not_assumed_to_be_bgra() {
    let err = ensure_bgra8(32, 0).unwrap_err();
    assert!(
        err.message().contains("kCGImageByteOrderDefault"),
        "{err:?}"
    );
}

#[test]
fn a_non_32_bit_image_is_still_refused_first() {
    let err = ensure_bgra8(64, BYTE_ORDER_32_LITTLE).unwrap_err();
    assert!(matches!(err, CaptureError::Unsupported(_)));
    assert!(err.message().contains("64-bit"), "{err:?}");
}

#[test]
fn an_unrecognised_byte_order_is_reported_by_value() {
    let err = ensure_bgra8(32, 0x7000).unwrap_err();
    assert!(err.message().contains("0x7000"), "{err:?}");
}

#[test]
fn a_declined_permission_maps_to_permission_denied_with_the_settings_path() {
    let err = classify_sc_error("SCStreamErrorDomain", -3801, "user declined");
    assert!(err.is_permission_denied());
    let text = err.message();
    assert!(text.contains("Screen & System Audio Recording"), "{text}");
    assert!(text.contains("System Settings"), "{text}");
    assert!(text.contains("relaunch"), "{text}");
}

#[test]
fn missing_entitlements_are_also_a_permission_problem() {
    assert!(
        classify_sc_error("SCStreamErrorDomain", -3803, "no entitlement")
            .is_permission_denied()
    );
}

#[test]
fn a_user_stopped_capture_is_a_cancellation_not_a_failure() {
    let err = classify_sc_error("SCStreamErrorDomain", -3817, "stopped");
    assert!(err.is_cancelled());
    assert!(err.guidance().is_none());
}

#[test]
fn an_empty_display_list_is_reported_as_a_stale_permission() {
    for code in [-3813, -3814, -3815] {
        let err = classify_sc_error("SCStreamErrorDomain", code, "");
        assert!(err.is_permission_denied(), "code {code}");
        assert!(err.message().contains("relaunch"), "code {code}");
    }
}

#[test]
fn unknown_screencapturekit_codes_fall_back_to_backend() {
    let err = classify_sc_error("SCStreamErrorDomain", -3811, "internal");
    assert!(matches!(err, CaptureError::Backend(_)));
    assert!(err.message().contains("-3811"));
    assert!(err.message().contains("internal"));
}

#[test]
fn errors_from_other_domains_are_never_misread_as_denials() {
    let err = classify_sc_error("NSOSStatusErrorDomain", -3801, "boom");
    assert!(matches!(err, CaptureError::Backend(_)));
    assert!(!err.is_permission_denied());
    assert!(err.message().contains("NSOSStatusErrorDomain"));
}

#[test]
fn the_permission_message_tells_the_user_exactly_where_to_go() {
    let err = permission_denied("checked before capture");
    assert!(err.is_permission_denied());
    let text = err.message();
    assert!(text.contains(SETTINGS_PATH), "{text}");
    assert!(text.contains("checked before capture"), "{text}");
    assert!(err.guidance().unwrap().contains("Screen"));
}

#[test]
fn the_stale_permission_message_distinguishes_itself_from_a_denial() {
    let stale = stale_permission().message();
    assert!(stale.contains("returned no displays"), "{stale}");
    assert!(stale.contains("relaunch"), "{stale}");
}

#[test]
fn an_old_macos_is_unsupported_and_names_the_version_it_needs() {
    let err = too_old("SCScreenshotManager", MIN_SCREENSHOT_MANAGER);
    assert!(matches!(err, CaptureError::Unsupported(_)));
    let text = err.message();
    assert!(text.contains("14.0"), "{text}");
    assert!(text.contains("SCScreenshotManager"), "{text}");

    let older = too_old("ScreenCaptureKit", MIN_SCREEN_CAPTURE_KIT).message();
    assert!(older.contains("12.3"), "{older}");
}

#[test]
fn a_timeout_says_what_it_was_waiting_for_and_how_long() {
    let err = timed_out("capturing a monitor", 15);
    assert!(matches!(err, CaptureError::Backend(_)));
    let text = err.message();
    assert!(text.contains("capturing a monitor"), "{text}");
    assert!(text.contains("15"), "{text}");
    assert!(text.contains(SETTINGS_PATH), "{text}");
}

fn from_points(
    id: u32,
    name: &str,
    points: Rect,
    pixel_size: (u32, u32),
    primary: bool,
) -> MonitorInfo {
    let factor = if pixel_size.0 == 0 {
        1.0
    } else {
        pixel_size.0 as f32 / points.width() as f32
    };
    let scaled = Rect {
        left: (points.left as f32 * factor).round() as i64,
        top: (points.top as f32 * factor).round() as i64,
        right: (points.right as f32 * factor).round() as i64,
        bottom: (points.bottom as f32 * factor).round() as i64,
    };
    monitor_from_display(id, name, scaled, pixel_size, factor.to_bits(), primary)
}

#[test]
fn permission_is_asked_for_once() {
    assert!(ensure_permission(true, false).is_ok());
    assert!(ensure_permission(false, true).is_ok());
    assert!(ensure_permission(false, false).unwrap_err().is_permission_denied());
}
