use bettershot::error::{classify_portal_error, CaptureError};
use bettershot::frame::RawFrame;
use bettershot::geometry::{Rect, Vec2D};
use bettershot::monitor::MonitorId;
use bettershot::codec::SaveFormat;
use bettershot::output::encode;
use bettershot::picture::RgbaImage;
use bettershot::portal::{dbus_error_name, decode_screenshot, ensure_portal_present, file_uri_to_path, percent_decode, portal_missing, screenshot_frame, BusAnswer, PortalBackend, BUS_QUERY_TIMEOUT_SECS};
use bettershot::single::ScaleFactor;
use bettershot::target::CaptureTarget;
use bettershot::window::WindowId;

fn xywh(x: f32, y: f32, w: f32, h: f32) -> Rect {
    Rect::from_xywh(x as i64, y as i64, w as i64, h as i64)
}
fn scale(factor: f32) -> ScaleFactor {
    ScaleFactor { bits: factor.to_bits() }
}

#[test]
fn the_missing_portal_error_tells_the_user_what_to_install() {
    let message = portal_missing().message();
    assert!(message.contains("xdg-desktop-portal"), "{message}");
    assert!(
        message.contains("--filename"),
        "offer the fallback: {message}"
    );
    assert!(message.contains("startable"), "{message}");
}

#[test]
fn the_bus_query_timeout_is_short() {
    assert!(BUS_QUERY_TIMEOUT_SECS <= 3);
}

#[test]
fn plain_file_uris_become_paths() {
    assert_eq!(
        file_uri_to_path("file:///tmp/shot.png").unwrap(),
        "/tmp/shot.png"
    );
}

#[test]
fn a_localhost_authority_is_accepted() {
    assert_eq!(
        file_uri_to_path("file://localhost/tmp/shot.png").unwrap(),
        "/tmp/shot.png"
    );
}

#[test]
fn percent_escapes_are_decoded() {
    assert_eq!(
        file_uri_to_path("file:///home/me/My%20Pictures/a%2Bb.png").unwrap(),
        "/home/me/My Pictures/a+b.png"
    );
    assert_eq!(
        file_uri_to_path("file:///tmp/%C3%A9.png").unwrap(),
        "/tmp/\u{e9}.png"
    );
}

#[test]
fn non_file_and_remote_uris_are_rejected() {
    assert!(file_uri_to_path("https://example.com/shot.png").is_err());
    assert!(file_uri_to_path("file://otherhost/tmp/shot.png").is_err());
}

#[test]
fn empty_and_malformed_uris_are_rejected() {
    assert!(file_uri_to_path("file://").is_err());
    assert!(file_uri_to_path("file:///").is_err());
    assert!(file_uri_to_path("file:///tmp/%ZZ.png").is_err());
    assert!(file_uri_to_path("file:///tmp/%4").is_err());
}

#[test]
fn dbus_error_names_are_extracted_from_messages() {
    assert_eq!(
        dbus_error_name("org.freedesktop.DBus.Error.ServiceUnknown: no such name"),
        Some("org.freedesktop.DBus.Error.ServiceUnknown")
    );
    assert_eq!(dbus_error_name("connection refused"), None);
}

#[test]
fn extracted_dbus_names_classify_the_same_way_as_portal_responses() {
    let text = "org.freedesktop.portal.Error.Cancelled: user dismissed";
    let name = dbus_error_name(text).unwrap();
    assert!(classify_portal_error(name, text).is_cancelled());
}

#[test]
fn the_portal_backend_refuses_enumeration_with_a_useful_message() {
    let backend = PortalBackend::new();
    assert_eq!(backend.name(), "wayland-portal");
    let err = backend.monitors().unwrap_err();
    assert!(matches!(err, CaptureError::Unsupported(_)));
    assert!(err.message().contains("monitor geometry"));
    assert!(matches!(
        backend.windows(),
        Err(CaptureError::Unsupported(_))
    ));
}

#[test]
fn the_portal_backend_advertises_only_what_it_can_do() {
    let caps = PortalBackend::new().capabilities();
    assert!(caps.full_desktop);
    assert!(caps.region);
    assert!(caps.may_prompt_for_permission);
    assert!(!caps.monitor);
    assert!(!caps.window);
    assert!(!caps.monitor_enumeration);
    assert!(!caps.window_enumeration);
}

#[test]
fn unsupported_targets_are_refused_before_any_dbus_traffic() {
    let backend = PortalBackend::new();
    for target in [
        CaptureTarget::Monitor(MonitorId::new(1)),
        CaptureTarget::Window(WindowId::new(1)),
        CaptureTarget::region_on(MonitorId::new(1), xywh(0.0, 0.0, 10.0, 10.0)),
    ] {
        assert!(
            matches!(backend.plan_capture(target), Err(CaptureError::Unsupported(_))),
            "{target:?} should be refused up front"
        );
    }
}

#[test]
fn a_portal_that_can_be_started_will_do() {
    assert!(ensure_portal_present(&BusAnswer::Running).is_ok());
    let names = vec!["org.freedesktop.portal.Desktop".to_owned()];
    assert!(ensure_portal_present(&BusAnswer::Activatable(names)).is_ok());
    let others = vec!["org.example.Other".to_owned()];
    assert!(ensure_portal_present(&BusAnswer::Activatable(others)).is_err());
    assert!(ensure_portal_present(&BusAnswer::NoBus).is_err());
}

#[test]
fn escapes_that_are_no_text_are_rejected() {
    assert_eq!(percent_decode("a%20b").unwrap(), "a b");
    assert!(percent_decode("%FF").is_err());
}

#[test]
fn an_escape_needs_two_hexadecimal_digits() {
    for uri in ["/tmp/%+5", "/tmp/%-5", "/tmp/%5+", "/tmp/% 5", "/tmp/%"] {
        match percent_decode(uri) {
            Err(CaptureError::Backend(text)) => {
                assert_eq!(text, format!("malformed percent-escape in portal URI: {uri}"))
            }
            other => panic!("unexpected: {other:?}"),
        }
    }
    assert!(file_uri_to_path("file:///tmp/%+5").is_err());
    assert_eq!(percent_decode("/tmp/%4a%4A").unwrap(), "/tmp/JJ");
}

#[test]
fn a_screenshot_file_becomes_a_frame_at_the_origin() {
    let image = RgbaImage::from_pixel(3, 2, [9, 8, 7, 255]).unwrap();
    let file = encode(&image, SaveFormat::Png).unwrap();
    let frame = decode_screenshot(&file, "/tmp/shot.png").unwrap();
    assert_eq!((frame.width, frame.height), (3, 2));
    assert_eq!(frame.origin, Vec2D::new(0, 0));
    assert_eq!(frame.scale_factor, scale(1.0));
    assert_eq!(frame.data, image.data);
    match decode_screenshot(b"not an image", "/tmp/shot.png") {
        Err(CaptureError::Backend(text)) => {
            assert!(text.starts_with("could not decode the portal image: "), "{text}")
        }
        other => panic!("unexpected: {other:?}"),
    }
}

#[test]
fn a_region_is_cut_out_of_the_whole_desktop() {
    let backend = PortalBackend::new();
    let frame = RawFrame::filled(4, 4, [1, 2, 3, 255], Vec2D::new(0, 0), 1.0f32.to_bits()).unwrap();
    let target = CaptureTarget::region(xywh(1.0, 1.0, 2.0, 2.0));
    let plan = backend.plan_capture(target).unwrap();
    let cut = backend.capture(plan, frame).unwrap();
    assert_eq!((cut.width, cut.height), (2, 2));
    assert_eq!(cut.origin, Vec2D::new(1, 1));
}

#[test]
fn how_a_file_begins_counts_before_its_name() {
    let image = RgbaImage::from_pixel(3, 2, [9, 8, 7, 255]).unwrap();
    let file = encode(&image, SaveFormat::Png).unwrap();
    for name in ["/tmp/shot.jpeg", "/tmp/shot.xyz", "/tmp/shot"] {
        assert_eq!(decode_screenshot(&file, name).unwrap().data, image.data, "{name}");
    }
    // Bytes that begin like nothing known are read as what the name says.
    let text = |name: &str| match decode_screenshot(b"not an image", name) {
        Err(CaptureError::Backend(text)) => text,
        other => panic!("unexpected: {other:?}"),
    };
    assert!(text("/tmp/shot.png").to_lowercase().contains("png"), "{}", text("/tmp/shot.png"));
    assert!(text("/tmp/shot.xyz").contains("xyz"), "{}", text("/tmp/shot.xyz"));
    assert!(text("/tmp/shot").contains("could not be determined"), "{}", text("/tmp/shot"));
}

#[test]
fn what_the_decoder_made_of_the_image_decides() {
    let image = RgbaImage::from_pixel(2, 1, [1, 2, 3, 4]).unwrap();
    let frame = screenshot_frame(Ok(image)).unwrap();
    assert_eq!(frame.data, vec![1, 2, 3, 4, 1, 2, 3, 4]);
    assert_eq!((frame.width, frame.height), (2, 1));
    match screenshot_frame(Err("broken".to_owned())) {
        Err(CaptureError::Backend(text)) => {
            assert_eq!(text, "could not decode the portal image: broken")
        }
        other => panic!("unexpected: {other:?}"),
    }
}
