use bettershot::error::{classify_portal_error, CaptureError};
use bettershot::monitor::MonitorId;
use bettershot::window::WindowId;

#[test]
fn cancelled_is_recognised_and_carries_no_guidance() {
    let err = CaptureError::Cancelled;
    assert!(err.is_cancelled());
    assert!(!err.is_permission_denied());
    assert!(err.guidance().is_none());
}

#[test]
fn permission_denied_offers_guidance() {
    let err = CaptureError::permission_denied("portal said no");
    assert!(err.is_permission_denied());
    assert!(err.guidance().unwrap().contains("Screen"));
    assert!(err.message().contains("portal said no"));
}

#[test]
fn no_display_message_names_both_env_vars() {
    let text = CaptureError::NoDisplay.message();
    assert!(text.contains("WAYLAND_DISPLAY"));
    assert!(text.contains("DISPLAY"));
}

#[test]
fn stale_ids_are_retryable_but_permission_is_not() {
    assert!(CaptureError::NoSuchMonitor(MonitorId::new(7)).is_retryable());
    assert!(CaptureError::NoSuchWindow(WindowId::new(7)).is_retryable());
    assert!(!CaptureError::NoDisplay.is_retryable());
    assert!(!CaptureError::permission_denied("x").is_retryable());
}

#[test]
fn missing_ids_are_named_in_the_message() {
    assert_eq!(
        CaptureError::NoSuchMonitor(MonitorId::new(42)).message(),
        "no such monitor: monitor#42"
    );
    assert_eq!(
        CaptureError::NoSuchWindow(WindowId::new(3)).message(),
        "no such window: window#3"
    );
}

#[test]
fn portal_cancellation_maps_to_cancelled() {
    assert!(
        classify_portal_error(
            "org.freedesktop.portal.Error.Cancelled",
            "user closed dialog"
        )
        .is_cancelled()
    );
    assert!(classify_portal_error("Canceled", "").is_cancelled());
}

#[test]
fn portal_denial_maps_to_permission_denied() {
    for name in [
        "org.freedesktop.portal.Error.NotAllowed",
        "org.freedesktop.DBus.Error.AccessDenied",
        "PermissionDenied",
    ] {
        assert!(
            classify_portal_error(name, "nope").is_permission_denied(),
            "{name} should map to PermissionDenied"
        );
    }
}

#[test]
fn missing_portal_service_maps_to_unsupported() {
    let err =
        classify_portal_error("org.freedesktop.DBus.Error.ServiceUnknown", "no such name");
    assert!(matches!(err, CaptureError::Unsupported(_)));
}

#[test]
fn unknown_portal_errors_fall_back_to_backend() {
    let err = classify_portal_error("org.example.Weird", "boom");
    assert!(matches!(err, CaptureError::Backend(_)));
    assert!(err.message().contains("org.example.Weird"));
    assert!(err.message().contains("boom"));
}
