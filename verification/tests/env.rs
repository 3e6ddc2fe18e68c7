use bettershot::env::{select_backend, BackendChoice, Environment, TargetOs};
use bettershot::error::CaptureError;

fn linux(session: Option<&str>, wayland: Option<&str>, x11: Option<&str>) -> Environment {
    Environment::new(TargetOs::Linux, session, wayland, x11)
}

#[test]
fn windows_always_picks_graphics_capture() {
    let selection =
        select_backend(&Environment::new(TargetOs::Windows, None, None, None)).unwrap();
    assert_eq!(selection.choice, BackendChoice::WindowsGraphicsCapture);
    assert_eq!(selection.choice.name(), "windows-graphics-capture");
}

#[test]
fn macos_always_picks_screencapturekit() {
    let selection =
        select_backend(&Environment::new(TargetOs::MacOs, None, None, None)).unwrap();
    assert_eq!(selection.choice, BackendChoice::MacOsScreenCaptureKit);
    assert_eq!(selection.choice.name(), "macos-screencapturekit");
    assert!(selection.reason.contains("ScreenCaptureKit"));
    assert!(selection.reason.contains("12.3"), "{}", selection.reason);
    assert!(selection.reason.contains("14.0"), "{}", selection.reason);
}

#[test]
fn macos_ignores_the_linux_session_variables_entirely() {
    let selection = select_backend(&Environment::new(
        TargetOs::MacOs,
        Some("x11"),
        Some("wayland-0"),
        Some(":0"),
    ))
    .unwrap();
    assert_eq!(selection.choice, BackendChoice::MacOsScreenCaptureKit);
}

#[test]
fn unknown_operating_systems_are_unsupported() {
    assert!(matches!(
        select_backend(&Environment::new(TargetOs::Other, None, None, None)),
        Err(CaptureError::Unsupported(_))
    ));
}

#[test]
fn wayland_session_picks_the_portal() {
    let selection = select_backend(&linux(Some("wayland"), Some("wayland-0"), None)).unwrap();
    assert_eq!(selection.choice, BackendChoice::WaylandPortal);
}

#[test]
fn x11_session_picks_the_x11_backend() {
    let selection = select_backend(&linux(Some("x11"), None, Some(":0"))).unwrap();
    assert_eq!(selection.choice, BackendChoice::X11);
}

#[test]
fn xorg_is_accepted_as_a_spelling_of_x11() {
    let selection = select_backend(&linux(Some("Xorg"), None, Some(":0"))).unwrap();
    assert_eq!(selection.choice, BackendChoice::X11);
}

#[test]
fn session_type_is_matched_case_insensitively_and_trimmed() {
    let selection =
        select_backend(&linux(Some("  WAYLAND \n"), Some("wayland-1"), None)).unwrap();
    assert_eq!(selection.choice, BackendChoice::WaylandPortal);
}

#[test]
fn under_xwayland_the_portal_wins_over_display() {
    let selection =
        select_backend(&linux(Some("wayland"), Some("wayland-0"), Some(":0"))).unwrap();
    assert_eq!(selection.choice, BackendChoice::WaylandPortal);
}

#[test]
fn an_explicit_x11_session_outranks_a_leaked_wayland_display() {
    let selection = select_backend(&linux(Some("x11"), Some("wayland-0"), Some(":0"))).unwrap();
    assert_eq!(selection.choice, BackendChoice::X11);
    assert!(selection.reason.contains("XDG_SESSION_TYPE=x11"));
}

#[test]
fn a_wayland_display_alone_is_enough_for_the_portal() {
    let selection = select_backend(&linux(None, Some("wayland-0"), None)).unwrap();
    assert_eq!(selection.choice, BackendChoice::WaylandPortal);
    let selection = select_backend(&linux(Some("tty"), Some("wayland-0"), None)).unwrap();
    assert_eq!(selection.choice, BackendChoice::WaylandPortal);
}

#[test]
fn a_display_alone_is_enough_for_x11() {
    let selection = select_backend(&linux(None, None, Some(":1"))).unwrap();
    assert_eq!(selection.choice, BackendChoice::X11);
}

#[test]
fn a_wayland_session_type_alone_still_reaches_the_portal_over_dbus() {
    let selection = select_backend(&linux(Some("wayland"), None, None)).unwrap();
    assert_eq!(selection.choice, BackendChoice::WaylandPortal);
    assert!(selection.reason.contains("D-Bus"));
}

#[test]
fn an_x11_session_type_without_display_is_no_display() {
    assert!(matches!(
        select_backend(&linux(Some("x11"), None, None)),
        Err(CaptureError::NoDisplay)
    ));
}

#[test]
fn a_tty_session_with_nothing_set_is_no_display() {
    assert!(matches!(
        select_backend(&linux(Some("tty"), None, None)),
        Err(CaptureError::NoDisplay)
    ));
    assert!(matches!(
        select_backend(&linux(None, None, None)),
        Err(CaptureError::NoDisplay)
    ));
}

#[test]
fn empty_env_vars_count_as_unset() {
    let env = linux(Some("  "), Some(""), Some(""));
    assert_eq!(env.session_type, None);
    assert_eq!(env.wayland_display, None);
    assert_eq!(env.display, None);
    assert!(matches!(select_backend(&env), Err(CaptureError::NoDisplay)));
}

#[test]
fn selection_renders_the_reason_for_logs() {
    let selection = select_backend(&linux(None, None, Some(":0"))).unwrap();
    let text = selection.describe();
    assert!(text.starts_with("x11 ("), "{text}");
    assert!(text.contains("DISPLAY"), "{text}");
}

#[test]
fn operating_systems_are_known_by_name() {
    assert_eq!(TargetOs::current("linux"), TargetOs::Linux);
    assert_eq!(TargetOs::current("windows"), TargetOs::Windows);
    assert_eq!(TargetOs::current("macos"), TargetOs::MacOs);
    assert_eq!(TargetOs::current("freebsd"), TargetOs::Other);
}
