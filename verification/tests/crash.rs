use bettershot::crash::Report;

fn report() -> Report {
    Report {
        version: "0.1.0".to_owned(),
        os: "linux".to_owned(),
        arch: "x86_64".to_owned(),
        message: "something went wrong".to_owned(),
        location: Some("crates/app/src/editor.rs:42:9".to_owned()),
        backtrace: None,
    }
}

#[test]
fn a_report_states_the_version_platform_and_panic() {
    let text = report().render();
    assert!(text.contains("0.1.0"), "{text}");
    assert!(text.contains("linux-x86_64"), "{text}");
    assert!(text.contains("something went wrong"), "{text}");
    assert!(text.contains("editor.rs:42:9"), "{text}");
}

#[test]
fn a_report_says_how_to_get_a_backtrace_when_there_is_none() {
    let text = report().render();
    assert!(text.contains("RUST_BACKTRACE=1"), "{text}");
}

#[test]
fn a_backtrace_is_included_when_one_was_captured() {
    let mut r = report();
    r.backtrace = Some("frame 0\nframe 1".to_owned());
    let text = r.render();
    assert!(text.contains("frame 0"), "{text}");
    assert!(!text.contains("RUST_BACKTRACE=1"), "no need to suggest it");
}

#[test]
fn a_report_promises_and_keeps_its_privacy_guarantee() {
    let text = report().render();
    assert!(text.contains("no image data"), "{text}");
    assert!(text.contains("not sent anywhere"), "{text}");
}

#[test]
fn a_report_is_laid_out_line_by_line() {
    let mut r = report();
    r.location = None;
    assert!(r.render().starts_with(
        "bettershot crash report\nversion: 0.1.0\nplatform: linux-x86_64\nlocation: unknown\nmessage: something went wrong\n\n"
    ));
}
