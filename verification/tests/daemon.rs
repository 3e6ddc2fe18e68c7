use std::collections::HashMap;

use bettershot::capture::CaptureMode;
use bettershot::daemon::{
    bindings_differ, parse_bindings, poll_menu, rebind_advice, take_trigger, tray_menu_items, HotkeyBinding, Hotkeys, Trigger,
    TRAY_MISSING,
};
use global_hotkey::hotkey::HotKey;

fn hotkeys(working: &[(&str, CaptureMode)], failures: &[&str]) -> Hotkeys {
    Hotkeys {
        bindings: HashMap::new(),
        working: working.iter().map(|(k, m)| ((*k).to_owned(), *m)).collect(),
        failures: failures.iter().map(|f| (*f).to_owned()).collect(),
    }
}

#[test]
fn a_working_daemon_says_which_key_to_press() {
    let (title, body) = hotkeys(&[("PrintScreen", CaptureMode::Region)], &[]).announcement();
    assert_eq!(title, "bettershot is running");
    assert!(body.contains("PrintScreen"), "{body}");
    assert!(body.contains("region"), "{body}");
}

#[test]
fn a_failed_binding_is_reported_in_the_title_not_buried() {
    let (title, body) = hotkeys(&[], &["could not register `PrintScreen`"]).announcement();
    assert!(title.contains("did not register"), "{title}");
    assert!(body.contains("PrintScreen"), "{body}");
    assert!(body.contains("No global hotkey is active"), "{body}");
}

#[test]
fn a_partial_failure_still_lists_the_keys_that_work() {
    let (title, body) = hotkeys(
        &[("PrintScreen", CaptureMode::Region)],
        &["could not register `Shift+PrintScreen`"],
    )
    .announcement();
    assert!(title.contains("did not register"), "{title}");
    assert!(body.contains("PrintScreen for region"), "{body}");
    assert!(body.contains("Shift+PrintScreen"), "{body}");
}

#[test]
fn every_live_key_is_listed() {
    let (_, body) = hotkeys(
        &[("F1", CaptureMode::Region), ("F2", CaptureMode::All)],
        &["one", "two"],
    )
    .announcement();
    assert_eq!(body, "Press F1 for region, F2 for all.\n\none\n\ntwo");
}

#[test]
fn the_rebind_advice_suits_the_platform() {
    let windows = rebind_advice(true);
    assert!(windows.contains("Snipping Tool"), "{windows}");
    assert!(!windows.contains("compositor"), "{windows}");
    let elsewhere = rebind_advice(false);
    assert!(elsewhere.contains("compositor"), "{elsewhere}");
}

#[test]
fn the_tray_menu_offers_every_capture_mode_plus_settings_and_quit() {
    let items = tray_menu_items(true);

    for mode in CaptureMode::all() {
        assert!(
            items.iter().any(|(_, t)| *t == Trigger::Capture(mode)),
            "no tray entry captures {mode:?}"
        );
    }
    assert!(items.iter().any(|(_, t)| *t == Trigger::Settings));
    assert!(items.iter().any(|(_, t)| *t == Trigger::Quit));
    assert!(items.iter().all(|(label, _)| !label.is_empty()));
}

#[test]
fn disabling_the_tray_produces_no_menu() {
    assert!(tray_menu_items(false).is_empty());
}

#[test]
fn registering_no_hotkeys_is_not_an_error() {
    let hotkeys = Hotkeys::register(&[], Ok(()), &[], &[], false);
    assert!(!hotkeys.is_active());
    assert!(hotkeys.failures().is_empty(), "nothing was asked for");
    assert_eq!(hotkeys.poll(&[]), None);
    assert_eq!(hotkeys.summary(), "no hotkeys configured");
}

fn two_bindings() -> Vec<HotkeyBinding> {
    vec![
        HotkeyBinding::new("Ctrl+Shift+F13", CaptureMode::Region),
        HotkeyBinding::new("NotAKey+++", CaptureMode::Window),
    ]
}

#[test]
fn an_unavailable_or_invalid_binding_is_reported_rather_than_fatal() {
    let bindings = two_bindings();
    let parsed = parse_bindings(&bindings);
    let grabs = [Err("no display".to_owned()), Ok(())];
    let hotkeys = Hotkeys::register(&bindings, Ok(()), &parsed, &grabs, false);
    assert!(
        !hotkeys.failures().is_empty(),
        "an unusable binding should be explained"
    );
    assert_eq!(hotkeys.poll(&[]), None);
    assert_eq!(hotkeys.registered_count(), hotkeys.bindings.len());
    assert!(!hotkeys.summary().is_empty());
    assert_eq!(hotkeys.summary(), "no global hotkeys available (2 failed)");
    assert!(hotkeys.failures()[0].contains("(no display)"), "{}", hotkeys.failures()[0]);
    assert!(hotkeys.failures()[1].starts_with("`NotAKey+++` is not a valid hotkey: "));
}

#[test]
fn a_session_without_hotkeys_says_so_once() {
    let bindings = two_bindings();
    let parsed = parse_bindings(&bindings);
    let grabs = [Ok(()), Ok(())];
    let hotkeys =
        Hotkeys::register(&bindings, Err("wayland".to_owned()), &parsed, &grabs, false);
    assert_eq!(hotkeys.failures().len(), 1);
    assert!(hotkeys.failures()[0]
        .starts_with("global hotkeys are unavailable on this session (wayland); Bind your"));
    assert!(!hotkeys.is_active());
}

#[test]
fn a_valid_key_that_is_grabbed_is_live() {
    let bindings = [
        HotkeyBinding::new("  Ctrl+Shift+F1 ", CaptureMode::Region),
        HotkeyBinding::new("NotAKey+++", CaptureMode::Window),
    ];
    let parsed = parse_bindings(&bindings);
    let id = *parsed[0].as_ref().expect("a valid key");
    assert_eq!(
        id,
        "Ctrl+Shift+F1".parse::<global_hotkey::hotkey::HotKey>().unwrap().id()
    );
    let hotkeys = Hotkeys::register(&bindings, Ok(()), &parsed, &[Ok(()), Ok(())], true);
    assert!(hotkeys.is_active());
    assert_eq!(hotkeys.registered_count(), 1);
    assert_eq!(hotkeys.working, [("Ctrl+Shift+F1".to_owned(), CaptureMode::Region)]);
    assert_eq!(hotkeys.summary(), "1 global hotkey(s) registered, 1 failed");
    assert_eq!(hotkeys.poll(&[(id, false), (id.wrapping_add(1), true)]), None);
    assert_eq!(hotkeys.poll(&[(id, false), (id, true)]), Some(CaptureMode::Region));
}

#[test]
fn the_tray_stub_reports_the_missing_feature_when_disabled() {
    assert!(TRAY_MISSING.contains("tray"), "{TRAY_MISSING}");
}

#[test]
fn the_tray_comes_before_the_keys() {
    assert_eq!(
        take_trigger(Some(Trigger::Quit), Some(CaptureMode::All)),
        Some(Trigger::Quit)
    );
    assert_eq!(
        take_trigger(None, Some(CaptureMode::All)),
        Some(Trigger::Capture(CaptureMode::All))
    );
    assert_eq!(take_trigger(None, None), None);
}

#[test]
fn edited_bindings_are_noticed() {
    let old = two_bindings();
    assert!(!bindings_differ(&old, &two_bindings()));
    assert!(bindings_differ(&old, &old[..1]));
    let mut new = two_bindings();
    new[1].mode = CaptureMode::All;
    assert!(bindings_differ(&old, &new));
    new = two_bindings();
    new[0].key = "F1".to_owned();
    assert!(bindings_differ(&old, &new));
}

#[test]
fn a_key_gets_the_id_under_which_its_press_arrives() {
    let bindings = [
        HotkeyBinding::new(" Ctrl+Shift+A ", CaptureMode::Region),
        HotkeyBinding::new("CmdOrCtrl+F5", CaptureMode::Window),
        HotkeyBinding::new("PrintScreen", CaptureMode::All),
    ];
    let id = |text: &str| text.parse::<HotKey>().unwrap().id();
    let expected = [id("Ctrl+Shift+A"), id("CmdOrCtrl+F5"), id("PrintScreen")];
    let parsed: Vec<u32> = parse_bindings(&bindings).into_iter().map(|p| p.unwrap()).collect();
    assert_eq!(parsed, expected);
    let parsed = parse_bindings(&bindings);
    let grabs = [Ok(()), Ok(()), Ok(())];
    let hotkeys = Hotkeys::register(&bindings, Ok(()), &parsed, &grabs, false);
    assert_eq!(hotkeys.poll(&[(expected[1], true)]), Some(CaptureMode::Window));
}

#[test]
fn the_first_click_on_a_known_entry_counts() {
    let actions = [(1, Trigger::Settings), (2, Trigger::Quit), (2, Trigger::Capture(CaptureMode::All))];
    assert_eq!(poll_menu(&actions, &[]), None);
    assert_eq!(poll_menu(&actions, &[9, 8]), None);
    assert_eq!(poll_menu(&actions, &[9, 1, 2]), Some(Trigger::Settings));
    assert_eq!(poll_menu(&actions, &[2, 1]), Some(Trigger::Capture(CaptureMode::All)));
}
