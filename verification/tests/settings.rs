use bettershot::app::{Theme, WindowOptions};
use bettershot::capture::CaptureMode;
use bettershot::codec::SaveFormat;
use bettershot::history::{Entry, History};
use bettershot::notify::{copied, notify, saved};
use bettershot::settings::{
    held_label, Action, CaptureOptions, Change, Config, DaemonConfig, ObscureKind, SettingsWindow,
    Tools,
};

fn config() -> Config {
    Config {
        language: "system".to_owned(),
        theme: Theme::System,
        hide_toolbars: false,
        initial_tool: Tools::Pointer,
        initial_size: 1,
        annotation_scale_bits: 1.0f32.to_bits(),
        default_fill_shapes: false,
        default_round_caps: true,
        obscure: ObscureKind::Blur,
        action_on_enter: Action::SaveToClipboard,
        action_on_escape: Action::Exit,
        early_exit: false,
        save_after_copy: false,
        disable_notifications: false,
        output_filename: None,
        save_format: SaveFormat::Png,
        copy_command: None,
        capture: CaptureOptions {
            mode: CaptureMode::Region,
            delay_seconds: 0,
            include_cursor: false,
            snap_to_windows: true,
        },
        history_size: 3,
        crash_reports: false,
        window: WindowOptions {
            fullscreen: false,
            always_on_top: false,
            no_window_decoration: false,
        },
        daemon: DaemonConfig { enabled: false, tray: true, hotkeys: Vec::new() },
    }
}

#[test]
fn the_window_starts_closed_and_toggles() {
    let mut settings = SettingsWindow::new();
    assert!(!settings.open);
    settings.toggle();
    assert!(settings.open);
    settings.toggle();
    assert!(!settings.open);
}

#[test]
fn a_closed_window_reports_no_changes_without_a_context() {
    let settings = SettingsWindow::new();
    let mut history = History::new(3);
    let (after, changed) = settings.edit(config(), &mut history, Change::Theme(Theme::Dark));
    assert!(!changed);
    assert_eq!(format!("{after:?}"), format!("{:?}", config()));
}

fn edited(change: Change) -> Config {
    let mut settings = SettingsWindow::new();
    settings.toggle();
    let (after, changed) = settings.edit(config(), &mut History::new(3), change);
    assert!(changed);
    after
}

#[test]
fn an_edit_changes_its_setting_and_no_other() {
    let after = edited(Change::Theme(Theme::Dark));
    assert_eq!(after.theme, Theme::Dark);
    assert_eq!(format!("{:?}", Config { theme: Theme::System, ..after }), format!("{:?}", config()));
    let after = edited(Change::Delay(5));
    assert_eq!(after.capture.delay_seconds, 5);
    assert!(after.capture.snap_to_windows);
}

#[test]
fn a_field_with_only_space_in_it_is_unset() {
    assert_eq!(edited(Change::OutputFilename("  \t".to_owned())).output_filename, None);
    assert_eq!(
        edited(Change::OutputFilename(" a.png".to_owned())).output_filename.as_deref(),
        Some(" a.png")
    );
    assert_eq!(
        edited(Change::CopyCommand("wl-copy".to_owned())).copy_command.as_deref(),
        Some("wl-copy")
    );
}

fn entry(tag: u8) -> Entry {
    Entry { png: vec![tag; 1500], width: 1, height: 1, label: String::new() }
}

#[test]
fn lowering_the_history_size_releases_the_surplus_at_once() {
    let mut settings = SettingsWindow::new();
    settings.toggle();
    let mut history = History::new(3);
    for tag in 0..3u8 {
        history.push(entry(tag));
    }
    assert_eq!(held_label(&history), "3 of 3 kept, using 4 KB");
    let (after, _) = settings.edit(config(), &mut history, Change::HistorySize(1));
    assert_eq!(after.history_size, 1);
    assert_eq!(history.len(), 1);
    assert_eq!(history.get(0).unwrap().png[0], 2);
    assert_eq!(held_label(&history), "1 of 1 kept, using 1 KB");

    let (_, changed) = settings.edit(config(), &mut history, Change::ForgetCaptures);
    assert!(!changed);
    assert_eq!(held_label(&history), "0 of 1 kept, using 0 KB");
}

#[test]
fn values_beyond_the_sliders_are_held_back() {
    assert_eq!(edited(Change::Delay(31)).capture.delay_seconds, 30);
    assert_eq!(edited(Change::HistorySize(21)).history_size, 20);
    assert_eq!(edited(Change::InitialSize(2)).initial_size, 2);
}

#[test]
fn saving_the_settings_says_how_it_went() {
    let mut settings = SettingsWindow::new();
    settings.persisted(Ok("/c.toml"));
    assert_eq!(settings.status.as_deref(), Some("Saved to /c.toml"));
    settings.persisted(Err("denied"));
    assert_eq!(settings.status.as_deref(), Some("Could not save: denied"));
    settings.toggle();
    assert_eq!(settings.status, None);
}

#[test]
fn notifications_are_skipped_when_disabled() {
    assert_eq!(notify(true, "summary", "body"), None);
    assert_eq!(copied(true), None);
    assert_eq!(saved(true, "/tmp/example.png"), None);
}

#[test]
fn notifications_name_what_happened() {
    let n = notify(false, "summary", "body").unwrap();
    assert_eq!((n.summary.as_str(), n.body.as_str()), ("summary", "body"));
    let n = saved(false, "/tmp/example.png").unwrap();
    assert_eq!((n.summary.as_str(), n.body.as_str()), ("Screenshot saved", "/tmp/example.png"));
    let n = copied(false).unwrap();
    assert_eq!(n.summary, "Screenshot copied");
}

#[test]
fn a_value_that_is_set_already_is_no_change() {
    let mut settings = SettingsWindow::new();
    settings.toggle();
    let mut history = History::new(3);
    let before = config();
    for change in [
        Change::InitialTool(before.initial_tool),
        Change::OnEnter(before.action_on_enter),
        Change::OnEscape(before.action_on_escape),
        Change::Delay(before.capture.delay_seconds as u32),
        Change::HistorySize(before.history_size),
        Change::HideToolbars(before.hide_toolbars),
        Change::CopyCommand(String::new()),
    ] {
        let (after, changed) = settings.edit(config(), &mut history, change);
        assert!(!changed);
        assert_eq!(format!("{after:?}"), format!("{:?}", config()));
    }
    assert_eq!(history.capacity(), 3);
    // The label of the choice in use counts when it is pressed again.
    for change in [
        Change::Theme(before.theme),
        Change::InitialSize(before.initial_size),
        Change::Obscure(before.obscure),
        Change::Format(before.save_format),
        Change::Mode(before.capture.mode),
    ] {
        assert!(settings.edit(config(), &mut history, change).1);
    }
}
