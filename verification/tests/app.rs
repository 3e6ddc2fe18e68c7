use bettershot::app::{
    start, BettershotApp, Command, InputSource, Progress, Seen, Stage, Start, Theme, TrayState,
    WindowOptions,
};
use bettershot::capture::{Acquired, CaptureMode};
use bettershot::daemon::{Hotkeys, Trigger};
use bettershot::geometry::{Rect, Vec2D};
use bettershot::history::{Entry, History};
use bettershot::overlay::Selection;
use bettershot::picture::RgbaImage;

const OPTIONS: WindowOptions =
    WindowOptions { fullscreen: false, always_on_top: false, no_window_decoration: false };

fn image() -> RgbaImage {
    RgbaImage::from_pixel(64, 48, [1, 2, 3, 255]).unwrap()
}

fn acquired(needs_selection: bool, mode: CaptureMode) -> Acquired {
    Acquired {
        image: image(),
        monitors: Vec::new(),
        windows: Vec::new(),
        origin: Vec2D::new(0, 0),
        needs_selection,
        mode,
    }
}

fn no_hotkeys() -> Hotkeys {
    Hotkeys::register(&[], Ok(()), &[], &[], false)
}

/// A resident process that waits.
fn resident() -> BettershotApp {
    BettershotApp::idle(OPTIONS, &no_hotkeys(), TrayState::Up, None).unwrap().app
}

/// A process that does one capture, while it runs.
fn capturing() -> BettershotApp {
    let mut app = BettershotApp::editing(OPTIONS);
    app.stage = Stage::Capturing;
    app
}

#[test]
fn settings_from_the_tray_do_not_invent_a_blank_screenshot() {
    let mut app = BettershotApp::editing(OPTIONS);
    app.show_settings(&mut Vec::new());

    assert!(
        matches!(app.stage, Stage::Settings),
        "the tray's Settings entry must not open an editor over a fake capture"
    );
}

#[test]
fn the_capture_history_outlives_any_one_editor() {
    let app = BettershotApp::editing(OPTIONS);
    let mut history = History::new(5);
    history.push(Entry {
        png: vec![1, 2, 3],
        width: 10,
        height: 10,
        label: "earlier capture".to_owned(),
    });
    assert_eq!(history.len(), 1);

    drop(app);
    assert_eq!(history.len(), 1);
}

#[test]
fn a_file_capture_starts_in_the_editor_and_is_not_resident() {
    let app = BettershotApp::editing(OPTIONS);
    assert!(!app.starts_hidden());
    assert!(!app.starts_fullscreen());
    assert!(app.daemon.is_none());
}

#[test]
fn the_selection_overlay_starts_fullscreen_and_visible() {
    let app = BettershotApp::selecting(OPTIONS);
    assert!(app.starts_fullscreen());
    assert!(app.starts_on_top());
    assert!(!app.starts_hidden());
}

#[test]
fn a_daemon_with_no_way_to_be_triggered_refuses_to_start() {
    let error = BettershotApp::idle(OPTIONS, &no_hotkeys(), TrayState::Disabled, None)
        .err()
        .expect("a daemon nothing can drive must not start");
    assert!(error.contains("invisibly"), "{error}");
    assert!(
        error.contains("--capture region"),
        "the error should say what to do instead: {error}"
    );
}

#[test]
fn a_refused_daemon_says_why() {
    let mut hotkeys = no_hotkeys();
    hotkeys.failures.push("one".to_owned());
    let tray = TrayState::Unavailable("no bus".to_owned());
    let error = BettershotApp::idle(OPTIONS, &hotkeys, tray, None).unwrap_err();
    assert_eq!(
        error,
        "--daemon has nothing that could start a capture, so it would run invisibly forever. \
         one. the system tray is unavailable: no bus. \
         Bind your compositor to `bettershot --capture region` instead, or build with --features tray"
    );
}

#[test]
fn a_finished_capture_is_routed_by_whether_it_needs_selection() {
    let mut app = capturing();
    let commands = app.ui(None, Seen::Capture(Progress::Ready { needs_selection: true }));
    assert!(matches!(app.stage, Stage::Selecting));
    assert!(commands.contains(&Command::Fullscreen(true)));

    let mut app = capturing();
    let commands = app.ui(None, Seen::Capture(Progress::Ready { needs_selection: false }));
    assert!(matches!(app.stage, Stage::Editing));
    assert!(commands.contains(&Command::SizeToImage));
}

#[test]
fn a_failed_capture_does_not_leave_the_app_stuck_capturing() {
    let mut app = capturing();
    app.ui(None, Seen::Capture(Progress::Failed("no backend".to_owned())));
    assert!(matches!(app.stage, Stage::Done));
    assert!(app.finished);
}

#[test]
fn a_failed_capture_sends_a_daemon_back_to_waiting_and_is_reported_once() {
    let mut app = resident();
    app.ui(Some(Trigger::Capture(CaptureMode::All)), Seen::Nothing);
    assert_eq!(app.stage, Stage::Capturing);
    app.ui(None, Seen::Capture(Progress::Failed("no backend".to_owned())));
    assert_eq!(app.stage, Stage::Idle);
    assert!(!app.finished);
    app.stage = Stage::Editing;
    assert_eq!(app.report_warnings().as_deref(), Some("Capture failed: no backend"));
    assert_eq!(app.report_warnings(), None);
}

#[test]
fn a_capture_worker_that_dies_without_a_result_is_not_waited_on_forever() {
    let (tx, rx) = std::sync::mpsc::channel::<Result<Acquired, String>>();
    drop(tx);
    assert!(matches!(
        rx.try_recv(),
        Err(std::sync::mpsc::TryRecvError::Disconnected)
    ));
    let mut app = capturing();
    app.ui(None, Seen::Capture(Progress::Lost));
    assert!(app.finished);
}

#[test]
fn a_capture_that_needs_no_selection_goes_straight_to_the_editor() {
    let app = BettershotApp::stage_for(OPTIONS, &acquired(false, CaptureMode::Monitor));
    assert!(matches!(app.stage, Stage::Editing));
    assert!(!app.starts_fullscreen());
}

#[test]
fn a_region_capture_goes_to_the_overlay_first() {
    let app = BettershotApp::stage_for(OPTIONS, &acquired(true, CaptureMode::Region));
    assert!(matches!(app.stage, Stage::Selecting));
    assert!(app.starts_fullscreen());
}

#[test]
fn quitting_from_the_tray_works_in_every_stage() {
    for stage in [
        Stage::Idle,
        Stage::Capturing,
        Stage::Selecting,
        Stage::Editing,
        Stage::Settings,
        Stage::Done,
    ] {
        let mut app = resident();
        app.stage = stage;
        let commands = app.ui(Some(Trigger::Quit), Seen::Nothing);
        assert!(app.finished, "{stage:?}");
        assert_eq!(commands.last(), Some(&Command::Close), "{stage:?}");
    }
}

#[test]
fn a_hotkey_does_not_interrupt_a_window_that_is_open() {
    for stage in [Stage::Capturing, Stage::Selecting, Stage::Editing, Stage::Settings] {
        let mut app = resident();
        app.stage = stage;
        app.ui(Some(Trigger::Capture(CaptureMode::Region)), Seen::Nothing);
        assert_eq!(app.stage, stage);
    }
}

#[test]
fn the_window_hides_before_it_captures() {
    let mut app = resident();
    let commands = app.ui(Some(Trigger::Capture(CaptureMode::Region)), Seen::Nothing);
    assert_eq!(
        commands,
        [
            Command::WakeLater,
            Command::Visible(false),
            Command::StartCapture(CaptureMode::Region)
        ]
    );
}

#[test]
fn a_daemon_goes_back_to_waiting_after_each_window() {
    for (stage, seen) in [
        (Stage::Selecting, Seen::Overlay(Selection::Cancelled)),
        (Stage::Editing, Seen::EditorQuit),
        (Stage::Settings, Seen::SettingsClosed),
    ] {
        let mut app = resident();
        app.stage = stage;
        let commands = app.ui(None, seen);
        assert_eq!(app.stage, Stage::Idle);
        assert_eq!(commands, [Command::Visible(false), Command::Fullscreen(false)]);
    }
}

#[test]
fn a_confirmed_selection_opens_the_editor() {
    let mut app = BettershotApp::selecting(OPTIONS);
    app.options.no_window_decoration = true;
    let rect = Rect::from_xywh(0, 0, 10, 10);
    let commands = app.ui(None, Seen::Overlay(Selection::Confirmed(rect)));
    assert_eq!(app.stage, Stage::Editing);
    assert!(commands.contains(&Command::Decorations(false)));
    let commands = app.ui(None, Seen::EditorQuit);
    assert_eq!(commands, [Command::Close]);
}

#[test]
fn a_theme_is_applied_when_it_changes() {
    let mut app = BettershotApp::editing(OPTIONS);
    assert_eq!(app.apply_theme(Theme::Dark), Some(Theme::Dark));
    assert_eq!(app.apply_theme(Theme::Dark), None);
    assert_eq!(app.apply_theme(Theme::Light), Some(Theme::Light));
}

#[test]
fn daemon_mode_outranks_everything() {
    assert_eq!(start(true, InputSource::Stdin), Start::Resident);
    assert_eq!(start(false, InputSource::Stdin), Start::Once(InputSource::Stdin));
}

#[test]
fn edited_hotkeys_are_announced_again() {
    let mut app = resident();
    let mut hotkeys = no_hotkeys();
    let (title, body) = app.rebind_hotkeys(&hotkeys).unwrap();
    assert_eq!((title, body.as_str()), ("Hotkeys updated", "No global hotkey is active."));
    hotkeys.failures.push("no".to_owned());
    assert_eq!(app.rebind_hotkeys(&hotkeys).unwrap().0, "A hotkey could not be registered");
    assert!(BettershotApp::editing(OPTIONS).rebind_hotkeys(&hotkeys).is_none());
}

#[test]
fn a_daemon_with_problems_names_its_config_file() {
    let tray = TrayState::Unavailable("no bus".to_owned());
    let mut hotkeys = no_hotkeys();
    hotkeys.bindings.insert(1, CaptureMode::All);
    let started = BettershotApp::idle(OPTIONS, &hotkeys, tray, Some("/c.toml")).unwrap();
    assert!(started.body.ends_with("\n\nConfig file: /c.toml"), "{}", started.body);
    assert!(started.app.starts_hidden());
}
