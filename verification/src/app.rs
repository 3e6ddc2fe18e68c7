//! The top-level state machine of the application.
//!
//! Capture, selection and annotation all share one window and one event loop, so
//! choosing a region is a *stage* of the application rather than a program of
//! its own, and staying resident for a hotkey is another one.
//!
//! ```text
//!            ┌──────────────► Idle ◄───────────┐   (daemon mode only)
//!            │                 │               │
//!  --daemon ─┘        hotkey / tray            │ editor finishes
//!                              ▼               │
//!  --capture region ──► Selecting ──► Editing ─┘
//!                                       ▲
//!  --filename / stdin ──────────────────┘
//! ```
//!
//! The caller runs the event loop. Once per frame it drains the hotkeys and the
//! tray, draws the current stage, and hands over what came of it; it gets back
//! what to do to the window.

use crate::capture::{Acquired, CaptureMode};
use crate::daemon::{Hotkeys, Trigger};
use crate::overlay::Selection;
use crate::text::joined;
use vstd::prelude::*;
use vstd::string::*;

verus! {

/// How often the hidden window wakes to look for a hotkey, in milliseconds.
/// Frequent enough that a keypress feels instant, rare enough to stay off the
/// processor.
pub const IDLE_POLL_MILLIS: u64 = 80;

/// The look of the user interface.
#[derive(Debug, Clone, Copy, PartialEq, Eq, Structural)]
pub enum Theme {
    /// Whatever the desktop uses.
    System,
    /// Dark text on a light ground.
    Light,
    /// Light text on a dark ground.
    Dark,
}

/// What the application is doing.
#[derive(Debug, Clone, Copy, PartialEq, Eq, Structural)]
pub enum Stage {
    /// Resident and hidden, waiting for a hotkey or a tray click.
    Idle,
    /// A capture is running beside the event loop.
    Capturing,
    /// Choosing a region from the frozen frame.
    Selecting,
    /// Annotating.
    Editing,
    /// Showing settings on their own, with no capture behind them.
    Settings,
    /// Finished; the window should close.
    Done,
}

/// Something to do to the window, or to start.
#[derive(Debug, Clone, Copy, PartialEq, Eq, Structural)]
pub enum Command {
    /// Show or hide the window.
    Visible(bool),
    /// Cover the screen, or do not.
    Fullscreen(bool),
    /// Draw a title bar and borders, or do not.
    Decorations(bool),
    /// Size the window to the image that is annotated.
    SizeToImage,
    /// Size the window to the settings.
    SizeToSettings,
    /// Title the window as the application.
    ApplicationTitle,
    /// Title the window as the settings.
    SettingsTitle,
    /// Take the keyboard.
    Focus,
    /// Close the window.
    Close,
    /// Wake up again after [`IDLE_POLL_MILLIS`].
    WakeLater,
    /// Start a capture.
    StartCapture(CaptureMode),
}

/// How a running capture is getting on.
#[derive(Debug)]
pub enum Progress {
    /// Still working.
    Working,
    /// It stopped without a result, which is never coming.
    Lost,
    /// It failed, for this reason.
    Failed(String),
    /// It finished, and the user may still have to choose from it.
    Ready {
        /// Whether a region or a window is still to be chosen.
        needs_selection: bool,
    },
}

/// What came of drawing the current stage.
#[derive(Debug)]
pub enum Seen {
    /// Nothing to report.
    Nothing,
    /// How the capture is getting on.
    Capture(Progress),
    /// What the user did with the overlay.
    Overlay(Selection),
    /// The editor is done.
    EditorQuit,
    /// The settings window was closed.
    SettingsClosed,
}

/// What only a resident process has.
#[derive(Debug)]
pub struct Daemon {
    /// Reported once, the first time that a window is visible.
    pub warnings: Vec<String>,
    /// The warnings have been reported.
    pub warned: bool,
}

/// The state that decides what happens next.
pub struct State {
    /// What the application is doing.
    pub stage: Stage,
    /// The process should exit.
    pub finished: bool,
    /// The process stays after a capture.
    pub resident: bool,
}

/// Showing the editor: the overlay ran borderless and full-screen, and the
/// editor wants an ordinary window sized to the capture.
pub open spec fn editor_window(undecorated: bool) -> Seq<Command> {
    seq![
        Command::Fullscreen(false),
        Command::Decorations(!undecorated),
        Command::SizeToImage,
        Command::ApplicationTitle,
        Command::Visible(true),
        Command::Focus,
    ]
}

/// Showing the overlay over the whole screen.
pub open spec fn overlay_window() -> Seq<Command> {
    seq![
        Command::Decorations(false),
        Command::Fullscreen(true),
        Command::Visible(true),
        Command::Focus,
    ]
}

/// Showing the settings on their own.
pub open spec fn settings_window() -> Seq<Command> {
    seq![
        Command::Fullscreen(false),
        Command::Decorations(true),
        Command::SizeToSettings,
        Command::SettingsTitle,
        Command::Visible(true),
        Command::Focus,
    ]
}

/// A capture is over: a resident process hides and waits for the next one, and
/// any other ends.
pub open spec fn over(s: State) -> (State, Seq<Command>) {
    if s.resident {
        (
            State { stage: Stage::Idle, ..s },
            seq![Command::Visible(false), Command::Fullscreen(false)],
        )
    } else {
        (State { stage: Stage::Done, finished: true, ..s }, seq![])
    }
}

/// A capture finished.
pub open spec fn captured(s: State, needs_selection: bool, undecorated: bool) -> (
    State,
    Seq<Command>,
) {
    if needs_selection {
        (State { stage: Stage::Selecting, ..s }, overlay_window())
    } else {
        (State { stage: Stage::Editing, ..s }, editor_window(undecorated))
    }
}

/// The process ends.
pub open spec fn ended(s: State) -> State {
    State { stage: Stage::Done, finished: true, ..s }
}

/// What becomes of the current stage, whatever has been asked for meanwhile.
pub open spec fn went_on(s: State, seen: Seen, undecorated: bool) -> (State, Seq<Command>) {
    match (s.stage, seen) {
        (Stage::Idle, _) => (s, seq![Command::WakeLater]),
        (Stage::Capturing, Seen::Capture(Progress::Ready { needs_selection })) => captured(
            s,
            needs_selection,
            undecorated,
        ),
        (Stage::Capturing, Seen::Capture(Progress::Lost)) => over(s),
        (Stage::Capturing, Seen::Capture(Progress::Failed(_))) => over(s),
        (Stage::Capturing, _) => (s, seq![Command::WakeLater]),
        (Stage::Selecting, Seen::Overlay(Selection::Confirmed(_))) => (
            State { stage: Stage::Editing, ..s },
            editor_window(undecorated),
        ),
        (Stage::Selecting, Seen::Overlay(Selection::Cancelled)) => over(s),
        (Stage::Editing, Seen::EditorQuit) => over(s),
        (Stage::Settings, Seen::SettingsClosed) => over(s),
        (Stage::Done, _) => (ended(s), seq![]),
        _ => (s, seq![]),
    }
}

/// What acting on a trigger while idle comes to. The window hides before a
/// capture starts: it must never appear in its own screenshot.
pub open spec fn acted(s: State, trigger: Option<Trigger>) -> (State, Seq<Command>) {
    match trigger {
        Some(Trigger::Capture(mode)) => (
            State { stage: Stage::Capturing, ..s },
            seq![Command::Visible(false), Command::StartCapture(mode)],
        ),
        Some(Trigger::Settings) => (State { stage: Stage::Settings, ..s }, settings_window()),
        Some(Trigger::Quit) => (ended(s), seq![]),
        None => (s, seq![]),
    }
}

/// The stages whose window is not even drawn once more when the user quits.
pub open spec fn ends_undrawn(stage: Stage) -> bool {
    stage == Stage::Selecting || stage == Stage::Editing || stage == Stage::Settings
}

/// What one frame does, before the window is closed.
pub open spec fn advanced(
    s: State,
    trigger: Option<Trigger>,
    seen: Seen,
    undecorated: bool,
) -> (State, Seq<Command>) {
    if ends_undrawn(s.stage) && trigger == Some(Trigger::Quit) {
        (ended(s), seq![])
    } else {
        let (after, done) = went_on(s, seen, undecorated);
        if s.stage == Stage::Idle {
            let (last, more) = acted(after, trigger);
            (last, done + more)
        } else if s.stage == Stage::Capturing && trigger == Some(Trigger::Quit) {
            (ended(after), done)
        } else {
            (after, done)
        }
    }
}

/// What one frame does: the next state, and what to do to the window.
pub open spec fn next(s: State, trigger: Option<Trigger>, seen: Seen, undecorated: bool) -> (
    State,
    Seq<Command>,
) {
    let (after, done) = advanced(s, trigger, seen, undecorated);
    (
        after,
        if after.finished {
            done.push(Command::Close)
        } else {
            done
        },
    )
}

/// The texts, with `; ` between them.
pub open spec fn semicolon_joined(texts: Seq<Seq<char>>) -> Seq<char>
    decreases texts.len(),
{
    if texts.len() == 0 {
        seq![]
    } else if texts.len() == 1 {
        texts[0]
    } else {
        semicolon_joined(texts.drop_last()) + "; "@ + texts.last()
    }
}

/// The texts, each followed by a full stop.
pub open spec fn sentences(texts: Seq<Seq<char>>) -> Seq<char>
    decreases texts.len(),
{
    if texts.len() == 0 {
        seq![]
    } else {
        sentences(texts.drop_last()) + texts.last() + ". "@
    }
}

fn join_with_semicolons(strings: &Vec<String>) -> (text: String)
    ensures
        text@ == semicolon_joined(crate::daemon::texts(strings@)),
{
    let ghost all = crate::daemon::texts(strings@);
    let mut text = String::new();
    let mut i: usize = 0;
    assert(text@ =~= seq![]);
    while i < strings.len()
        invariant
            i <= strings@.len(),
            all == crate::daemon::texts(strings@),
            text@ == semicolon_joined(all.take(i as int)),
        decreases strings@.len() - i,
    {
        let ghost part = all.take(i + 1);
        assert(part.drop_last() =~= all.take(i as int));
        assert(part.last() == all[i as int]);
        if i > 0 {
            text.append("; ");
        }
        text.append(strings[i].as_str());
        assert(text@ =~= semicolon_joined(part));
        i = i + 1;
    }
    assert(all.take(i as int) =~= all);
    text
}

fn append_sentences(text: &mut String, strings: &Vec<String>)
    ensures
        final(text)@ == old(text)@ + sentences(crate::daemon::texts(strings@)),
{
    let ghost start = text@;
    let ghost all = crate::daemon::texts(strings@);
    let mut i: usize = 0;
    assert(text@ =~= start + sentences(all.take(0)));
    while i < strings.len()
        invariant
            i <= strings@.len(),
            all == crate::daemon::texts(strings@),
            text@ == start + sentences(all.take(i as int)),
        decreases strings@.len() - i,
    {
        let ghost part = all.take(i + 1);
        assert(part.drop_last() =~= all.take(i as int));
        assert(part.last() == all[i as int]);
        text.append(strings[i].as_str());
        text.append(". ");
        assert(text@ =~= start + sentences(part));
        i = i + 1;
    }
    assert(all.take(i as int) =~= all);
}

fn copied(strings: &[String]) -> (copy: Vec<String>)
    ensures
        crate::daemon::texts(copy@) == crate::daemon::texts(strings@),
{
    let mut copy: Vec<String> = Vec::new();
    let mut i: usize = 0;
    while i < strings.len()
        invariant
            i <= strings@.len(),
            copy@.len() == i,
            forall|j: int| 0 <= j < i ==> (#[trigger] copy@[j])@ == strings@[j]@,
        decreases strings@.len() - i,
    {
        copy.push(strings[i].as_str().to_owned());
        i = i + 1;
    }
    assert(crate::daemon::texts(copy@) =~= crate::daemon::texts(strings@));
    copy
}

/// What the configuration says about the window.
#[derive(Debug, Clone, Copy, PartialEq, Eq, Structural)]
pub struct WindowOptions {
    /// The editor covers the screen.
    pub fullscreen: bool,
    /// The window stays above others.
    pub always_on_top: bool,
    /// The editor has no title bar.
    pub no_window_decoration: bool,
}

/// Where the image to annotate comes from.
#[derive(Debug, PartialEq, Eq)]
pub enum InputSource {
    /// An image file.
    File(String),
    /// An image on standard input.
    Stdin,
    /// The screen.
    Capture(CaptureMode),
}

/// What the process starts as.
#[derive(Debug, PartialEq, Eq)]
pub enum Start {
    /// Resident and waiting.
    Resident,
    /// Doing one thing.
    Once(InputSource),
}

/// What the process starts as. Daemon mode outranks everything: it is a request
/// to stay running, not to do one thing and exit.
pub fn start(daemon: bool, source: InputSource) -> (start: Start)
    ensures
        start == (if daemon {
            Start::Resident
        } else {
            Start::Once(source)
        }),
{
    if daemon {
        Start::Resident
    } else {
        Start::Once(source)
    }
}

/// What became of the system tray.
#[derive(Debug)]
pub enum TrayState {
    /// It is not wanted.
    Disabled,
    /// Its icon is up.
    Up,
    /// It is wanted, and not to be had.
    Unavailable(String),
}

/// Why nothing could start a capture, or what to tell the user: the warnings of
/// a daemon that starts.
pub open spec fn start_warnings(failures: Seq<Seq<char>>, tray: TrayState) -> Seq<Seq<char>> {
    match tray {
        TrayState::Unavailable(e) => failures.push("the system tray is unavailable: "@ + e@),
        _ => failures,
    }
}

/// What a daemon that nothing could drive says instead of starting.
pub open spec fn refusal(warnings: Seq<Seq<char>>) -> Seq<char> {
    "--daemon has nothing that could start a capture, so it would run invisibly forever. "@
        + sentences(warnings)
        + "Bind your compositor to `bettershot --capture region` instead, or build with --features tray"@
}

/// A daemon that starts, and what to tell the user.
#[derive(Debug)]
pub struct Started {
    /// The application, idle.
    pub app: BettershotApp,
    /// The headline of the announcement.
    pub title: String,
    /// The text of the announcement.
    pub body: String,
}

/// The application.
#[derive(Debug)]
pub struct BettershotApp {
    /// What it is doing.
    pub stage: Stage,
    /// The process should exit.
    pub finished: bool,
    /// The theme that is applied. It is compared each frame, so that a change
    /// in the settings takes effect.
    pub applied_theme: Option<Theme>,
    /// What the configuration says about the window.
    pub options: WindowOptions,
    /// Present only in daemon mode.
    pub daemon: Option<Daemon>,
}

impl BettershotApp {
    /// The state that decides what happens next.
    pub open spec fn state(self) -> State {
        State { stage: self.stage, finished: self.finished, resident: self.daemon is Some }
    }

    /// The texts of the warnings that a resident process holds.
    pub open spec fn warnings(self) -> Seq<Seq<char>> {
        match self.daemon {
            Some(d) => crate::daemon::texts(d.warnings@),
            None => seq![],
        }
    }

    /// The warnings are still to be reported.
    pub open spec fn unreported(self) -> bool {
        self.daemon matches Some(d) && !d.warned && d.warnings@.len() > 0
    }

    /// It does one thing and starts with it.
    pub open spec fn fresh(self, stage: Stage, options: WindowOptions) -> bool {
        &&& self.stage == stage
        &&& !self.finished
        &&& self.applied_theme is None
        &&& self.options == options
        &&& self.daemon is None
    }

    fn with_stage(stage: Stage, options: WindowOptions) -> (app: BettershotApp)
        ensures
            app.fresh(stage, options),
    {
        BettershotApp { stage, finished: false, applied_theme: None, options, daemon: None }
    }

    /// Start straight in the editor, for a file, standard input, or a capture
    /// that needs no selection.
    pub fn editing(options: WindowOptions) -> (app: BettershotApp)
        ensures
            app.fresh(Stage::Editing, options),
    {
        BettershotApp::with_stage(Stage::Editing, options)
    }

    /// Start with the region-selection overlay.
    pub fn selecting(options: WindowOptions) -> (app: BettershotApp)
        ensures
            app.fresh(Stage::Selecting, options),
    {
        BettershotApp::with_stage(Stage::Selecting, options)
    }

    /// Start with a capture that has already been taken.
    pub fn stage_for(options: WindowOptions, acquired: &Acquired) -> (app: BettershotApp)
        ensures
            app.fresh(
                if acquired.needs_selection {
                    Stage::Selecting
                } else {
                    Stage::Editing
                },
                options,
            ),
    {
        if acquired.needs_selection {
            BettershotApp::selecting(options)
        } else {
            BettershotApp::editing(options)
        }
    }

    /// Start resident and hidden, driven by hotkeys and the tray.
    ///
    /// Fails when nothing could drive it. Staying up in that state would be a
    /// hidden window waking forever, with no way to start a capture and no way
    /// to quit, so it has to be an error that the user sees.
    pub fn idle(
        options: WindowOptions,
        hotkeys: &Hotkeys,
        tray: TrayState,
        config_path: Option<&str>,
    ) -> (result: Result<Started, String>)
        ensures
            ({
                let warnings = start_warnings(
                    crate::daemon::texts(hotkeys.failures@),
                    tray,
                );
                match result {
                    Ok(started) => {
                        &&& hotkeys.bindings@.len() > 0 || tray is Up
                        &&& started.app.stage == Stage::Idle
                        &&& !started.app.finished
                        &&& started.app.applied_theme is None
                        &&& started.app.options == options
                        &&& started.app.daemon matches Some(d) && !d.warned
                        &&& started.app.warnings() == warnings
                        &&& started.title@ == (if hotkeys.failures@.len() == 0 {
                            "bettershot is running"@
                        } else {
                            "bettershot is running, but a hotkey did not register"@
                        })
                        &&& started.body@ == crate::daemon::announced(
                            crate::daemon::named_modes(hotkeys.working@),
                            crate::daemon::texts(hotkeys.failures@),
                        ) + (match config_path {
                            Some(path) if warnings.len() > 0 => "\n\nConfig file: "@ + path@,
                            _ => seq![],
                        })
                    },
                    Err(message) => {
                        &&& hotkeys.bindings@.len() == 0 && !(tray is Up)
                        &&& message@ == refusal(warnings)
                    },
                }
            }),
    {
        let mut warnings = copied(hotkeys.failures());
        let ghost failures = crate::daemon::texts(warnings@);
        let up = match &tray {
            TrayState::Up => true,
            TrayState::Disabled => false,
            TrayState::Unavailable(e) => {
                warnings.push(joined("the system tray is unavailable: ", e.as_str()));
                assert(crate::daemon::texts(warnings@) =~= failures.push(
                    "the system tray is unavailable: "@ + e@,
                ));
                false
            },
        };
        if !hotkeys.is_active() && !up {
            let mut message =
                "--daemon has nothing that could start a capture, so it would run invisibly forever. ".to_owned();
            append_sentences(&mut message, &warnings);
            message.append(
                "Bind your compositor to `bettershot --capture region` instead, or build with --features tray",
            );
            return Err(message);
        }
        let (title, body) = hotkeys.announcement();
        let mut body = body;
        let ghost said = body@;
        match config_path {
            Some(path) => {
                if warnings.len() > 0 {
                    body.append("\n\nConfig file: ");
                    body.append(path);
                    assert(body@ =~= said + ("\n\nConfig file: "@ + path@));
                } else {
                    assert(said =~= said + seq![]);
                }
            },
            None => {
                assert(said =~= said + seq![]);
            },
        }
        let mut app = BettershotApp::with_stage(Stage::Idle, options);
        app.daemon = Some(Daemon { warnings, warned: false });
        Ok(Started { app, title, body })
    }

    /// Does the window start covering the screen? The overlay has to; the editor
    /// opens as an ordinary window unless it is configured otherwise.
    pub fn starts_fullscreen(&self) -> (yes: bool)
        ensures
            yes == (self.stage == Stage::Selecting || self.options.fullscreen),
    {
        self.stage == Stage::Selecting || self.options.fullscreen
    }

    /// Does the window start above other windows? The overlay does regardless of
    /// the setting: anything floating over it would cover the very region that
    /// the user is trying to drag out.
    pub fn starts_on_top(&self) -> (yes: bool)
        ensures
            yes == (self.stage == Stage::Selecting || self.options.always_on_top),
    {
        self.stage == Stage::Selecting || self.options.always_on_top
    }

    /// Does the process start with no visible window?
    pub fn starts_hidden(&self) -> (yes: bool)
        ensures
            yes == (self.stage == Stage::Idle),
    {
        self.stage == Stage::Idle
    }

    /// The theme to apply, when it is not the one that is applied already.
    pub fn apply_theme(&mut self, wanted: Theme) -> (change: Option<Theme>)
        ensures
            change == (if old(self).applied_theme == Some(wanted) {
                None::<Theme>
            } else {
                Some(wanted)
            }),
            final(self).applied_theme == Some(wanted),
            final(self).state() == old(self).state(),
            final(self).options == old(self).options,
            final(self).daemon == old(self).daemon,
    {
        let same = match self.applied_theme {
            Some(applied) => applied == wanted,
            None => false,
        };
        self.applied_theme = Some(wanted);
        if same {
            None
        } else {
            Some(wanted)
        }
    }

    /// Nothing but the stage, and whether the process is finished, differs.
    pub open spec fn same_setup(self, other: BettershotApp) -> bool {
        &&& self.applied_theme == other.applied_theme
        &&& self.options == other.options
    }

    /// A capture is over. In daemon mode go back to waiting; otherwise exit.
    fn finish_or_idle(&mut self, commands: &mut Vec<Command>)
        ensures
            final(self).state() == over(old(self).state()).0,
            final(self).same_setup(*old(self)),
            final(self).daemon == old(self).daemon,
            final(commands)@ == old(commands)@ + over(old(self).state()).1,
    {
        if self.daemon.is_some() {
            commands.push(Command::Visible(false));
            commands.push(Command::Fullscreen(false));
            self.stage = Stage::Idle;
        } else {
            self.stage = Stage::Done;
            self.finished = true;
        }
        assert(commands@ =~= old(commands)@ + over(old(self).state()).1);
    }

    fn show_editor(&mut self, commands: &mut Vec<Command>)
        ensures
            final(self).stage == Stage::Editing,
            final(self).finished == old(self).finished,
            final(self).same_setup(*old(self)),
            final(self).daemon == old(self).daemon,
            final(commands)@ == old(commands)@ + editor_window(
                old(self).options.no_window_decoration,
            ),
    {
        commands.push(Command::Fullscreen(false));
        commands.push(Command::Decorations(!self.options.no_window_decoration));
        commands.push(Command::SizeToImage);
        commands.push(Command::ApplicationTitle);
        commands.push(Command::Visible(true));
        commands.push(Command::Focus);
        self.stage = Stage::Editing;
        assert(commands@ =~= old(commands)@ + editor_window(
            old(self).options.no_window_decoration,
        ));
    }

    /// The warnings once a capture's progress has been taken in: a failure is
    /// one of them.
    pub open spec fn warnings_after(self, progress: Progress) -> Seq<Seq<char>> {
        match progress {
            Progress::Failed(e) if self.daemon is Some => self.warnings().push(
                "Capture failed: "@ + e@,
            ),
            _ => self.warnings(),
        }
    }

    /// Hand a capture's progress to the right stage.
    fn finish_capture(&mut self, progress: Progress, commands: &mut Vec<Command>)
        requires
            old(self).stage == Stage::Capturing,
        ensures
            ({
                let (after, done) = went_on(
                    old(self).state(),
                    Seen::Capture(progress),
                    old(self).options.no_window_decoration,
                );
                final(self).state() == after && final(commands)@ == old(commands)@ + done
            }),
            final(self).same_setup(*old(self)),
            final(self).warnings() == old(self).warnings_after(progress),
            final(self).daemon matches Some(d) ==> d.warned == (old(self).daemon->Some_0.warned && !(
            progress is Failed)),
    {
        match progress {
            Progress::Working => {
                commands.push(Command::WakeLater);
                assert(commands@ =~= old(commands)@ + seq![Command::WakeLater]);
            },
            Progress::Lost => self.finish_or_idle(commands),
            Progress::Failed(e) => {
                let mut daemon: Option<Daemon> = None;
                std::mem::swap(&mut daemon, &mut self.daemon);
                match daemon {
                    Some(d) => {
                        let mut warnings = d.warnings;
                        let ghost before = crate::daemon::texts(warnings@);
                        warnings.push(joined("Capture failed: ", e.as_str()));
                        assert(crate::daemon::texts(warnings@) =~= before.push(
                            "Capture failed: "@ + e@,
                        ));
                        self.daemon = Some(Daemon { warnings, warned: false });
                    },
                    None => {},
                }
                self.finish_or_idle(commands);
            },
            Progress::Ready { needs_selection } => {
                if needs_selection {
                    commands.push(Command::Decorations(false));
                    commands.push(Command::Fullscreen(true));
                    commands.push(Command::Visible(true));
                    commands.push(Command::Focus);
                    self.stage = Stage::Selecting;
                    assert(commands@ =~= old(commands)@ + overlay_window());
                } else {
                    self.show_editor(commands);
                }
            },
        }
    }

    /// Show the settings window on its own.
    pub fn show_settings(&mut self, commands: &mut Vec<Command>)
        ensures
            final(self).stage == Stage::Settings,
            final(self).finished == old(self).finished,
            final(self).same_setup(*old(self)),
            final(self).daemon == old(self).daemon,
            final(commands)@ == old(commands)@ + settings_window(),
    {
        commands.push(Command::Fullscreen(false));
        commands.push(Command::Decorations(true));
        commands.push(Command::SizeToSettings);
        commands.push(Command::SettingsTitle);
        commands.push(Command::Visible(true));
        commands.push(Command::Focus);
        self.stage = Stage::Settings;
        assert(commands@ =~= old(commands)@ + settings_window());
    }

    /// Act on a trigger while idle.
    fn act_on(&mut self, trigger: Option<Trigger>, commands: &mut Vec<Command>)
        ensures
            ({
                let (after, done) = acted(old(self).state(), trigger);
                final(self).state() == after && final(commands)@ == old(commands)@ + done
            }),
            final(self).same_setup(*old(self)),
            final(self).daemon == old(self).daemon,
    {
        match trigger {
            Some(Trigger::Capture(mode)) => {
                commands.push(Command::Visible(false));
                commands.push(Command::StartCapture(mode));
                self.stage = Stage::Capturing;
            },
            Some(Trigger::Settings) => self.show_settings(commands),
            Some(Trigger::Quit) => {
                self.stage = Stage::Done;
                self.finished = true;
            },
            None => {},
        }
        assert(commands@ =~= old(commands)@ + acted(old(self).state(), trigger).1);
    }

    /// Will the process end without drawing the current stage once more?
    pub fn ends_now(&self, trigger: Option<Trigger>) -> (yes: bool)
        ensures
            yes == (ends_undrawn(self.stage) && trigger == Some(Trigger::Quit)),
    {
        let quits = matches!(trigger, Some(Trigger::Quit));
        let open = match self.stage {
            Stage::Selecting | Stage::Editing | Stage::Settings => true,
            _ => false,
        };
        open && quits
    }

    /// One frame: take in what was asked for and what came of drawing the
    /// current stage, and say what to do to the window.
    ///
    /// A trigger is ignored unless the process is idle, except for quitting,
    /// which works from anywhere: otherwise the tray's Quit would do nothing
    /// while a window is open.
    pub fn ui(&mut self, trigger: Option<Trigger>, seen: Seen) -> (commands: Vec<Command>)
        ensures
            ({
                let (after, done) = next(
                    old(self).state(),
                    trigger,
                    seen,
                    old(self).options.no_window_decoration,
                );
                final(self).state() == after && commands@ == done
            }),
            final(self).same_setup(*old(self)),
            match seen {
                Seen::Capture(progress) if old(self).stage == Stage::Capturing => {
                    &&& final(self).warnings() == old(self).warnings_after(progress)
                    &&& final(self).daemon matches Some(d) ==> d.warned == (
                    old(self).daemon->Some_0.warned && !(progress is Failed))
                },
                _ => final(self).daemon == old(self).daemon,
            },
    {
        let mut commands: Vec<Command> = Vec::new();
        let quits = matches!(trigger, Some(Trigger::Quit));
        let ghost before = self.state();
        let ghost undecorated = self.options.no_window_decoration;
        if self.ends_now(trigger) {
            self.stage = Stage::Done;
            self.finished = true;
        } else {
            match self.stage {
                Stage::Idle => {
                    commands.push(Command::WakeLater);
                    self.act_on(trigger, &mut commands);
                    assert(commands@ =~= seq![Command::WakeLater] + acted(before, trigger).1);
                },
                Stage::Capturing => {
                    match seen {
                        Seen::Capture(progress) => self.finish_capture(progress, &mut commands),
                        _ => {
                            commands.push(Command::WakeLater);
                        },
                    }
                    if quits {
                        self.stage = Stage::Done;
                        self.finished = true;
                    }
                    assert(commands@ =~= went_on(before, seen, undecorated).1);
                },
                Stage::Selecting => {
                    match seen {
                        Seen::Overlay(Selection::Confirmed(_)) => self.show_editor(&mut commands),
                        Seen::Overlay(Selection::Cancelled) => self.finish_or_idle(&mut commands),
                        _ => {},
                    }
                    assert(commands@ =~= went_on(before, seen, undecorated).1);
                },
                Stage::Editing => {
                    match seen {
                        Seen::EditorQuit => self.finish_or_idle(&mut commands),
                        _ => {},
                    }
                    assert(commands@ =~= went_on(before, seen, undecorated).1);
                },
                Stage::Settings => {
                    match seen {
                        Seen::SettingsClosed => self.finish_or_idle(&mut commands),
                        _ => {},
                    }
                    assert(commands@ =~= went_on(before, seen, undecorated).1);
                },
                Stage::Done => {
                    self.finished = true;
                },
            }
        }
        assert(commands@ =~= advanced(before, trigger, seen, undecorated).1);
        if self.finished {
            commands.push(Command::Close);
        }
        commands
    }

    /// The warnings to show, once, in the editor's status line.
    pub fn report_warnings(&mut self) -> (status: Option<String>)
        ensures
            match status {
                Some(text) => old(self).unreported() && old(self).stage == Stage::Editing && text@
                    == semicolon_joined(old(self).warnings()),
                None => !old(self).unreported() || old(self).stage != Stage::Editing,
            },
            final(self).state() == old(self).state(),
            final(self).same_setup(*old(self)),
            final(self).warnings() == old(self).warnings(),
            !final(self).unreported(),
    {
        let mut daemon: Option<Daemon> = None;
        std::mem::swap(&mut daemon, &mut self.daemon);
        match daemon {
            None => None,
            Some(d) => {
                if d.warned || d.warnings.len() == 0 {
                    self.daemon = Some(d);
                    return None;
                }
                let message = join_with_semicolons(&d.warnings);
                self.daemon = Some(Daemon { warnings: d.warnings, warned: true });
                if self.stage == Stage::Editing {
                    Some(message)
                } else {
                    None
                }
            },
        }
    }

    /// Take in hotkeys that were registered again because the user edited them,
    /// and say what to tell: "did that key take?" is exactly as invisible here
    /// as at launch. A process that is not resident has nothing to take in.
    pub fn rebind_hotkeys(&mut self, hotkeys: &Hotkeys) -> (notice: Option<(&'static str, String)>)
        ensures
            final(self).state() == old(self).state(),
            final(self).same_setup(*old(self)),
            match notice {
                None => old(self).daemon is None && final(self).daemon is None,
                Some((title, body)) => {
                    &&& old(self).daemon is Some
                    &&& final(self).warnings() == crate::daemon::texts(hotkeys.failures@)
                    &&& final(self).daemon matches Some(d) && !d.warned
                    &&& title@ == (if hotkeys.failures@.len() == 0 {
                        "Hotkeys updated"@
                    } else {
                        "A hotkey could not be registered"@
                    })
                    &&& body@ == crate::daemon::announced(
                        crate::daemon::named_modes(hotkeys.working@),
                        crate::daemon::texts(hotkeys.failures@),
                    )
                },
            },
    {
        if self.daemon.is_none() {
            return None;
        }
        let (_, body) = hotkeys.announcement();
        let warnings = copied(hotkeys.failures());
        let title = if hotkeys.failures.len() == 0 {
            "Hotkeys updated"
        } else {
            "A hotkey could not be registered"
        };
        self.daemon = Some(Daemon { warnings, warned: false });
        Some((title, body))
    }
}

/// Quitting works from anywhere: whatever the process is doing, it is finished
/// and its window closes.
pub proof fn law_quitting_works_from_anywhere(s: State, seen: Seen, undecorated: bool)
    ensures
        next(s, Some(Trigger::Quit), seen, undecorated).0 == ended(s),
        next(s, Some(Trigger::Quit), seen, undecorated).1.last() == Command::Close,
{
}

/// Outside the idle stage, a trigger other than quitting changes nothing.
pub proof fn law_other_triggers_count_only_when_idle(
    s: State,
    trigger: Option<Trigger>,
    seen: Seen,
    undecorated: bool,
)
    requires
        s.stage != Stage::Idle,
        trigger != Some(Trigger::Quit),
    ensures
        next(s, trigger, seen, undecorated) == next(s, None, seen, undecorated),
{
}

/// A capture that failed or was lost is never waited on: a resident process goes
/// back to waiting for the next one, and any other ends.
pub proof fn law_a_failed_capture_is_not_waited_on(
    s: State,
    trigger: Option<Trigger>,
    progress: Progress,
    undecorated: bool,
)
    requires
        s.stage == Stage::Capturing,
        progress is Failed || progress is Lost,
    ensures
        ({
            let after = next(s, trigger, Seen::Capture(progress), undecorated).0;
            if s.resident && trigger != Some(Trigger::Quit) {
                after.stage == Stage::Idle && after.finished == s.finished
            } else {
                after == ended(s)
            }
        }),
{
}

/// A resident process ends only when it is asked to.
pub proof fn law_a_resident_process_stays(
    s: State,
    trigger: Option<Trigger>,
    seen: Seen,
    undecorated: bool,
)
    requires
        s.resident,
        !s.finished,
        s.stage != Stage::Done,
        trigger != Some(Trigger::Quit),
    ensures
        ({
            let (after, done) = next(s, trigger, seen, undecorated);
            &&& after.resident
            &&& !after.finished
            &&& after.stage != Stage::Done
            &&& !done.contains(Command::Close)
        }),
{
    let (after, done) = next(s, trigger, seen, undecorated);
    assert forall|i: int| 0 <= i < done.len() implies done[i] != Command::Close by {}
}

/// A process that is not resident never waits hidden: once it is doing
/// something, it does that or ends.
pub proof fn law_a_single_capture_never_waits_hidden(
    s: State,
    trigger: Option<Trigger>,
    seen: Seen,
    undecorated: bool,
)
    requires
        !s.resident,
        s.stage != Stage::Idle,
    ensures
        next(s, trigger, seen, undecorated).0.stage != Stage::Idle,
        next(s, trigger, seen, undecorated).0.stage == Stage::Done ==> next(
            s,
            trigger,
            seen,
            undecorated,
        ).0.finished,
{
}

/// Whenever a capture starts, the window has just been hidden.
pub proof fn law_the_window_hides_before_a_capture(
    s: State,
    trigger: Option<Trigger>,
    seen: Seen,
    undecorated: bool,
    i: int,
)
    requires
        0 <= i < next(s, trigger, seen, undecorated).1.len(),
        next(s, trigger, seen, undecorated).1[i] is StartCapture,
    ensures
        s.stage == Stage::Idle,
        i > 0,
        next(s, trigger, seen, undecorated).1[i - 1] == Command::Visible(false),
{
}

/// What happens while the process waits. It goes to sleep again, and acts on
/// what it is asked: it hides and starts a capture in the mode asked for, shows
/// the settings, or ends.
pub proof fn law_what_happens_while_waiting(
    s: State,
    trigger: Option<Trigger>,
    seen: Seen,
    undecorated: bool,
)
    requires
        s.stage == Stage::Idle,
        !s.finished,
    ensures
        ({
            let (after, done) = next(s, trigger, seen, undecorated);
            &&& after.resident == s.resident
            &&& done.len() > 0 && done[0] == Command::WakeLater
            &&& trigger is None ==> after == s && done.len() == 1
            &&& trigger matches Some(Trigger::Capture(mode)) ==> {
                &&& after.stage == Stage::Capturing && !after.finished
                &&& done.len() == 3
                &&& done[1] == Command::Visible(false)
                &&& done[2] == Command::StartCapture(mode)
            }
            &&& trigger == Some(Trigger::Settings) ==> {
                &&& after.stage == Stage::Settings && !after.finished
                &&& done.len() == 7
                &&& done[1] == Command::Fullscreen(false)
                &&& done[2] == Command::Decorations(true)
                &&& done[3] == Command::SizeToSettings
                &&& done[4] == Command::SettingsTitle
                &&& done[5] == Command::Visible(true)
                &&& done[6] == Command::Focus
            }
        }),
{
}

/// What happens while a capture runs. One that is ready is chosen from, on a
/// window without decorations that covers the screen, or annotated at once; and
/// until then the process sleeps.
pub proof fn law_what_happens_while_capturing(s: State, seen: Seen, undecorated: bool)
    requires
        s.stage == Stage::Capturing,
        !s.finished,
    ensures
        ({
            let (after, done) = next(s, None, seen, undecorated);
            &&& seen == Seen::Capture(Progress::Ready { needs_selection: true }) ==> {
                &&& after.stage == Stage::Selecting && !after.finished
                &&& done.len() == 4
                &&& done[0] == Command::Decorations(false)
                &&& done[1] == Command::Fullscreen(true)
                &&& done[2] == Command::Visible(true)
                &&& done[3] == Command::Focus
            }
            &&& seen == Seen::Capture(Progress::Ready { needs_selection: false }) ==> {
                &&& after.stage == Stage::Editing && !after.finished
                &&& done.len() == 6
                &&& done[0] == Command::Fullscreen(false)
                &&& done[1] == Command::Decorations(!undecorated)
                &&& done[2] == Command::SizeToImage
                &&& done[3] == Command::ApplicationTitle
                &&& done[4] == Command::Visible(true)
                &&& done[5] == Command::Focus
            }
            &&& seen == Seen::Capture(Progress::Working) || !(seen is Capture) ==> after == s
                && done.len() == 1 && done[0] == Command::WakeLater
        }),
{
}

/// What happens while the user chooses, annotates or edits settings: a confirmed
/// choice is annotated, anything that ends the stage ends it, and nothing else
/// changes anything.
pub proof fn law_what_happens_while_a_window_is_open(s: State, seen: Seen, undecorated: bool)
    requires
        s.stage == Stage::Selecting || s.stage == Stage::Editing || s.stage == Stage::Settings,
        !s.finished,
    ensures
        ({
            let (after, done) = next(s, None, seen, undecorated);
            let confirmed = s.stage == Stage::Selecting && (seen matches Seen::Overlay(o)
                && o is Confirmed);
            let ends = s.stage == Stage::Selecting && (seen matches Seen::Overlay(o)
                && o is Cancelled) || s.stage == Stage::Editing && seen is EditorQuit || s.stage
                == Stage::Settings && seen is SettingsClosed;
            &&& confirmed ==> {
                &&& after.stage == Stage::Editing && !after.finished
                &&& done.len() == 6
                &&& done[0] == Command::Fullscreen(false)
                &&& done[1] == Command::Decorations(!undecorated)
                &&& done[2] == Command::SizeToImage
                &&& done[3] == Command::ApplicationTitle
                &&& done[4] == Command::Visible(true)
                &&& done[5] == Command::Focus
            }
            &&& ends && s.resident ==> {
                &&& after.stage == Stage::Idle && !after.finished
                &&& done.len() == 2
                &&& done[0] == Command::Visible(false)
                &&& done[1] == Command::Fullscreen(false)
            }
            &&& ends && !s.resident ==> {
                &&& after.stage == Stage::Done && after.finished
                &&& done.len() == 1
                &&& done[0] == Command::Close
            }
            &&& !confirmed && !ends ==> after == s && done.len() == 0
        }),
{
}

/// A process that is done is finished, and its window closes.
pub proof fn law_done_is_done(s: State, trigger: Option<Trigger>, seen: Seen, undecorated: bool)
    requires
        s.stage == Stage::Done,
    ensures
        ({
            let (after, done) = next(s, trigger, seen, undecorated);
            &&& after.stage == Stage::Done && after.finished
            &&& done.len() == 1 && done[0] == Command::Close
        }),
{
}

/// The warnings of a daemon that starts are those of its keys, and one more
/// where the tray is wanted and not to be had.
pub proof fn law_a_missing_tray_is_one_more_warning(failures: Seq<Seq<char>>, tray: TrayState)
    ensures
        !(tray is Unavailable) ==> start_warnings(failures, tray) == failures,
        tray is Unavailable ==> start_warnings(failures, tray).len() == failures.len() + 1
            && start_warnings(failures, tray).drop_last() == failures,
{
    if tray is Unavailable {
        assert(start_warnings(failures, tray).drop_last() =~= failures);
    }
}

/// A failed capture of a resident process is one more warning, and no other
/// progress is.
pub proof fn law_a_failed_capture_is_one_more_warning(app: BettershotApp, progress: Progress)
    ensures
        progress is Failed && app.daemon is Some ==> app.warnings_after(progress).len()
            == app.warnings().len() + 1 && app.warnings_after(progress).drop_last()
            == app.warnings(),
        !(progress is Failed) || app.daemon is None ==> app.warnings_after(progress)
            == app.warnings(),
{
    if progress is Failed && app.daemon is Some {
        assert(app.warnings_after(progress).drop_last() =~= app.warnings());
    }
}

/// Joined texts keep their order, with a separator between two of them and none
/// at either end; and sentences each end with a full stop.
pub proof fn law_texts_are_joined_in_order(texts: Seq<Seq<char>>, last: Seq<char>)
    ensures
        semicolon_joined(Seq::empty()).len() == 0,
        semicolon_joined(seq![last]) == last,
        texts.len() > 0 ==> semicolon_joined(texts.push(last)) == semicolon_joined(texts) + "; "@
            + last,
        sentences(Seq::empty()).len() == 0,
        sentences(texts.push(last)) == sentences(texts) + last + ". "@,
{
    assert(texts.push(last).drop_last() =~= texts);
}

/// Warnings are still to be reported exactly where the process stays resident,
/// there are some, and none of them was reported yet.
pub proof fn law_warnings_are_reported_once(app: BettershotApp)
    ensures
        app.daemon is None ==> !app.unreported(),
        app.daemon matches Some(d) ==> (d.warned || d.warnings@.len() == 0 ==> !app.unreported()),
        app.daemon matches Some(d) ==> (!d.warned && d.warnings@.len() > 0 ==> app.unreported()),
{
}

/// What an app does next is decided by its stage, by whether it has finished,
/// and by whether it stays resident, which it does as a daemon.
pub proof fn law_daemons_stay_resident(app: BettershotApp)
    ensures
        app.daemon is Some ==> app.state().resident,
        app.daemon is None ==> !app.state().resident,
        app.state().stage == app.stage,
        app.state().finished == app.finished,
{
}

} // verus!
