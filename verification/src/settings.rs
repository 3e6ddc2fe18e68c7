//! The configuration, and the settings window that edits it.
//!
//! Edits are applied to the live configuration immediately, so that their effect
//! is visible straight away, but they are only *persisted* when the user asks: a
//! one-off tweak should not silently rewrite the configuration file for every
//! future run.

use crate::app::{Theme, WindowOptions};
use crate::capture::CaptureMode;
use crate::codec::SaveFormat;
use crate::daemon::HotkeyBinding;
use crate::history::History;
use crate::text::{decimal, is_blank, joined, same_text};
use vstd::prelude::*;
use vstd::string::*;

verus! {

/// What a key or a button does with the finished image.
#[derive(Debug, Clone, Copy, PartialEq, Eq, Structural)]
pub enum Action {
    /// Nothing.
    Nothing,
    /// Leave the editor.
    Exit,
    /// Put the image on the clipboard.
    SaveToClipboard,
    /// Write the image to the configured file.
    SaveToFile,
    /// Ask where to write the image.
    SaveAs,
}

/// The tools of the editor.
#[derive(Debug, Clone, Copy, PartialEq, Eq, Structural)]
pub enum Tools {
    /// Selects, moves and deletes what is already there.
    Pointer,
    /// Cuts the image down.
    Crop,
    /// Draws a line.
    Line,
    /// Draws an arrow.
    Arrow,
    /// Draws a rectangle.
    Rectangle,
    /// Draws an ellipse.
    Ellipse,
    /// Writes text.
    Text,
    /// Places a number.
    Marker,
    /// Draws freely.
    Brush,
    /// Highlights.
    Highlight,
    /// Blurs or pixelates.
    Blur,
}

/// How an annotation hides what is below it.
#[derive(Debug, Clone, Copy, PartialEq, Eq, Structural)]
pub enum ObscureKind {
    /// By blurring.
    Blur,
    /// By large blocks.
    Pixelate,
}

/// What a capture does.
#[derive(Debug, Clone, Copy, PartialEq, Eq, Structural)]
pub struct CaptureOptions {
    /// What is captured by default.
    pub mode: CaptureMode,
    /// How long to wait before capturing.
    pub delay_seconds: u64,
    /// Whether the cursor is part of the image.
    pub include_cursor: bool,
    /// Whether the selection snaps to windows.
    pub snap_to_windows: bool,
}

/// What the resident process does.
#[derive(Debug)]
pub struct DaemonConfig {
    /// Stay resident.
    pub enabled: bool,
    /// Show an icon in the system tray.
    pub tray: bool,
    /// The global hotkeys.
    pub hotkeys: Vec<HotkeyBinding>,
}

/// The configuration.
#[derive(Debug)]
pub struct Config {
    /// The language of the user interface.
    pub language: String,
    /// The look of the user interface.
    pub theme: Theme,
    /// Start with the toolbars hidden.
    pub hide_toolbars: bool,
    /// The tool the editor starts with.
    pub initial_tool: Tools,
    /// The size the editor starts with, by its place in the list of sizes.
    pub initial_size: usize,
    /// The scale of annotations, as a single-precision number.
    pub annotation_scale_bits: u32,
    /// Shapes are filled.
    pub default_fill_shapes: bool,
    /// Lines end in round caps.
    pub default_round_caps: bool,
    /// How annotations hide what is below them.
    pub obscure: ObscureKind,
    /// What the Enter key does.
    pub action_on_enter: Action,
    /// What the Escape key does.
    pub action_on_escape: Action,
    /// Leave the editor after saving.
    pub early_exit: bool,
    /// Save as well when copying.
    pub save_after_copy: bool,
    /// Show no desktop notifications.
    pub disable_notifications: bool,
    /// Where images are saved.
    pub output_filename: Option<String>,
    /// The format in which images are saved.
    pub save_format: SaveFormat,
    /// The command that copies images, in place of the system clipboard.
    pub copy_command: Option<String>,
    /// What a capture does.
    pub capture: CaptureOptions,
    /// How many recent captures are kept.
    pub history_size: usize,
    /// Write a report when the process crashes.
    pub crash_reports: bool,
    /// How the window looks.
    pub window: WindowOptions,
    /// What the resident process does.
    pub daemon: DaemonConfig,
}

/// One edit in the settings window.
#[derive(Debug)]
pub enum Change {
    /// The look of the user interface.
    Theme(Theme),
    /// Start with the toolbars hidden.
    HideToolbars(bool),
    /// The tool the editor starts with.
    InitialTool(Tools),
    /// The size the editor starts with, by its place in the list of sizes.
    InitialSize(usize),
    /// The scale of annotations, as a single-precision number.
    AnnotationScale(u32),
    /// Shapes are filled.
    FillShapes(bool),
    /// Lines end in round caps.
    RoundCaps(bool),
    /// How annotations hide what is below them.
    Obscure(ObscureKind),
    /// What the Enter key does.
    OnEnter(Action),
    /// What the Escape key does.
    OnEscape(Action),
    /// Leave the editor after saving.
    EarlyExit(bool),
    /// Save as well when copying.
    SaveAfterCopy(bool),
    /// Show no desktop notifications.
    DisableNotifications(bool),
    /// Where images are saved, as typed.
    OutputFilename(String),
    /// The format in which images are saved.
    Format(SaveFormat),
    /// The copy command, as typed.
    CopyCommand(String),
    /// What is captured by default.
    Mode(CaptureMode),
    /// How long to wait before capturing, in seconds.
    Delay(u32),
    /// Whether the selection snaps to windows.
    SnapToWindows(bool),
    /// How many recent captures are kept.
    HistorySize(usize),
    /// Write a report when the process crashes.
    CrashReports(bool),
    /// Forget the captures that are kept, which changes no setting.
    ForgetCaptures,
}

/// The longest wait before a capture that can be set, in seconds.
pub const MAX_DELAY_SECONDS: u32 = 30;

/// The largest number of captures that can be set to be kept.
pub const MAX_HISTORY_SIZE: usize = 20;

/// A wait before a capture, as far as it can be set.
pub open spec fn settable_delay(seconds: u32) -> u64 {
    if seconds > MAX_DELAY_SECONDS {
        MAX_DELAY_SECONDS as u64
    } else {
        seconds as u64
    }
}

/// A number of captures to keep, as far as it can be set.
pub open spec fn settable_history(size: usize) -> usize {
    if size > MAX_HISTORY_SIZE {
        MAX_HISTORY_SIZE
    } else {
        size
    }
}

fn limited_delay(seconds: u32) -> (limited: u64)
    ensures
        limited == settable_delay(seconds),
{
    if seconds > MAX_DELAY_SECONDS {
        MAX_DELAY_SECONDS as u64
    } else {
        seconds as u64
    }
}

fn limited_history(size: usize) -> (limited: usize)
    ensures
        limited == settable_history(size),
{
    if size > MAX_HISTORY_SIZE {
        MAX_HISTORY_SIZE
    } else {
        size
    }
}

/// `kept` is what was typed; a field with nothing but space in it is unset.
pub open spec fn is_typed(kept: Option<String>, typed: Seq<char>) -> bool {
    if crate::text::blank(typed) {
        kept is None
    } else {
        kept matches Some(k) && k@ == typed
    }
}

fn typed_setting(typed: String) -> (kept: Option<String>)
    ensures
        is_typed(kept, typed@),
{
    if is_blank(typed.as_str()) {
        None
    } else {
        Some(typed)
    }
}

/// `after` is `before` with one edit made, and nothing else changed.
pub open spec fn is_edited(after: Config, before: Config, change: Change) -> bool {
    match change {
        Change::Theme(theme) => after == (Config { theme, ..before }),
        Change::HideToolbars(hide_toolbars) => after == (Config { hide_toolbars, ..before }),
        Change::InitialTool(initial_tool) => after == (Config { initial_tool, ..before }),
        Change::InitialSize(initial_size) => after == (Config { initial_size, ..before }),
        Change::AnnotationScale(bits) => after == (Config {
            annotation_scale_bits: bits,
            ..before
        }),
        Change::FillShapes(on) => after == (Config { default_fill_shapes: on, ..before }),
        Change::RoundCaps(on) => after == (Config { default_round_caps: on, ..before }),
        Change::Obscure(obscure) => after == (Config { obscure, ..before }),
        Change::OnEnter(action) => after == (Config { action_on_enter: action, ..before }),
        Change::OnEscape(action) => after == (Config { action_on_escape: action, ..before }),
        Change::EarlyExit(early_exit) => after == (Config { early_exit, ..before }),
        Change::SaveAfterCopy(save_after_copy) => after == (Config { save_after_copy, ..before }),
        Change::DisableNotifications(on) => after == (Config {
            disable_notifications: on,
            ..before
        }),
        Change::OutputFilename(typed) => {
            &&& is_typed(after.output_filename, typed@)
            &&& after == (Config { output_filename: after.output_filename, ..before })
        },
        Change::Format(save_format) => after == (Config { save_format, ..before }),
        Change::CopyCommand(typed) => {
            &&& is_typed(after.copy_command, typed@)
            &&& after == (Config { copy_command: after.copy_command, ..before })
        },
        Change::Mode(mode) => after == (Config {
            capture: CaptureOptions { mode, ..before.capture },
            ..before
        }),
        Change::Delay(seconds) => after == (Config {
            capture: CaptureOptions { delay_seconds: settable_delay(seconds), ..before.capture },
            ..before
        }),
        Change::SnapToWindows(snap_to_windows) => after == (Config {
            capture: CaptureOptions { snap_to_windows, ..before.capture },
            ..before
        }),
        Change::HistorySize(size) => after == (Config {
            history_size: settable_history(size),
            ..before
        }),
        Change::CrashReports(crash_reports) => after == (Config { crash_reports, ..before }),
        Change::ForgetCaptures => after == before,
    }
}

fn edited(config: Config, change: Change) -> (after: Config)
    ensures
        is_edited(after, config, change),
{
    match change {
        Change::Theme(theme) => Config { theme, ..config },
        Change::HideToolbars(hide_toolbars) => Config { hide_toolbars, ..config },
        Change::InitialTool(initial_tool) => Config { initial_tool, ..config },
        Change::InitialSize(initial_size) => Config { initial_size, ..config },
        Change::AnnotationScale(bits) => Config { annotation_scale_bits: bits, ..config },
        Change::FillShapes(on) => Config { default_fill_shapes: on, ..config },
        Change::RoundCaps(on) => Config { default_round_caps: on, ..config },
        Change::Obscure(obscure) => Config { obscure, ..config },
        Change::OnEnter(action) => Config { action_on_enter: action, ..config },
        Change::OnEscape(action) => Config { action_on_escape: action, ..config },
        Change::EarlyExit(early_exit) => Config { early_exit, ..config },
        Change::SaveAfterCopy(save_after_copy) => Config { save_after_copy, ..config },
        Change::DisableNotifications(on) => Config { disable_notifications: on, ..config },
        Change::OutputFilename(typed) => {
            Config { output_filename: typed_setting(typed), ..config }
        },
        Change::Format(save_format) => Config { save_format, ..config },
        Change::CopyCommand(typed) => Config { copy_command: typed_setting(typed), ..config },
        Change::Mode(mode) => {
            Config { capture: CaptureOptions { mode, ..config.capture }, ..config }
        },
        Change::Delay(seconds) => {
            let capture = CaptureOptions {
                delay_seconds: limited_delay(seconds),
                ..config.capture
            };
            Config { capture, ..config }
        },
        Change::SnapToWindows(snap_to_windows) => {
            Config { capture: CaptureOptions { snap_to_windows, ..config.capture }, ..config }
        },
        Change::HistorySize(size) => Config { history_size: limited_history(size), ..config },
        Change::CrashReports(crash_reports) => Config { crash_reports, ..config },
        Change::ForgetCaptures => config,
    }
}

/// What is typed in a field for a setting.
pub open spec fn field_text(setting: Option<String>) -> Seq<char> {
    match setting {
        Some(text) => text@,
        None => seq![],
    }
}

fn field_holds(setting: &Option<String>, typed: &String) -> (same: bool)
    ensures
        same == (field_text(*setting) == typed@),
{
    match setting {
        Some(text) => same_text(text.as_str(), typed.as_str()),
        None => {
            assert(typed@.len() == 0 ==> typed@ =~= seq![]);
            typed.as_str().unicode_len() == 0
        },
    }
}

/// The edit counts as a change. Pressing the label of a choice does, even of the
/// one in use. Every other control reports a change only of its value, and
/// forgetting captures changes no setting.
pub open spec fn counts(config: Config, change: Change) -> bool {
    match change {
        Change::Theme(_) => true,
        Change::InitialSize(_) => true,
        Change::Obscure(_) => true,
        Change::Format(_) => true,
        Change::Mode(_) => true,
        Change::HideToolbars(on) => on != config.hide_toolbars,
        Change::InitialTool(tool) => tool != config.initial_tool,
        Change::AnnotationScale(bits) => bits != config.annotation_scale_bits,
        Change::FillShapes(on) => on != config.default_fill_shapes,
        Change::RoundCaps(on) => on != config.default_round_caps,
        Change::OnEnter(action) => action != config.action_on_enter,
        Change::OnEscape(action) => action != config.action_on_escape,
        Change::EarlyExit(on) => on != config.early_exit,
        Change::SaveAfterCopy(on) => on != config.save_after_copy,
        Change::DisableNotifications(on) => on != config.disable_notifications,
        Change::OutputFilename(typed) => typed@ != field_text(config.output_filename),
        Change::CopyCommand(typed) => typed@ != field_text(config.copy_command),
        Change::Delay(seconds) => settable_delay(seconds) != config.capture.delay_seconds,
        Change::SnapToWindows(on) => on != config.capture.snap_to_windows,
        Change::HistorySize(size) => settable_history(size) != config.history_size,
        Change::CrashReports(on) => on != config.crash_reports,
        Change::ForgetCaptures => false,
    }
}

fn is_change(config: &Config, change: &Change) -> (yes: bool)
    ensures
        yes == counts(*config, *change),
{
    match change {
        Change::Theme(_) => true,
        Change::InitialSize(_) => true,
        Change::Obscure(_) => true,
        Change::Format(_) => true,
        Change::Mode(_) => true,
        Change::HideToolbars(on) => *on != config.hide_toolbars,
        Change::InitialTool(tool) => *tool != config.initial_tool,
        Change::AnnotationScale(bits) => *bits != config.annotation_scale_bits,
        Change::FillShapes(on) => *on != config.default_fill_shapes,
        Change::RoundCaps(on) => *on != config.default_round_caps,
        Change::OnEnter(action) => *action != config.action_on_enter,
        Change::OnEscape(action) => *action != config.action_on_escape,
        Change::EarlyExit(on) => *on != config.early_exit,
        Change::SaveAfterCopy(on) => *on != config.save_after_copy,
        Change::DisableNotifications(on) => *on != config.disable_notifications,
        Change::OutputFilename(typed) => !field_holds(&config.output_filename, typed),
        Change::CopyCommand(typed) => !field_holds(&config.copy_command, typed),
        Change::Delay(seconds) => limited_delay(*seconds) != config.capture.delay_seconds,
        Change::SnapToWindows(on) => *on != config.capture.snap_to_windows,
        Change::HistorySize(size) => limited_history(*size) != config.history_size,
        Change::CrashReports(on) => *on != config.crash_reports,
        Change::ForgetCaptures => false,
    }
}

/// The settings window.
#[derive(Debug)]
pub struct SettingsWindow {
    /// Whether it is shown.
    pub open: bool,
    /// Result of the last attempt to save, shown next to the button.
    pub status: Option<String>,
}

impl SettingsWindow {
    /// A closed window.
    pub fn new() -> (window: SettingsWindow)
        ensures
            !window.open,
            window.status is None,
    {
        SettingsWindow { open: false, status: None }
    }

    /// Open or close the window, and forget how the last save went.
    pub fn toggle(&mut self)
        ensures
            final(self).open == !old(self).open,
            final(self).status is None,
    {
        self.open = !self.open;
        self.status = None;
    }

    /// Take in one edit: the configuration after it, and whether that counts as
    /// a change. A closed window takes in nothing, and an edit that does not
    /// count changes no setting.
    ///
    /// How many captures are kept is applied to the history at once, not just
    /// recorded: the surplus has to be released now.
    pub fn edit(&self, config: Config, history: &mut History, change: Change) -> (after: (
        Config,
        bool,
    ))
        ensures
            after.1 == (self.open && counts(config, change)),
            after.1 ==> is_edited(after.0, config, change),
            !after.1 ==> after.0 == config,
            !self.open ==> *final(history) == *old(history),
            self.open ==> match change {
                Change::HistorySize(size) if counts(config, change) => {
                    &&& final(history)@ == crate::history::newest(
                        old(history)@,
                        settable_history(size) as nat,
                    )
                    &&& final(history).limit() == settable_history(size)
                },
                Change::ForgetCaptures => final(history)@.len() == 0 && final(history).limit()
                    == old(history).limit(),
                _ => *final(history) == *old(history),
            },
    {
        if !self.open {
            return (config, false);
        }
        match change {
            Change::ForgetCaptures => history.clear(),
            _ => {},
        }
        if !is_change(&config, &change) {
            return (config, false);
        }
        match change {
            Change::HistorySize(size) => history.set_capacity(limited_history(size)),
            _ => {},
        }
        (edited(config, change), true)
    }

    /// Show how saving the configuration went: to which file, or why not.
    pub fn persisted(&mut self, result: Result<&str, &str>)
        ensures
            final(self).open == old(self).open,
            final(self).status matches Some(text) && text@ == (match result {
                Ok(path) => "Saved to "@ + path@,
                Err(e) => "Could not save: "@ + e@,
            }),
    {
        self.status = Some(
            match result {
                Ok(path) => joined("Saved to ", path),
                Err(e) => joined("Could not save: ", e),
            },
        );
    }
}

fn wide_decimal(n: u128) -> (text: String)
    ensures
        text@ == crate::text::decimal_text(n as nat),
    decreases n,
{
    if n < 10 {
        decimal(n as u64)
    } else {
        let mut text = wide_decimal(n / 10);
        text.push((48 + (n % 10) as u8) as char);
        text
    }
}

/// What is held on to, as the settings window says it: a screenshot tool keeps
/// pictures of whatever was on screen, so the user should see how many.
pub fn held_label(history: &History) -> (text: String)
    ensures
        text@ == crate::text::decimal_text(history@.len()) + " of "@ + crate::text::decimal_text(
            history.limit(),
        ) + " kept, using "@ + crate::text::decimal_text(
            crate::history::total_bytes(history@) / 1024,
        ) + " KB"@,
{
    let mut text = decimal(history.len() as u64);
    text.append(" of ");
    text.append(decimal(history.capacity() as u64).as_str());
    text.append(" kept, using ");
    text.append(wide_decimal(history.memory_used() / 1024).as_str());
    text.append(" KB");
    text
}

/// An edit leaves every other setting alone, and what the window does not offer
/// stays as it is.
pub proof fn law_edits_touch_only_their_setting(before: Config, after: Config, change: Change)
    requires
        is_edited(after, before, change),
    ensures
        !(change is Theme) ==> after.theme == before.theme,
        !(change is HideToolbars) ==> after.hide_toolbars == before.hide_toolbars,
        !(change is InitialTool) ==> after.initial_tool == before.initial_tool,
        !(change is InitialSize) ==> after.initial_size == before.initial_size,
        !(change is AnnotationScale) ==> after.annotation_scale_bits
            == before.annotation_scale_bits,
        !(change is FillShapes) ==> after.default_fill_shapes == before.default_fill_shapes,
        !(change is RoundCaps) ==> after.default_round_caps == before.default_round_caps,
        !(change is Obscure) ==> after.obscure == before.obscure,
        !(change is OnEnter) ==> after.action_on_enter == before.action_on_enter,
        !(change is OnEscape) ==> after.action_on_escape == before.action_on_escape,
        !(change is EarlyExit) ==> after.early_exit == before.early_exit,
        !(change is SaveAfterCopy) ==> after.save_after_copy == before.save_after_copy,
        !(change is DisableNotifications) ==> after.disable_notifications
            == before.disable_notifications,
        !(change is OutputFilename) ==> after.output_filename == before.output_filename,
        !(change is Format) ==> after.save_format == before.save_format,
        !(change is CopyCommand) ==> after.copy_command == before.copy_command,
        !(change is HistorySize) ==> after.history_size == before.history_size,
        !(change is CrashReports) ==> after.crash_reports == before.crash_reports,
        after.daemon == before.daemon,
        after.window == before.window,
        after.language == before.language,
        !(change is Mode) ==> after.capture.mode == before.capture.mode,
        !(change is Delay) ==> after.capture.delay_seconds == before.capture.delay_seconds,
        !(change is SnapToWindows) ==> after.capture.snap_to_windows
            == before.capture.snap_to_windows,
        after.capture.include_cursor == before.capture.include_cursor,
{
}

/// An edit sets its setting to what was chosen. The wait and the number of kept
/// captures go no further than they can be set, and a field with nothing but
/// space in it unsets its setting.
pub proof fn law_edits_set_what_was_chosen(before: Config, after: Config, change: Change)
    requires
        is_edited(after, before, change),
    ensures
        change matches Change::Theme(v) ==> after.theme == v,
        change matches Change::HideToolbars(v) ==> after.hide_toolbars == v,
        change matches Change::InitialTool(v) ==> after.initial_tool == v,
        change matches Change::InitialSize(v) ==> after.initial_size == v,
        change matches Change::AnnotationScale(v) ==> after.annotation_scale_bits == v,
        change matches Change::FillShapes(v) ==> after.default_fill_shapes == v,
        change matches Change::RoundCaps(v) ==> after.default_round_caps == v,
        change matches Change::Obscure(v) ==> after.obscure == v,
        change matches Change::OnEnter(v) ==> after.action_on_enter == v,
        change matches Change::OnEscape(v) ==> after.action_on_escape == v,
        change matches Change::EarlyExit(v) ==> after.early_exit == v,
        change matches Change::SaveAfterCopy(v) ==> after.save_after_copy == v,
        change matches Change::DisableNotifications(v) ==> after.disable_notifications == v,
        change matches Change::Format(v) ==> after.save_format == v,
        change matches Change::Mode(v) ==> after.capture.mode == v,
        change matches Change::SnapToWindows(v) ==> after.capture.snap_to_windows == v,
        change matches Change::CrashReports(v) ==> after.crash_reports == v,
        change matches Change::Delay(v) ==> {
            &&& v <= 30 ==> after.capture.delay_seconds == v
            &&& v > 30 ==> after.capture.delay_seconds == 30
        },
        change matches Change::HistorySize(v) ==> {
            &&& v <= 20 ==> after.history_size == v
            &&& v > 20 ==> after.history_size == 20
        },
        change matches Change::OutputFilename(v) ==> {
            &&& crate::text::blank(v@) ==> after.output_filename is None
            &&& !crate::text::blank(v@) ==> (after.output_filename matches Some(t) && t@ == v@)
        },
        change matches Change::CopyCommand(v) ==> {
            &&& crate::text::blank(v@) ==> after.copy_command is None
            &&& !crate::text::blank(v@) ==> (after.copy_command matches Some(t) && t@ == v@)
        },
{
}

/// An edit that does not count would have changed nothing: after it every
/// setting is what it was. Only the choices of a list count even where the one
/// in use is chosen again.
pub proof fn law_edits_that_do_not_count_change_nothing(
    before: Config,
    after: Config,
    change: Change,
)
    requires
        is_edited(after, before, change),
        !counts(before, change),
        !(change is OutputFilename),
        !(change is CopyCommand),
    ensures
        after == before,
{
}

/// What counts as a change: choosing from a list always, a toggle or a value
/// only where it differs, a typed field only where its text does, and forgetting
/// captures never.
pub proof fn law_what_counts_as_a_change(config: Config, change: Change)
    ensures
        change is Theme || change is InitialSize || change is Obscure || change is Format
            || change is Mode ==> counts(config, change),
        change is ForgetCaptures ==> !counts(config, change),
        change matches Change::OutputFilename(typed) ==> {
            &&& config.output_filename matches Some(t) ==> counts(config, change) == (typed@ != t@)
            &&& config.output_filename is None ==> counts(config, change) == (typed@.len() > 0)
        },
        change matches Change::CopyCommand(typed) ==> {
            &&& config.copy_command matches Some(t) ==> counts(config, change) == (typed@ != t@)
            &&& config.copy_command is None ==> counts(config, change) == (typed@.len() > 0)
        },
        change matches Change::HideToolbars(v) ==> counts(config, change) == (v
            != config.hide_toolbars),
        change matches Change::InitialTool(v) ==> counts(config, change) == (v
            != config.initial_tool),
        change matches Change::AnnotationScale(v) ==> counts(config, change) == (v
            != config.annotation_scale_bits),
        change matches Change::FillShapes(v) ==> counts(config, change) == (v
            != config.default_fill_shapes),
        change matches Change::RoundCaps(v) ==> counts(config, change) == (v
            != config.default_round_caps),
        change matches Change::OnEnter(v) ==> counts(config, change) == (v
            != config.action_on_enter),
        change matches Change::OnEscape(v) ==> counts(config, change) == (v
            != config.action_on_escape),
        change matches Change::EarlyExit(v) ==> counts(config, change) == (v != config.early_exit),
        change matches Change::SaveAfterCopy(v) ==> counts(config, change) == (v
            != config.save_after_copy),
        change matches Change::DisableNotifications(v) ==> counts(config, change) == (v
            != config.disable_notifications),
        change matches Change::SnapToWindows(v) ==> counts(config, change) == (v
            != config.capture.snap_to_windows),
        change matches Change::CrashReports(v) ==> counts(config, change) == (v
            != config.crash_reports),
        change matches Change::Delay(v) ==> {
            &&& v <= 30 ==> counts(config, change) == (v != config.capture.delay_seconds)
            &&& v > 30 ==> counts(config, change) == (30 != config.capture.delay_seconds)
        },
        change matches Change::HistorySize(v) ==> {
            &&& v <= 20 ==> counts(config, change) == (v != config.history_size)
            &&& v > 20 ==> counts(config, change) == (20 != config.history_size)
        },
{
    if let Change::OutputFilename(typed) = change {
        if typed@.len() == 0 {
            assert(typed@ =~= seq![]);
        }
    }
    if let Change::CopyCommand(typed) = change {
        if typed@.len() == 0 {
            assert(typed@ =~= seq![]);
        }
    }
}

} // verus!
