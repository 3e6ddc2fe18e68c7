//! The annotation editor.
//!
//! The document itself, the drawing tools and the view onto the image are the
//! caller's. What is decided here is what input means: which shortcut a key is,
//! how a gesture of the pointer tool becomes moves of an annotation, when an
//! unfinished gesture is given up, and what follows from copying and saving.

use crate::geometry::{Rect, Vec2D};
use crate::history::{Entry, History};
use crate::i18n::Catalog;
use crate::notify::{copied, saved, Notice};
use crate::output::{copy_png_bytes, encode, CopyPlan, OutputError};
use crate::picture::{crop_image, RgbaImage};
use crate::codec::SaveFormat;
use crate::settings::{Action, Config, SettingsWindow, Tools};
use crate::text::{decimal, joined};
use vstd::prelude::*;
use vstd::string::*;

verus! {

/// How long a status message stays on screen, in milliseconds.
pub const STATUS_MILLIS: u64 = 3000;

/// What the editor wants the process to do next.
#[derive(Debug, Clone, Copy, PartialEq, Eq, Structural)]
pub enum Outcome {
    /// Go on.
    Continue,
    /// Leave.
    Quit,
}

/// The modifier keys that are down, as a window reports them.
#[derive(Debug, Clone, Copy, PartialEq, Eq, Structural)]
pub struct WindowModifiers {
    /// Shift.
    pub shift: bool,
    /// Control.
    pub ctrl: bool,
    /// Alt, or Option.
    pub alt: bool,
    /// The Command key of a Mac keyboard.
    pub mac_cmd: bool,
    /// Whatever the platform uses for shortcuts.
    pub command: bool,
}

/// The modifier keys that are down.
#[derive(Debug, Clone, Copy, PartialEq, Eq, Structural)]
pub struct Modifiers {
    /// Shift.
    pub shift: bool,
    /// Control.
    pub ctrl: bool,
    /// Alt, or Option.
    pub alt: bool,
    /// Command.
    pub meta: bool,
}

impl Modifiers {
    /// No modifier at all.
    pub fn none() -> (m: Modifiers)
        ensures
            m == (Modifiers { shift: false, ctrl: false, alt: false, meta: false }),
    {
        Modifiers { shift: false, ctrl: false, alt: false, meta: false }
    }

    /// The modifier of shortcuts is down: Command on macOS, Control elsewhere.
    pub open spec fn accelerates(self, macos: bool) -> bool {
        if macos {
            self.meta
        } else {
            self.ctrl
        }
    }

    /// Is the modifier of shortcuts down? Command on macOS, Control elsewhere.
    pub fn command(self, macos: bool) -> (yes: bool)
        ensures
            yes == self.accelerates(macos),
    {
        if macos {
            self.meta
        } else {
            self.ctrl
        }
    }
}

/// The modifiers that a window reports, in the terms of the editor.
pub fn to_modifiers(m: WindowModifiers, macos: bool) -> (mods: Modifiers)
    ensures
        mods == (Modifiers {
            shift: m.shift,
            ctrl: m.ctrl,
            alt: m.alt,
            meta: m.mac_cmd || (m.command && macos),
        }),
{
    Modifiers {
        shift: m.shift,
        ctrl: m.ctrl,
        alt: m.alt,
        meta: m.mac_cmd || (m.command && macos),
    }
}

/// The keys of a window that mean something here.
#[derive(Debug, Clone, Copy, PartialEq, Eq, Structural)]
#[allow(missing_docs)]
pub enum WindowKey {
    Escape,
    Enter,
    Backspace,
    Delete,
    Tab,
    ArrowLeft,
    ArrowRight,
    ArrowUp,
    ArrowDown,
    Home,
    End,
    PageUp,
    PageDown,
    Space,
    Plus,
    Minus,
    Equals,
    Comma,
    Digit(u8),
    C,
    S,
    T,
    Y,
    Z,
    /// Any other key.
    Other,
}

/// The keys that the drawing tools understand.
#[derive(Debug, Clone, Copy, PartialEq, Eq, Structural)]
#[allow(missing_docs)]
pub enum Key {
    Escape,
    Enter,
    Backspace,
    Delete,
    Tab,
    Left,
    Right,
    Up,
    Down,
    Home,
    End,
    PageUp,
    PageDown,
    Space,
    Plus,
    Minus,
}

/// The key that a drawing tool is told of. Printable characters arrive as text,
/// so reporting them here as well would double every keystroke.
pub open spec fn core_key(key: WindowKey) -> Option<Key> {
    match key {
        WindowKey::Escape => Some(Key::Escape),
        WindowKey::Enter => Some(Key::Enter),
        WindowKey::Backspace => Some(Key::Backspace),
        WindowKey::Delete => Some(Key::Delete),
        WindowKey::Tab => Some(Key::Tab),
        WindowKey::ArrowLeft => Some(Key::Left),
        WindowKey::ArrowRight => Some(Key::Right),
        WindowKey::ArrowUp => Some(Key::Up),
        WindowKey::ArrowDown => Some(Key::Down),
        WindowKey::Home => Some(Key::Home),
        WindowKey::End => Some(Key::End),
        WindowKey::PageUp => Some(Key::PageUp),
        WindowKey::PageDown => Some(Key::PageDown),
        WindowKey::Space => Some(Key::Space),
        WindowKey::Plus => Some(Key::Plus),
        WindowKey::Minus => Some(Key::Minus),
        _ => None,
    }
}

/// The key that a drawing tool is told of.
pub fn to_core_key(key: WindowKey) -> (k: Option<Key>)
    ensures
        k == core_key(key),
{
    match key {
        WindowKey::Escape => Some(Key::Escape),
        WindowKey::Enter => Some(Key::Enter),
        WindowKey::Backspace => Some(Key::Backspace),
        WindowKey::Delete => Some(Key::Delete),
        WindowKey::Tab => Some(Key::Tab),
        WindowKey::ArrowLeft => Some(Key::Left),
        WindowKey::ArrowRight => Some(Key::Right),
        WindowKey::ArrowUp => Some(Key::Up),
        WindowKey::ArrowDown => Some(Key::Down),
        WindowKey::Home => Some(Key::Home),
        WindowKey::End => Some(Key::End),
        WindowKey::PageUp => Some(Key::PageUp),
        WindowKey::PageDown => Some(Key::PageDown),
        WindowKey::Space => Some(Key::Space),
        WindowKey::Plus => Some(Key::Plus),
        WindowKey::Minus => Some(Key::Minus),
        _ => None,
    }
}

/// The palette index for a digit key, with `0` meaning the tenth colour.
pub open spec fn palette_index(key: WindowKey) -> Option<nat> {
    match key {
        WindowKey::Digit(d) => if 1 <= d <= 9 {
            Some((d - 1) as nat)
        } else if d == 0 {
            Some(9)
        } else {
            None
        },
        _ => None,
    }
}

/// The palette index for a digit key, with `0` meaning the tenth colour.
pub fn digit_index(key: WindowKey) -> (index: Option<usize>)
    ensures
        match index {
            Some(i) => palette_index(key) == Some(i as nat),
            None => palette_index(key) is None,
        },
{
    match key {
        WindowKey::Digit(d) => {
            if d == 0 {
                Some(9)
            } else if d <= 9 {
                Some(d as usize - 1)
            } else {
                None
            }
        },
        _ => None,
    }
}

/// The catalogue key of a tool's label.
pub open spec fn label_key(kind: Tools) -> Seq<char> {
    match kind {
        Tools::Pointer => "tool.pointer"@,
        Tools::Crop => "tool.crop"@,
        Tools::Line => "tool.line"@,
        Tools::Arrow => "tool.arrow"@,
        Tools::Rectangle => "tool.rectangle"@,
        Tools::Ellipse => "tool.ellipse"@,
        Tools::Text => "tool.text"@,
        Tools::Marker => "tool.marker"@,
        Tools::Brush => "tool.brush"@,
        Tools::Highlight => "tool.highlight"@,
        Tools::Blur => "tool.blur"@,
    }
}

/// The toolbar label for a tool, translated.
pub fn tool_label(strings: &Catalog, kind: Tools) -> (label: &'static str)
    ensures
        label@ == strings.text_for(label_key(kind)),
{
    match kind {
        Tools::Pointer => strings.get("tool.pointer"),
        Tools::Crop => strings.get("tool.crop"),
        Tools::Line => strings.get("tool.line"),
        Tools::Arrow => strings.get("tool.arrow"),
        Tools::Rectangle => strings.get("tool.rectangle"),
        Tools::Ellipse => strings.get("tool.ellipse"),
        Tools::Text => strings.get("tool.text"),
        Tools::Marker => strings.get("tool.marker"),
        Tools::Brush => strings.get("tool.brush"),
        Tools::Highlight => strings.get("tool.highlight"),
        Tools::Blur => strings.get("tool.blur"),
    }
}

/// The hint on a colour of the palette: the digit that picks it, while there is
/// one.
pub fn swatch_hint(color: &str, index: usize) -> (text: String)
    ensures
        text@ == (if index < 10 {
            color@ + " — press "@ + crate::text::decimal_text(((index + 1) % 10) as nat)
        } else {
            color@
        }),
{
    if index < 10 {
        let mut text = joined(color, " — press ");
        text.append(decimal(((index + 1) % 10) as u64).as_str());
        text
    } else {
        color.to_owned()
    }
}

/// What a key means to the application.
#[derive(Debug, Clone, Copy, PartialEq, Eq, Structural)]
pub enum Shortcut {
    /// Nothing: the key goes to the tool.
    Pass,
    /// Take back the last step.
    Undo,
    /// Repeat a step that was taken back.
    Redo,
    /// Remove every annotation.
    Reset,
    /// Remove the selected annotation.
    DeleteSelected,
    /// Put the path of the last saved image on the clipboard.
    CopyPath,
    /// Do something with the finished image.
    Perform(Action),
    /// Show or hide the toolbars.
    ToggleToolbars,
    /// Show or hide the settings.
    ToggleSettings,
    /// Show the image larger.
    ZoomIn,
    /// Show the image smaller.
    ZoomOut,
    /// Show the whole image.
    Fit,
    /// Give up what the tool is doing.
    Dismiss,
    /// Cut the image down to the crop tool's selection.
    ApplyCrop,
    /// Draw in this colour of the palette.
    PickColor(usize),
}

/// What the active tool is doing.
#[derive(Debug, Clone, Copy, PartialEq, Eq, Structural)]
pub struct ToolState {
    /// There is work in progress.
    pub active: bool,
    /// It takes typed text.
    pub wants_text: bool,
}

impl ToolState {
    /// The user is typing into the image.
    pub open spec fn typing(self) -> bool {
        self.active && self.wants_text
    }
}

/// What a key means while the modifier of shortcuts is down.
pub open spec fn accelerated(key: WindowKey, mods: Modifiers) -> Shortcut {
    match key {
        WindowKey::Z => if mods.shift {
            Shortcut::Redo
        } else {
            Shortcut::Undo
        },
        WindowKey::Y => Shortcut::Redo,
        WindowKey::C => if mods.alt {
            Shortcut::CopyPath
        } else {
            Shortcut::Perform(Action::SaveToClipboard)
        },
        WindowKey::S => if mods.shift {
            Shortcut::Perform(Action::SaveAs)
        } else {
            Shortcut::Perform(Action::SaveToFile)
        },
        WindowKey::T => Shortcut::ToggleToolbars,
        WindowKey::Comma => Shortcut::ToggleSettings,
        WindowKey::Plus => Shortcut::ZoomIn,
        WindowKey::Equals => Shortcut::ZoomIn,
        WindowKey::Minus => Shortcut::ZoomOut,
        WindowKey::Digit(0) => Shortcut::Fit,
        _ => Shortcut::Pass,
    }
}

/// What a key means on its own. Escape gives up the tool's work first, and only
/// when there is none does it do what it is configured to. While the user is
/// typing, Enter and the digits belong to the text.
pub open spec fn plain(
    key: WindowKey,
    mods: Modifiers,
    kind: Tools,
    tool: ToolState,
    on_enter: Action,
    on_escape: Action,
) -> Shortcut {
    match key {
        WindowKey::Escape => if tool.active {
            Shortcut::Dismiss
        } else {
            Shortcut::Perform(on_escape)
        },
        WindowKey::Enter => if tool.typing() {
            Shortcut::Pass
        } else if kind == Tools::Crop {
            Shortcut::ApplyCrop
        } else {
            Shortcut::Perform(on_enter)
        },
        WindowKey::Delete if mods.shift => Shortcut::Reset,
        WindowKey::Delete if kind == Tools::Pointer => Shortcut::DeleteSelected,
        WindowKey::Backspace if kind == Tools::Pointer => Shortcut::DeleteSelected,
        _ => match palette_index(key) {
            Some(i) if !tool.typing() => Shortcut::PickColor(i as usize),
            _ => Shortcut::Pass,
        },
    }
}

/// One pointer event over the image.
#[derive(Debug, Clone, Copy, PartialEq, Eq, Structural)]
pub enum PointerKind {
    /// The button went down.
    Press,
    /// The button went down and up again in one place.
    Click,
    /// The pointer moves with the button down.
    Drag,
    /// The button went up after a drag.
    EndDrag,
    /// The pointer moves with no button down.
    Motion,
}

/// One event of the keyboard.
#[derive(Debug, Clone, Copy, PartialEq, Eq, Structural)]
pub enum KeyInput {
    /// A key went down.
    Pressed(WindowKey, Modifiers),
    /// A key went up.
    Released,
    /// Text was typed.
    Typed,
}

/// Where an event of the keyboard goes.
#[derive(Debug, Clone, Copy, PartialEq, Eq, Structural)]
pub enum KeyRoute {
    /// It is a shortcut of the application, and not for the tool.
    Application(Shortcut),
    /// The tool is told of the key.
    Tool(Key, Modifiers),
    /// The tool is handed the text.
    ToolText,
    /// Nobody is told.
    Nowhere,
}

/// What the tool in use draws with by default.
#[derive(Debug, Clone, Copy, PartialEq, Eq, Structural)]
pub struct StyleDefaults {
    /// The scale of annotations, as a single-precision number.
    pub annotation_scale_bits: u32,
    /// Lines end in round caps.
    pub round_caps: bool,
}

/// What the document can do.
#[derive(Debug, Clone, Copy, PartialEq, Eq, Structural)]
pub struct DocumentState {
    /// There is a step to take back.
    pub can_undo: bool,
    /// There is a step to repeat.
    pub can_redo: bool,
}

/// A control of the toolbars.
#[derive(Debug, Clone, Copy, PartialEq, Eq, Structural)]
pub enum Control {
    /// The label of a tool.
    Tool(Tools),
    /// Take back the last step.
    Undo,
    /// Repeat a step that was taken back.
    Redo,
    /// Put the image on the clipboard.
    Copy,
    /// Write the image to the configured file.
    Save,
    /// Show or hide the settings.
    Settings,
    /// A capture in the menu of recent ones.
    Recent(usize),
    /// Cut the image down.
    ApplyCrop,
    /// A colour of the palette.
    Color(usize),
    /// A size, by its place in the list.
    Size(usize),
    /// Fill shapes, or do not.
    Fill(bool),
    /// Show the whole image.
    Fit,
    /// Show one pixel of the image as one of the screen.
    ActualSize,
}

/// What a click on a control comes to.
#[derive(Debug, Clone, Copy, PartialEq, Eq, Structural)]
pub enum Clicked {
    /// Nothing.
    Nothing,
    /// Change tools.
    Tool(Tools),
    /// What a shortcut does.
    Shortcut(Shortcut),
    /// Copy a remembered capture again.
    Recopy(usize),
    /// Draw in this size.
    Size(usize),
    /// Fill shapes, or do not.
    Fill(bool),
    /// Show one pixel of the image as one of the screen.
    ActualSize,
}

/// A colour.
#[derive(Debug, Clone, Copy, PartialEq, Eq, Structural)]
pub struct Color {
    /// Red.
    pub red: u8,
    /// Green.
    pub green: u8,
    /// Blue.
    pub blue: u8,
    /// Opacity.
    pub alpha: u8,
}

/// What is drawn with at the moment.
#[derive(Debug, Clone, Copy, PartialEq, Eq, Structural)]
pub struct DrawingStyle {
    /// The colour.
    pub color: Color,
    /// The size, by its place in the list.
    pub size: usize,
    /// Shapes are filled.
    pub fill: bool,
}

/// What the toolbars offer.
#[derive(Debug)]
pub struct Toolbars {
    /// The button that takes back a step works.
    pub undo: bool,
    /// The button that repeats a step works.
    pub redo: bool,
    /// The menu of recent captures; there is none without an entry.
    pub recent: Vec<(usize, String)>,
    /// There is a button that cuts the image down.
    pub apply_crop: bool,
    /// The colours, the sizes and the fill work.
    pub style: bool,
    /// The message beside them.
    pub message: Option<String>,
}

impl Toolbars {
    /// The control is there, and it works.
    pub open spec fn offers(self, control: Control) -> bool {
        match control {
            Control::Undo => self.undo,
            Control::Redo => self.redo,
            Control::Recent(i) => i < self.recent@.len(),
            Control::ApplyCrop => self.apply_crop,
            Control::Color(_) => self.style,
            Control::Size(_) => self.style,
            Control::Fill(_) => self.style,
            _ => true,
        }
    }

    /// What a click on a control comes to.
    pub fn click(&self, control: Control) -> (clicked: Clicked)
        ensures
            clicked == (if self.offers(control) {
                effect(control)
            } else {
                Clicked::Nothing
            }),
    {
        let works = match control {
            Control::Undo => self.undo,
            Control::Redo => self.redo,
            Control::Recent(i) => i < self.recent.len(),
            Control::ApplyCrop => self.apply_crop,
            Control::Color(_) | Control::Size(_) | Control::Fill(_) => self.style,
            _ => true,
        };
        if !works {
            return Clicked::Nothing;
        }
        match control {
            Control::Tool(kind) => Clicked::Tool(kind),
            Control::Undo => Clicked::Shortcut(Shortcut::Undo),
            Control::Redo => Clicked::Shortcut(Shortcut::Redo),
            Control::Copy => Clicked::Shortcut(Shortcut::Perform(Action::SaveToClipboard)),
            Control::Save => Clicked::Shortcut(Shortcut::Perform(Action::SaveToFile)),
            Control::Settings => Clicked::Shortcut(Shortcut::ToggleSettings),
            Control::Recent(i) => Clicked::Recopy(i),
            Control::ApplyCrop => Clicked::Shortcut(Shortcut::ApplyCrop),
            Control::Color(i) => Clicked::Shortcut(Shortcut::PickColor(i)),
            Control::Size(i) => Clicked::Size(i),
            Control::Fill(on) => Clicked::Fill(on),
            Control::Fit => Clicked::Shortcut(Shortcut::Fit),
            Control::ActualSize => Clicked::ActualSize,
        }
    }
}

/// What a control that works does.
pub open spec fn effect(control: Control) -> Clicked {
    match control {
        Control::Tool(kind) => Clicked::Tool(kind),
        Control::Undo => Clicked::Shortcut(Shortcut::Undo),
        Control::Redo => Clicked::Shortcut(Shortcut::Redo),
        Control::Copy => Clicked::Shortcut(Shortcut::Perform(Action::SaveToClipboard)),
        Control::Save => Clicked::Shortcut(Shortcut::Perform(Action::SaveToFile)),
        Control::Settings => Clicked::Shortcut(Shortcut::ToggleSettings),
        Control::Recent(i) => Clicked::Recopy(i),
        Control::ApplyCrop => Clicked::Shortcut(Shortcut::ApplyCrop),
        Control::Color(i) => Clicked::Shortcut(Shortcut::PickColor(i)),
        Control::Size(i) => Clicked::Size(i),
        Control::Fill(on) => Clicked::Fill(on),
        Control::Fit => Clicked::Shortcut(Shortcut::Fit),
        Control::ActualSize => Clicked::ActualSize,
    }
}

/// A step of an annotation across the image, in pixels.
#[derive(Debug, Clone, Copy, PartialEq, Eq, Structural)]
pub struct Step {
    /// To the right.
    pub dx: i128,
    /// Downwards.
    pub dy: i128,
}

/// How far the way `to` goes beyond the way `from`.
pub open spec fn step_between(from: Vec2D, to: Vec2D) -> Step {
    Step { dx: (to.x - from.x) as i128, dy: (to.y - from.y) as i128 }
}

fn step_from(from: Vec2D, to: Vec2D) -> (step: Step)
    ensures
        step == step_between(from, to),
        step.dx == to.x - from.x,
        step.dy == to.y - from.y,
{
    Step { dx: to.x as i128 - from.x as i128, dy: to.y as i128 - from.y as i128 }
}

/// What the pointer tool does to the document for one event.
#[derive(Debug, Clone, Copy, PartialEq, Eq)]
pub struct Edit {
    /// The event was for the pointer tool.
    pub consumed: bool,
    /// Move this annotation now.
    pub nudge: Option<(usize, Step)>,
    /// Record a whole move as one step that can be taken back.
    pub record: Option<(usize, Vec2D)>,
}

/// What one frame of pointer input comes to.
#[derive(Debug, Clone, Copy, PartialEq, Eq, Structural)]
pub struct PointerActions {
    /// The wheel zooms.
    pub zoom: bool,
    /// The wheel scrolls.
    pub scroll: bool,
    /// Give up the gesture in progress.
    pub cancel: bool,
    /// The view follows the pointer.
    pub pan: bool,
    /// Tell the tool of the button going down.
    pub press: bool,
    /// Tell the tool of the button going up.
    pub release: bool,
    /// Tell the tool of the movement.
    pub motion: bool,
}

/// The pointer input of one frame.
#[derive(Debug, Clone, Copy, PartialEq, Eq, Structural)]
pub struct PointerInput {
    /// The pointer is somewhere.
    pub present: bool,
    /// The main button went down.
    pub pressed: bool,
    /// The main button went up.
    pub released: bool,
    /// The middle button is down.
    pub middle_down: bool,
    /// The pointer moved.
    pub moved: bool,
    /// The wheel turned up or down.
    pub wheel_vertical: bool,
    /// The wheel turned to a side.
    pub wheel_horizontal: bool,
    /// Control is down.
    pub ctrl: bool,
    /// The pointer is over the image.
    pub hovered: bool,
    /// A gesture is in progress.
    pub held: bool,
}

impl PointerInput {
    /// The input is for the image.
    pub open spec fn over_canvas(self) -> bool {
        self.hovered || self.held
    }
}

/// What a frame of pointer input comes to. Press and release are told
/// independently, because a click that starts and ends between two frames brings
/// both at once: dropping the release would leave a drag that follows the pointer
/// with no button down.
pub open spec fn pointer_actions(input: PointerInput, panning: bool) -> PointerActions {
    let wheel = input.wheel_vertical || input.wheel_horizontal;
    let zoom = input.wheel_vertical && input.ctrl;
    PointerActions {
        zoom: input.present && zoom,
        scroll: input.present && wheel && !zoom,
        cancel: input.present && input.middle_down && !panning,
        pan: input.present && input.middle_down,
        press: input.present && !input.middle_down && input.pressed && input.over_canvas(),
        release: input.present && !input.middle_down && input.released,
        motion: input.present && !input.middle_down && !input.released && !input.pressed
            && input.moved && input.over_canvas(),
    }
}

/// What is to be done with the finished image.
#[derive(Debug, Clone, Copy, PartialEq, Eq, Structural)]
pub enum Work {
    /// Nothing.
    Rest,
    /// Put it on the clipboard.
    Copy,
    /// Write it to the configured file.
    Save,
    /// Ask where to write it.
    SaveAs,
}

/// The steps of changing tools, in order.
#[derive(Debug, Clone, Copy, PartialEq, Eq, Structural)]
pub enum ToolChange {
    /// Tell the old tool that it is put away, and keep what it commits.
    PutAway,
    /// Take up the new tool.
    TakeUp(Tools),
    /// Number the markers on from the document.
    NumberMarkers,
    /// Tell the new tool that it is in use.
    Activate,
}

/// The editor.
#[derive(Debug)]
pub struct Editor {
    /// The screenshot without annotations. Crops replace it wholesale.
    pub base: RgbaImage,
    /// The tool in use.
    pub tool_kind: Tools,
    /// Which committed annotation is picked.
    pub selected: Option<usize>,
    /// How far it has been dragged so far.
    pub drag_total: Vec2D,
    /// A pan with the middle button is in progress.
    pub panning: bool,
    /// The toolbars are shown.
    pub show_toolbars: bool,
    /// The settings window.
    pub settings: SettingsWindow,
    /// The settings window changed the configuration.
    pub config_changed: bool,
    /// The strings of the user interface.
    pub strings: Catalog,
    /// Where the last successful save went.
    pub last_saved: Option<String>,
    /// The status message.
    pub status: Option<String>,
    /// What the process should do next.
    pub outcome: Outcome,
    /// The document changed since it was last drawn.
    pub scene_dirty: bool,
}

/// The status line says exactly this.
pub open spec fn says(status: Option<String>, text: Seq<char>) -> bool {
    status matches Some(s) && s@ == text
}

impl Editor {
    /// An editor for an image.
    pub fn new(config: &Config, base: RgbaImage, strings: Catalog) -> (editor: Editor)
        ensures
            editor.base == base,
            editor.tool_kind == config.initial_tool,
            editor.selected is None,
            editor.drag_total == (Vec2D { x: 0, y: 0 }),
            !editor.panning,
            editor.show_toolbars == !config.hide_toolbars,
            !editor.settings.open,
            !editor.config_changed,
            editor.strings == strings,
            editor.last_saved is None,
            editor.status is None,
            editor.outcome == Outcome::Continue,
            editor.scene_dirty,
    {
        Editor {
            base,
            tool_kind: config.initial_tool,
            selected: None,
            drag_total: Vec2D::new(0, 0),
            panning: false,
            show_toolbars: !config.hide_toolbars,
            settings: SettingsWindow::new(),
            config_changed: false,
            strings,
            last_saved: None,
            status: None,
            outcome: Outcome::Continue,
            scene_dirty: true,
        }
    }

    /// What the process should do next.
    pub fn outcome(&self) -> (outcome: Outcome)
        ensures
            outcome == self.outcome,
    {
        self.outcome
    }

    /// The screenshot without annotations.
    pub fn base_image(&self) -> (image: &RgbaImage)
        ensures
            *image == self.base,
    {
        &self.base
    }

    /// Did the settings window change the configuration since this was last
    /// asked?
    pub fn take_config_change(&mut self) -> (changed: bool)
        ensures
            changed == old(self).config_changed,
            *final(self) == (Editor { config_changed: false, ..*old(self) }),
    {
        let changed = self.config_changed;
        self.config_changed = false;
        changed
    }

    /// The settings window changed the configuration: take over what shows, and
    /// say what the tool in use is to draw with from now on.
    pub fn settings_changed(&mut self, config: &Config) -> (style: StyleDefaults)
        ensures
            *final(self) == (Editor {
                config_changed: true,
                show_toolbars: !config.hide_toolbars,
                ..*old(self)
            }),
            style.annotation_scale_bits == config.annotation_scale_bits,
            style.round_caps == config.default_round_caps,
    {
        self.config_changed = true;
        self.show_toolbars = !config.hide_toolbars;
        StyleDefaults {
            annotation_scale_bits: config.annotation_scale_bits,
            round_caps: config.default_round_caps,
        }
    }

    /// Show a message.
    pub fn set_status(&mut self, message: &str)
        ensures
            says(final(self).status, message@),
            *final(self) == (Editor { status: final(self).status, ..*old(self) }),
    {
        self.status = Some(message.to_owned());
    }

    /// Take the message away once it has been shown for long enough.
    pub fn expire_status(&mut self, shown_millis: u64)
        ensures
            *final(self) == (Editor {
                status: if shown_millis >= STATUS_MILLIS {
                    None
                } else {
                    old(self).status
                },
                ..*old(self)
            }),
    {
        if shown_millis >= STATUS_MILLIS {
            self.status = None;
        }
    }

    /// Change tools. The old one gets a chance to commit its work, which text
    /// relies on so that nothing typed is lost.
    pub fn set_tool(&mut self, kind: Tools) -> (steps: Vec<ToolChange>)
        ensures
            kind == old(self).tool_kind ==> steps@.len() == 0 && *final(self) == *old(self),
            kind != old(self).tool_kind ==> {
                &&& *final(self) == (Editor {
                    tool_kind: kind,
                    selected: None,
                    drag_total: Vec2D { x: 0, y: 0 },
                    ..*old(self)
                })
                &&& steps@ == (if kind == Tools::Marker {
                    seq![
                        ToolChange::PutAway,
                        ToolChange::TakeUp(kind),
                        ToolChange::NumberMarkers,
                        ToolChange::Activate,
                    ]
                } else {
                    seq![ToolChange::PutAway, ToolChange::TakeUp(kind), ToolChange::Activate]
                })
            },
    {
        let mut steps: Vec<ToolChange> = Vec::new();
        if kind == self.tool_kind {
            return steps;
        }
        steps.push(ToolChange::PutAway);
        self.tool_kind = kind;
        self.selected = None;
        self.drag_total = Vec2D::new(0, 0);
        steps.push(ToolChange::TakeUp(kind));
        if kind == Tools::Marker {
            steps.push(ToolChange::NumberMarkers);
        }
        steps.push(ToolChange::Activate);
        assert(steps@ =~= (if kind == Tools::Marker {
            seq![
                ToolChange::PutAway,
                ToolChange::TakeUp(kind),
                ToolChange::NumberMarkers,
                ToolChange::Activate,
            ]
        } else {
            seq![ToolChange::PutAway, ToolChange::TakeUp(kind), ToolChange::Activate]
        }));
        steps
    }

    /// The tool in use numbers markers, and has to be told where the document
    /// stands whenever that changes.
    pub open spec fn numbers_markers(self) -> bool {
        self.tool_kind == Tools::Marker
    }

    /// A tool committed an annotation. Says whether the markers are to be
    /// numbered on from the document.
    pub fn committed(&mut self) -> (renumber: bool)
        ensures
            *final(self) == (Editor { scene_dirty: true, ..*old(self) }),
            renumber == old(self).numbers_markers(),
    {
        self.scene_dirty = true;
        self.tool_kind == Tools::Marker
    }

    /// The selection that survives in a document of `annotations` annotations.
    pub open spec fn surviving(self, annotations: nat) -> Option<usize> {
        match self.selected {
            Some(i) if i < annotations => self.selected,
            _ => None,
        }
    }

    /// The editor after the document changed wholesale: the selected annotation
    /// may be gone.
    pub open spec fn refreshed(self, annotations: nat) -> Editor {
        Editor { scene_dirty: true, selected: self.surviving(annotations), ..self }
    }

    fn after_document_change(&mut self, annotations: usize)
        ensures
            *final(self) == old(self).refreshed(annotations as nat),
    {
        self.scene_dirty = true;
        match self.selected {
            Some(i) => {
                if i >= annotations {
                    self.selected = None;
                }
            },
            None => {},
        }
    }

    /// `after` is the editor with a document that changed, and a message.
    pub open spec fn is_changed(self, after: Editor, annotations: nat, key: Seq<char>) -> bool {
        &&& says(after.status, self.strings.text_for(key))
        &&& after == (Editor { status: after.status, ..self.refreshed(annotations) })
    }

    /// Undoing was tried; `changed` says whether there was something to undo.
    /// Says whether the markers are to be numbered on from the document, so that
    /// neither gaps nor repeats are left.
    pub fn undone(&mut self, changed: bool, annotations: usize) -> (renumber: bool)
        ensures
            renumber == (changed && old(self).numbers_markers()),
            !changed ==> *final(self) == *old(self),
            changed ==> old(self).is_changed(
                *final(self),
                annotations as nat,
                "status.undo"@,
            ),
    {
        if changed {
            self.after_document_change(annotations);
            let message = self.strings.get("status.undo");
            self.set_status(message);
        }
        changed && self.tool_kind == Tools::Marker
    }

    /// Redoing was tried; `changed` says whether there was something to redo.
    /// Says whether the markers are to be numbered on from the document.
    pub fn redone(&mut self, changed: bool, annotations: usize) -> (renumber: bool)
        ensures
            renumber == (changed && old(self).numbers_markers()),
            !changed ==> *final(self) == *old(self),
            changed ==> old(self).is_changed(
                *final(self),
                annotations as nat,
                "status.redo"@,
            ),
    {
        if changed {
            self.after_document_change(annotations);
            let message = self.strings.get("status.redo");
            self.set_status(message);
        }
        changed && self.tool_kind == Tools::Marker
    }

    /// Every annotation was removed. Says whether the markers are to be numbered
    /// on from the document.
    pub fn reset(&mut self) -> (renumber: bool)
        ensures
            renumber == old(self).numbers_markers(),
            old(self).is_changed(*final(self), 0, "status.cleared"@),
            final(self).selected is None,
    {
        self.after_document_change(0);
        let message = self.strings.get("status.cleared");
        self.set_status(message);
        self.tool_kind == Tools::Marker
    }

    /// Cut the image down to the crop tool's selection. `cropped` is the size of
    /// the document after it was cropped to the selection, or `None` where it
    /// refused.
    pub fn apply_crop(
        &mut self,
        selection: Option<Rect>,
        cropped: Option<(u32, u32)>,
        annotations: usize,
    )
        requires
            old(self).base.wf(),
        ensures
            final(self).base.wf(),
            old(self).tool_kind != Tools::Crop ==> *final(self) == *old(self),
            old(self).tool_kind == Tools::Crop && selection is None ==> says(
                final(self).status,
                old(self).strings.text_for("status.nothing_to_crop"@),
            ) && *final(self) == (Editor { status: final(self).status, ..*old(self) }),
            old(self).tool_kind == Tools::Crop && selection is Some && cropped is None
                ==> *final(self) == *old(self),
            old(self).tool_kind == Tools::Crop && selection is Some && cropped is Some ==> {
                let (width, height) = cropped->Some_0;
                &&& crate::picture::is_part(
                    final(self).base,
                    old(self).base,
                    crate::picture::crop_area(old(self).base.area(), selection->Some_0),
                )
                &&& says(
                    final(self).status,
                    "Cropped to "@ + crate::text::decimal_text(width as nat) + "×"@
                        + crate::text::decimal_text(height as nat),
                )
                &&& *final(self) == (Editor {
                    base: final(self).base,
                    status: final(self).status,
                    ..old(self).refreshed(annotations as nat)
                })
            },
    {
        if self.tool_kind != Tools::Crop {
            return;
        }
        let rect = match selection {
            Some(rect) => rect,
            None => {
                let message = self.strings.get("status.nothing_to_crop");
                self.set_status(message);
                return;
            },
        };
        let (width, height) = match cropped {
            Some(size) => size,
            None => {
                return;
            },
        };
        self.base = crop_image(&self.base, rect);
        self.after_document_change(annotations);
        let mut message = joined("Cropped to ", decimal(width as u64).as_str());
        message.append("×");
        message.append(decimal(height as u64).as_str());
        self.set_status(message.as_str());
    }

    /// What the pointer tool does to the document for an event at `delta` from
    /// where the gesture began.
    pub open spec fn edit_for(self, kind: PointerKind, delta: Vec2D) -> Edit {
        let step = step_between(self.drag_total, delta);
        match kind {
            PointerKind::Press => Edit { consumed: true, nudge: None, record: None },
            PointerKind::Click => Edit { consumed: true, nudge: None, record: None },
            PointerKind::Drag => match self.selected {
                Some(i) => Edit { consumed: true, nudge: Some((i, step)), record: None },
                None => Edit { consumed: false, nudge: None, record: None },
            },
            PointerKind::EndDrag => match self.selected {
                Some(i) => Edit {
                    consumed: true,
                    nudge: if step.dx == 0 && step.dy == 0 {
                        None
                    } else {
                        Some((i, step))
                    },
                    record: Some((i, delta)),
                },
                None => Edit { consumed: true, nudge: None, record: None },
            },
            PointerKind::Motion => Edit { consumed: false, nudge: None, record: None },
        }
    }

    /// What the pointer tool does to the document for an event. An annotation is
    /// nudged live, and the whole gesture is recorded once, on release, so that
    /// a drag is a single step to take back.
    pub fn plan_edit(&self, kind: PointerKind, delta: Vec2D) -> (edit: Edit)
        ensures
            edit == self.edit_for(kind, delta),
    {
        let nothing = Edit { consumed: true, nudge: None, record: None };
        match kind {
            PointerKind::Press | PointerKind::Click => nothing,
            PointerKind::Drag => match self.selected {
                Some(i) => {
                    let step = step_from(self.drag_total, delta);
                    Edit { consumed: true, nudge: Some((i, step)), record: None }
                },
                None => Edit { consumed: false, nudge: None, record: None },
            },
            PointerKind::EndDrag => match self.selected {
                Some(i) => {
                    let step = step_from(self.drag_total, delta);
                    let nudge = if step.dx == 0 && step.dy == 0 {
                        None
                    } else {
                        Some((i, step))
                    };
                    Edit { consumed: true, nudge, record: Some((i, delta)) }
                },
                None => nothing,
            },
            PointerKind::Motion => Edit { consumed: false, nudge: None, record: None },
        }
    }

    /// The editor once an event of the pointer tool has been dealt with: `hit` is
    /// the annotation under the pointer, and `nudged` whether the document took
    /// the nudge.
    pub open spec fn after_edit(
        self,
        kind: PointerKind,
        delta: Vec2D,
        hit: Option<usize>,
        nudged: bool,
    ) -> Editor {
        let start = Vec2D { x: 0, y: 0 };
        match kind {
            PointerKind::Press => Editor { selected: hit, drag_total: start, ..self },
            PointerKind::Click => Editor { selected: hit, drag_total: start, ..self },
            PointerKind::Drag => if self.selected is Some && nudged {
                Editor { drag_total: delta, scene_dirty: true, ..self }
            } else {
                self
            },
            PointerKind::EndDrag => Editor {
                drag_total: start,
                scene_dirty: self.scene_dirty || self.selected is Some,
                ..self
            },
            PointerKind::Motion => self,
        }
    }

    /// Take in that an event of the pointer tool has been dealt with.
    pub fn settle_edit(
        &mut self,
        kind: PointerKind,
        delta: Vec2D,
        hit: Option<usize>,
        nudged: bool,
    )
        ensures
            *final(self) == old(self).after_edit(kind, delta, hit, nudged),
    {
        match kind {
            PointerKind::Press | PointerKind::Click => {
                self.selected = hit;
                self.drag_total = Vec2D::new(0, 0);
            },
            PointerKind::Drag => {
                if self.selected.is_some() && nudged {
                    self.drag_total = delta;
                    self.scene_dirty = true;
                }
            },
            PointerKind::EndDrag => {
                if self.selected.is_some() {
                    self.scene_dirty = true;
                }
                self.drag_total = Vec2D::new(0, 0);
            },
            PointerKind::Motion => {},
        }
    }

    /// The annotation to delete, or a message that there is none.
    pub fn plan_delete(&mut self) -> (index: Option<usize>)
        ensures
            index == old(self).selected,
            index is Some ==> *final(self) == *old(self),
            index is None ==> says(
                final(self).status,
                old(self).strings.text_for("status.nothing_selected"@),
            ) && *final(self) == (Editor { status: final(self).status, ..*old(self) }),
    {
        match self.selected {
            Some(i) => Some(i),
            None => {
                let message = self.strings.get("status.nothing_selected");
                self.set_status(message);
                None
            },
        }
    }

    /// Deleting was tried; `removed` says whether the document took it. Says
    /// whether the markers are to be numbered on from the document.
    pub fn deleted(&mut self, removed: bool) -> (renumber: bool)
        ensures
            renumber == (removed && old(self).numbers_markers()),
            !removed ==> *final(self) == *old(self),
            removed ==> old(self).is_changed(
                *final(self),
                0,
                "status.deleted"@,
            ),
            removed ==> final(self).selected is None,
    {
        if removed {
            self.after_document_change(0);
            let message = self.strings.get("status.deleted");
            self.set_status(message);
        }
        removed && self.tool_kind == Tools::Marker
    }

    /// What a key means to the application.
    pub open spec fn shortcut(
        self,
        key: WindowKey,
        mods: Modifiers,
        macos: bool,
        tool: ToolState,
        config: Config,
    ) -> Shortcut {
        if mods.accelerates(macos) {
            accelerated(key, mods)
        } else {
            plain(
                key,
                mods,
                self.tool_kind,
                tool,
                config.action_on_enter,
                config.action_on_escape,
            )
        }
    }

    /// What a key means to the application. Anything but [`Shortcut::Pass`] must
    /// not reach the tool.
    pub fn handle_accelerator(
        &self,
        key: WindowKey,
        mods: Modifiers,
        macos: bool,
        tool: ToolState,
        config: &Config,
    ) -> (shortcut: Shortcut)
        ensures
            shortcut == self.shortcut(key, mods, macos, tool, *config),
    {
        if mods.command(macos) {
            return match key {
                WindowKey::Z => {
                    if mods.shift {
                        Shortcut::Redo
                    } else {
                        Shortcut::Undo
                    }
                },
                WindowKey::Y => Shortcut::Redo,
                WindowKey::C => {
                    if mods.alt {
                        Shortcut::CopyPath
                    } else {
                        Shortcut::Perform(Action::SaveToClipboard)
                    }
                },
                WindowKey::S => {
                    if mods.shift {
                        Shortcut::Perform(Action::SaveAs)
                    } else {
                        Shortcut::Perform(Action::SaveToFile)
                    }
                },
                WindowKey::T => Shortcut::ToggleToolbars,
                WindowKey::Comma => Shortcut::ToggleSettings,
                WindowKey::Plus | WindowKey::Equals => Shortcut::ZoomIn,
                WindowKey::Minus => Shortcut::ZoomOut,
                WindowKey::Digit(0) => Shortcut::Fit,
                _ => Shortcut::Pass,
            };
        }
        let typing = tool.active && tool.wants_text;
        let pointing = self.tool_kind == Tools::Pointer;
        match key {
            WindowKey::Escape => {
                if tool.active {
                    return Shortcut::Dismiss;
                }
                return Shortcut::Perform(config.action_on_escape);
            },
            WindowKey::Enter => {
                if typing {
                    return Shortcut::Pass;
                }
                if self.tool_kind == Tools::Crop {
                    return Shortcut::ApplyCrop;
                }
                return Shortcut::Perform(config.action_on_enter);
            },
            WindowKey::Delete => {
                if mods.shift {
                    return Shortcut::Reset;
                }
                if pointing {
                    return Shortcut::DeleteSelected;
                }
            },
            WindowKey::Backspace => {
                if pointing {
                    return Shortcut::DeleteSelected;
                }
            },
            _ => {},
        }
        match digit_index(key) {
            Some(i) => {
                if typing {
                    Shortcut::Pass
                } else {
                    Shortcut::PickColor(i)
                }
            },
            None => Shortcut::Pass,
        }
    }

    /// Where an event of the keyboard goes. Characters arrive as text, which
    /// only a tool that takes text is handed.
    pub open spec fn key_route(
        self,
        input: KeyInput,
        macos: bool,
        tool: ToolState,
        config: Config,
    ) -> KeyRoute {
        match input {
            KeyInput::Pressed(key, mods) => {
                let shortcut = self.shortcut(key, mods, macos, tool, config);
                if shortcut != Shortcut::Pass {
                    KeyRoute::Application(shortcut)
                } else {
                    match core_key(key) {
                        Some(k) => KeyRoute::Tool(k, mods),
                        None => KeyRoute::Nowhere,
                    }
                }
            },
            KeyInput::Released => KeyRoute::Nowhere,
            KeyInput::Typed => if tool.wants_text {
                KeyRoute::ToolText
            } else {
                KeyRoute::Nowhere
            },
        }
    }

    /// Where an event of the keyboard goes.
    pub fn handle_key(&self, input: KeyInput, macos: bool, tool: ToolState, config: &Config) -> (
        route: KeyRoute)
        ensures
            route == self.key_route(input, macos, tool, *config),
    {
        match input {
            KeyInput::Pressed(key, mods) => {
                let shortcut = self.handle_accelerator(key, mods, macos, tool, config);
                if shortcut != Shortcut::Pass {
                    return KeyRoute::Application(shortcut);
                }
                match to_core_key(key) {
                    Some(k) => KeyRoute::Tool(k, mods),
                    None => KeyRoute::Nowhere,
                }
            },
            KeyInput::Released => KeyRoute::Nowhere,
            KeyInput::Typed => {
                if tool.wants_text {
                    KeyRoute::ToolText
                } else {
                    KeyRoute::Nowhere
                }
            },
        }
    }

    /// The pointer tool edits what is already there, and every other tool draws:
    /// what the pointer tool does for an event, or `None` where the event goes
    /// to a tool that draws.
    pub fn dispatch_mouse(&self, kind: PointerKind, delta: Vec2D) -> (edit: Option<Edit>)
        ensures
            edit == (if self.tool_kind == Tools::Pointer {
                Some(self.edit_for(kind, delta))
            } else {
                None
            }),
    {
        if self.tool_kind == Tools::Pointer {
            Some(self.plan_edit(kind, delta))
        } else {
            None
        }
    }

    /// Are the previews of obscured parts to be brought up to date before the
    /// image is drawn? They are when the document changed, when the tool shows
    /// one that it has not committed, and while any are held.
    pub fn refresh_effects(&mut self, previewing: bool, held: bool) -> (refresh: bool)
        ensures
            refresh == (old(self).scene_dirty || previewing || held),
            *final(self) == (Editor { scene_dirty: false, ..*old(self) }),
    {
        let refresh = self.scene_dirty || previewing || held;
        self.scene_dirty = false;
        refresh
    }

    /// The message is still to be shown.
    pub open spec fn shows_message(self, shown_millis: u64) -> bool {
        self.status is Some && shown_millis < STATUS_MILLIS
    }

    /// What the toolbars offer, unless they are hidden. `uses_style` says
    /// whether the tool in use draws in the chosen colour and size, and
    /// `shown_millis` how long the message has been shown.
    pub fn toolbars(
        &self,
        document: DocumentState,
        uses_style: bool,
        history: &History,
        shown_millis: u64,
    ) -> (bars: Option<Toolbars>)
        ensures
            bars is Some == self.show_toolbars,
            bars matches Some(b) ==> {
                &&& b.undo == document.can_undo
                &&& b.redo == document.can_redo
                &&& lists_recent(b.recent@, history@)
                &&& b.apply_crop == (self.tool_kind == Tools::Crop)
                &&& b.style == uses_style
                &&& if self.shows_message(shown_millis) {
                    says(b.message, self.status->Some_0@)
                } else {
                    b.message is None
                }
            },
    {
        if !self.show_toolbars {
            return None;
        }
        let message = match &self.status {
            Some(text) => {
                if shown_millis < STATUS_MILLIS {
                    Some(text.as_str().to_owned())
                } else {
                    None
                }
            },
            None => None,
        };
        Some(
            Toolbars {
                undo: document.can_undo,
                redo: document.can_redo,
                recent: recent_labels(history),
                apply_crop: self.tool_kind == Tools::Crop,
                style: uses_style,
                message,
            },
        )
    }

    /// A control is shown as the one in use: the tool in use, and the colours,
    /// the size and the fill that are drawn with.
    pub open spec fn marks(self, control: Control, style: DrawingStyle, palette: Seq<Color>) -> bool {
        match control {
            Control::Tool(kind) => kind == self.tool_kind,
            Control::Color(i) => i < palette.len() && palette[i as int] == style.color,
            Control::Size(i) => i == style.size,
            Control::Fill(on) => on == style.fill,
            _ => false,
        }
    }

    /// Is a control shown as the one in use?
    pub fn is_current(&self, control: Control, style: DrawingStyle, palette: &[Color]) -> (yes: bool)
        ensures
            yes == self.marks(control, style, palette@),
    {
        match control {
            Control::Tool(kind) => kind == self.tool_kind,
            Control::Color(i) => i < palette.len() && palette[i] == style.color,
            Control::Size(i) => i == style.size,
            Control::Fill(on) => on == style.fill,
            _ => false,
        }
    }

    /// Show or hide the toolbars.
    pub fn toggle_toolbars(&mut self)
        ensures
            *final(self) == (Editor { show_toolbars: !old(self).show_toolbars, ..*old(self) }),
    {
        self.show_toolbars = !self.show_toolbars;
    }

    /// What a frame of pointer input comes to. A pan with the middle button
    /// gives up any gesture in progress when it starts.
    pub fn handle_pointer(&mut self, input: PointerInput) -> (actions: PointerActions)
        ensures
            actions == pointer_actions(input, old(self).panning),
            *final(self) == (Editor {
                panning: if input.present {
                    input.middle_down
                } else {
                    old(self).panning
                },
                ..*old(self)
            }),
    {
        let zoom = input.wheel_vertical && input.ctrl;
        let wheel = input.wheel_vertical || input.wheel_horizontal;
        let over = input.hovered || input.held;
        let live = input.present && !input.middle_down;
        let actions = PointerActions {
            zoom: input.present && zoom,
            scroll: input.present && wheel && !zoom,
            cancel: input.present && input.middle_down && !self.panning,
            pan: input.present && input.middle_down,
            press: live && input.pressed && over,
            release: live && input.released,
            motion: live && !input.released && !input.pressed && input.moved && over,
        };
        if input.present {
            self.panning = input.middle_down;
        }
        actions
    }

    /// Start doing something with the finished image.
    pub fn perform(&mut self, action: Action) -> (work: Work)
        ensures
            work == (match action {
                Action::SaveToClipboard => Work::Copy,
                Action::SaveToFile => Work::Save,
                Action::SaveAs => Work::SaveAs,
                _ => Work::Rest,
            }),
            *final(self) == (Editor {
                outcome: if action == Action::Exit {
                    Outcome::Quit
                } else {
                    old(self).outcome
                },
                ..*old(self)
            }),
    {
        match action {
            Action::Nothing => Work::Rest,
            Action::Exit => {
                self.outcome = Outcome::Quit;
                Work::Rest
            },
            Action::SaveToClipboard => Work::Copy,
            Action::SaveToFile => Work::Save,
            Action::SaveAs => Work::SaveAs,
        }
    }

    /// The outcome once an image has been saved or copied.
    pub open spec fn outcome_after_output(self, config: Config) -> Outcome {
        if config.early_exit {
            Outcome::Quit
        } else {
            self.outcome
        }
    }

    fn maybe_exit(&mut self, config: &Config)
        ensures
            *final(self) == (Editor {
                outcome: old(self).outcome_after_output(*config),
                ..*old(self)
            }),
    {
        if config.early_exit {
            self.outcome = Outcome::Quit;
        }
    }

    /// `after` and `next` are what trying to copy the image comes to: the editor,
    /// and what is announced and what is to be done next.
    pub open spec fn is_copied(
        self,
        after: Editor,
        config: Config,
        result: Result<(), OutputError>,
        next: (Option<Notice>, Work),
    ) -> bool {
        match result {
            Ok(_) => {
                &&& says(
                    after.status,
                    self.strings.text_for("status.copied"@),
                )
                &&& config.disable_notifications ==> next.0 is None
                &&& !config.disable_notifications ==> (next.0 matches Some(n) && n.says(
                    "Screenshot copied"@,
                    "The image is on the clipboard."@,
                ))
                &&& next.1 == (if config.save_after_copy {
                    Work::Save
                } else {
                    Work::Rest
                })
                &&& after == (Editor {
                    status: after.status,
                    outcome: if config.save_after_copy {
                        self.outcome
                    } else {
                        self.outcome_after_output(config)
                    },
                    ..self
                })
            },
            Err(e) => {
                &&& says(after.status, "Copy failed: "@ + e.text())
                &&& next == (None::<Notice>, Work::Rest)
                &&& after == (Editor { status: after.status, ..self })
            },
        }
    }

    /// Copying was tried. On success the image is also saved where that is
    /// configured, and leaving is then up to the save.
    pub fn finish_copy(&mut self, config: &Config, result: Result<(), OutputError>) -> (next: (
        Option<Notice>,
        Work,
    ))
        ensures
            old(self).is_copied(*final(self), *config, result, next),
    {
        match result {
            Ok(_) => {
                let message = self.strings.get("status.copied");
                self.set_status(message);
                let notice = copied(config.disable_notifications);
                if config.save_after_copy {
                    return (notice, Work::Save);
                }
                self.maybe_exit(config);
                (notice, Work::Rest)
            },
            Err(e) => {
                let message = joined("Copy failed: ", e.message().as_str());
                self.set_status(message.as_str());
                (None, Work::Rest)
            },
        }
    }

    /// Copying the image was tried, and one that was copied is remembered as
    /// `rendered`: whatever reaches the clipboard can be copied again later.
    pub fn settle_copy(
        &mut self,
        config: &Config,
        history: &mut History,
        rendered: &RgbaImage,
        annotations: usize,
        result: Result<(), OutputError>,
    ) -> (next: (Option<Notice>, Work))
        requires
            rendered.wf(),
        ensures
            old(self).is_copied(*final(self), *config, result, next),
            result is Ok ==> is_remembered(
                *final(history),
                *old(history),
                *config,
                *rendered,
                annotations as nat,
            ),
            result is Err ==> *final(history) == *old(history),
    {
        if result.is_ok() {
            remember(config, history, rendered, annotations);
        }
        self.finish_copy(config, result)
    }

    /// Saving was tried: to the given path, or not at all because the user
    /// cancelled the dialog, which is no error and no reason to leave.
    pub fn finish_save(&mut self, config: &Config, result: Result<Option<String>, OutputError>) -> (
        notice: Option<Notice>)
        ensures
            match result {
                Ok(Some(path)) => {
                    &&& says(final(self).status, "Saved to "@ + path@)
                    &&& says(final(self).last_saved, path@)
                    &&& config.disable_notifications ==> notice is None
                    &&& !config.disable_notifications ==> (notice matches Some(n) && n.says(
                        "Screenshot saved"@,
                        path@,
                    ))
                    &&& *final(self) == (Editor {
                        status: final(self).status,
                        last_saved: final(self).last_saved,
                        outcome: old(self).outcome_after_output(*config),
                        ..*old(self)
                    })
                },
                Ok(None) => notice is None && *final(self) == *old(self),
                Err(e) => {
                    &&& says(final(self).status, "Save failed: "@ + e.text())
                    &&& notice is None
                    &&& *final(self) == (Editor { status: final(self).status, ..*old(self) })
                },
            },
    {
        match result {
            Ok(Some(path)) => {
                let message = joined("Saved to ", path.as_str());
                self.set_status(message.as_str());
                let notice = saved(config.disable_notifications, path.as_str());
                self.last_saved = Some(path);
                self.maybe_exit(config);
                notice
            },
            Ok(None) => None,
            Err(e) => {
                let message = joined("Save failed: ", e.message().as_str());
                self.set_status(message.as_str());
                None
            },
        }
    }

    /// Copying a remembered capture again was tried.
    pub fn finish_recopy(&mut self, config: &Config, entry: &Entry, result: Result<(), OutputError>) -> (
        notice: Option<Notice>)
        ensures
            *final(self) == (Editor { status: final(self).status, ..*old(self) }),
            match result {
                Ok(_) => {
                    &&& says(
                        final(self).status,
                        "Copied "@ + crate::text::decimal_text(entry.width as nat) + "×"@
                            + crate::text::decimal_text(entry.height as nat) + " again"@,
                    )
                    &&& config.disable_notifications ==> notice is None
                    &&& !config.disable_notifications ==> (notice matches Some(n) && n.says(
                        "Screenshot copied"@,
                        "The image is on the clipboard."@,
                    ))
                },
                Err(e) => says(final(self).status, "Copy failed: "@ + e.text()) && notice is None,
            },
    {
        match result {
            Ok(_) => {
                let mut message = joined("Copied ", entry.size_label().as_str());
                message.append(" again");
                assert(message@ =~= "Copied "@ + crate::text::decimal_text(entry.width as nat)
                    + "×"@ + crate::text::decimal_text(entry.height as nat) + " again"@);
                self.set_status(message.as_str());
                copied(config.disable_notifications)
            },
            Err(e) => {
                let message = joined("Copy failed: ", e.message().as_str());
                self.set_status(message.as_str());
                None
            },
        }
    }

    /// The path of the most recent save, or a message that there is none.
    pub fn plan_copy_path(&mut self) -> (path: Option<String>)
        ensures
            match path {
                Some(p) => says(old(self).last_saved, p@) && *final(self) == *old(self),
                None => {
                    &&& old(self).last_saved is None
                    &&& says(
                        final(self).status,
                        old(self).strings.text_for("status.nothing_saved"@),
                    )
                    &&& *final(self) == (Editor { status: final(self).status, ..*old(self) })
                },
            },
    {
        match &self.last_saved {
            Some(path) => {
                return Some(path.as_str().to_owned());
            },
            None => {},
        }
        let message = self.strings.get("status.nothing_saved");
        self.set_status(message);
        None
    }

    /// Copying the path was tried.
    pub fn finish_copy_path(&mut self, path: &str, result: Result<(), OutputError>)
        ensures
            says(
                final(self).status,
                match result {
                    Ok(_) => "Copied path: "@ + path@,
                    Err(e) => "Could not copy the path: "@ + e.text(),
                },
            ),
            *final(self) == (Editor { status: final(self).status, ..*old(self) }),
    {
        let message = match result {
            Ok(_) => joined("Copied path: ", path),
            Err(e) => joined("Could not copy the path: ", e.message().as_str()),
        };
        self.set_status(message.as_str());
    }
}

/// The label of a remembered capture.
pub open spec fn capture_label(width: u32, height: u32, annotations: nat) -> Seq<char> {
    crate::text::decimal_text(width as nat) + "×"@ + crate::text::decimal_text(height as nat)
        + ", "@ + crate::text::decimal_text(annotations) + " annotation(s)"@
}

/// `entry` remembers a rendered image.
pub open spec fn is_memory(entry: Entry, rendered: RgbaImage, annotations: nat) -> bool {
    &&& crate::output::is_encoded(Ok(entry.png), rendered, SaveFormat::Png)
    &&& entry.width == rendered.width
    &&& entry.height == rendered.height
    &&& entry.label@ == capture_label(rendered.width, rendered.height, annotations)
}

/// A rendered result stands first in a history that was `before`.
pub open spec fn is_recorded(
    after: History,
    before: History,
    rendered: RgbaImage,
    annotations: nat,
) -> bool {
    exists|entry: Entry| #[trigger]
        is_memory(entry, rendered, annotations) && after@ == crate::history::remembered(
            before@,
            before.limit(),
            entry,
        )
}

/// `after` is the history with a rendered result recorded. One that will not
/// encode is not recorded, and nothing is while recording is turned off.
pub open spec fn is_remembered(
    after: History,
    before: History,
    config: Config,
    rendered: RgbaImage,
    annotations: nat,
) -> bool {
    &&& after.limit() == before.limit()
    &&& if config.history_size == 0 {
        after@ == before@
    } else if crate::codec::encodable(rendered.width, rendered.height) {
        is_recorded(after, before, rendered, annotations)
    } else {
        match crate::codec::encoding(
            SaveFormat::Png,
            rendered.width,
            rendered.height,
            rendered.data@,
        ) {
            Ok(_) => is_recorded(after, before, rendered, annotations),
            Err(_) => after@ == before@,
        }
    }
}

/// Record a rendered result, so that it can be copied again later. One that will
/// not encode is not recorded, and nothing is while recording is turned off.
pub fn remember(config: &Config, history: &mut History, rendered: &RgbaImage, annotations: usize)
    requires
        rendered.wf(),
    ensures
        is_remembered(*final(history), *old(history), *config, *rendered, annotations as nat),
{
    if config.history_size == 0 {
        return;
    }
    let png = match encode(rendered, SaveFormat::Png) {
        Ok(png) => png,
        Err(_) => {
            return;
        },
    };
    let mut label = joined(decimal(rendered.width as u64).as_str(), "×");
    label.append(decimal(rendered.height as u64).as_str());
    label.append(", ");
    label.append(decimal(annotations as u64).as_str());
    label.append(" annotation(s)");
    let entry = Entry { png, width: rendered.width, height: rendered.height, label };
    assert(is_memory(entry, *rendered, annotations as nat));
    history.push(entry);
}

/// A capture that has just been remembered comes back first, with the very
/// pixels that were rendered, unless it was already the first.
pub proof fn law_a_remembered_capture_comes_back(
    before: Seq<Entry>,
    limit: nat,
    entry: Entry,
    rendered: RgbaImage,
    annotations: nat,
)
    requires
        rendered.wf(),
        crate::codec::encodable(rendered.width, rendered.height),
        limit > 0,
        is_memory(entry, rendered, annotations),
    ensures
        ({
            let after = crate::history::remembered(before, limit, entry);
            &&& after.len() > 0
            &&& after[0].png@ == entry.png@
            &&& crate::codec::holds_pixels(
                after[0].png@,
                rendered.width,
                rendered.height,
                rendered.data@,
            )
        }),
{
}

/// A successful copy is remembered: while recording is on, the capture stands
/// first in the history, with the very pixels that were copied.
pub proof fn law_a_successful_copy_is_remembered(
    after: History,
    before: History,
    config: Config,
    rendered: RgbaImage,
    annotations: nat,
)
    requires
        rendered.wf(),
        crate::codec::encodable(rendered.width, rendered.height),
        before.limit() > 0,
        config.history_size > 0,
        is_remembered(after, before, config, rendered, annotations),
    ensures
        after@.len() > 0,
        crate::codec::holds_pixels(
            after@[0].png@,
            rendered.width,
            rendered.height,
            rendered.data@,
        ),
{
    let entry = choose|entry: Entry| #[trigger]
        is_memory(entry, rendered, annotations) && after@ == crate::history::remembered(
            before@,
            before.limit(),
            entry,
        );
    law_a_remembered_capture_comes_back(before@, before.limit(), entry, rendered, annotations);
}

/// The sum of the steps of a gesture whose events were at these distances from
/// its beginning.
pub open spec fn steps_sum(deltas: Seq<Vec2D>) -> (int, int)
    decreases deltas.len(),
{
    if deltas.len() == 0 {
        (0, 0)
    } else {
        let (x, y) = steps_sum(deltas.drop_last());
        let from = if deltas.len() == 1 {
            Vec2D { x: 0, y: 0 }
        } else {
            deltas[deltas.len() - 2]
        };
        let step = step_between(from, deltas.last());
        (x + step.dx, y + step.dy)
    }
}

/// The nudges of a drag add up to the move that is recorded for it, however many
/// there were: taking that one step back restores the annotation.
pub proof fn law_nudges_add_up_to_the_recorded_move(deltas: Seq<Vec2D>)
    requires
        deltas.len() > 0,
    ensures
        steps_sum(deltas) == (deltas.last().x as int, deltas.last().y as int),
    decreases deltas.len(),
{
    reveal_with_fuel(steps_sum, 2);
    if deltas.len() > 1 {
        law_nudges_add_up_to_the_recorded_move(deltas.drop_last());
    }
}

/// While every nudge is taken, each event of a drag nudges the selected
/// annotation by the step from the event before it, and the release records the
/// whole move once.
pub proof fn law_a_drag_nudges_step_by_step(
    editor: Editor,
    index: usize,
    first: Vec2D,
    second: Vec2D,
    hit: Option<usize>,
)
    requires
        editor.selected == Some(index),
    ensures
        ({
            let after = editor.after_edit(PointerKind::Drag, first, hit, true);
            &&& after.edit_for(PointerKind::Drag, second).nudge == Some(
                (index, step_between(first, second)),
            )
            &&& after.edit_for(PointerKind::Drag, second).record is None
            &&& after.edit_for(PointerKind::EndDrag, second).record == Some((index, second))
        }),
{
}

/// The pointer tool only ever touches the selected annotation: with nothing
/// selected, no event changes the document.
pub proof fn law_nothing_selected_means_nothing_changes(
    editor: Editor,
    kind: PointerKind,
    delta: Vec2D,
)
    requires
        editor.selected is None,
    ensures
        editor.edit_for(kind, delta).nudge is None,
        editor.edit_for(kind, delta).record is None,
{
}

/// A click that starts and ends within one frame reaches the tool as a press and
/// a release.
pub proof fn law_a_quick_click_is_never_latched(input: PointerInput, panning: bool)
    requires
        input.present,
        input.pressed,
        input.released,
        !input.middle_down,
        input.over_canvas(),
    ensures
        pointer_actions(input, panning).press,
        pointer_actions(input, panning).release,
        !pointer_actions(input, panning).motion,
{
}

/// While the user is typing, keys without the shortcut modifier go to the text,
/// apart from Escape, which gives it up.
pub proof fn law_shortcuts_do_not_hijack_typing(
    editor: Editor,
    key: WindowKey,
    mods: Modifiers,
    macos: bool,
    tool: ToolState,
    config: Config,
)
    requires
        tool.typing(),
        !mods.accelerates(macos),
        editor.tool_kind != Tools::Pointer,
        key != WindowKey::Escape,
        !(key == WindowKey::Delete && mods.shift),
    ensures
        editor.shortcut(key, mods, macos, tool, config) == Shortcut::Pass,
{
}

/// The buttons do what the shortcuts do that are written on them.
pub proof fn law_buttons_do_what_their_shortcuts_do(
    editor: Editor,
    mods: Modifiers,
    macos: bool,
    tool: ToolState,
    config: Config,
)
    requires
        mods.accelerates(macos),
        !mods.shift,
        !mods.alt,
    ensures
        effect(Control::Undo) == Clicked::Shortcut(
            editor.shortcut(WindowKey::Z, mods, macos, tool, config),
        ),
        effect(Control::Redo) == Clicked::Shortcut(
            editor.shortcut(WindowKey::Y, mods, macos, tool, config),
        ),
        effect(Control::Copy) == Clicked::Shortcut(
            editor.shortcut(WindowKey::C, mods, macos, tool, config),
        ),
        effect(Control::Save) == Clicked::Shortcut(
            editor.shortcut(WindowKey::S, mods, macos, tool, config),
        ),
        effect(Control::Settings) == Clicked::Shortcut(
            editor.shortcut(WindowKey::Comma, mods, macos, tool, config),
        ),
        effect(Control::Fit) == Clicked::Shortcut(
            editor.shortcut(WindowKey::Digit(0), mods, macos, tool, config),
        ),
{
}

/// Enter does what the button of the crop tool does, and a digit what the colour
/// does that it is written on.
pub proof fn law_plain_keys_do_what_their_controls_do(
    editor: Editor,
    mods: Modifiers,
    macos: bool,
    tool: ToolState,
    config: Config,
    index: usize,
)
    requires
        !mods.accelerates(macos),
        !tool.typing(),
    ensures
        editor.tool_kind == Tools::Crop ==> effect(Control::ApplyCrop) == Clicked::Shortcut(
            editor.shortcut(WindowKey::Enter, mods, macos, tool, config),
        ),
        index < 10 ==> effect(Control::Color(index)) == Clicked::Shortcut(
            editor.shortcut(
                WindowKey::Digit(((index + 1) % 10) as u8),
                mods,
                macos,
                tool,
                config,
            ),
        ),
{
}

/// Copy a remembered capture again, if there is one under this number.
pub fn plan_recopy(history: &History, index: usize, copy_command: Option<&str>) -> (plan: Option<
    Result<CopyPlan, OutputError>,
>)
    ensures
        plan is Some == (index < history@.len()),
        plan matches Some(result) ==> crate::output::is_recopied(
            result,
            history@[index as int].png@,
            copy_command,
        ),
{
    match history.get(index) {
        Some(entry) => Some(copy_png_bytes(entry.png.as_slice(), copy_command)),
        None => None,
    }
}

/// The labels are those of the remembered captures, each with its number.
pub open spec fn lists_recent(labels: Seq<(usize, String)>, entries: Seq<Entry>) -> bool {
    &&& labels.len() == entries.len()
    &&& forall|i: int|
        0 <= i < labels.len() ==> (#[trigger] labels[i]).0 == i && labels[i].1@
            == entries[i].label@
}

/// The labels of the remembered captures, for the menu, with the number to ask
/// for each by.
pub fn recent_labels(history: &History) -> (labels: Vec<(usize, String)>)
    ensures
        lists_recent(labels@, history@),
{
    let entries = history.iter();
    let mut labels: Vec<(usize, String)> = Vec::new();
    let mut i: usize = 0;
    while i < entries.len()
        invariant
            i <= entries@.len(),
            entries@.len() == history@.len(),
            forall|j: int| 0 <= j < entries@.len() ==> *(#[trigger] entries@[j]) == history@[j],
            labels@.len() == i,
            forall|j: int|
                0 <= j < i ==> (#[trigger] labels@[j]).0 == j && labels@[j].1@
                    == history@[j].label@,
        decreases entries@.len() - i,
    {
        labels.push((i, entries[i].label.as_str().to_owned()));
        i = i + 1;
    }
    labels
}

/// The modifier of shortcuts is Command on a Mac and Control elsewhere, and no
/// other modifier counts.
pub proof fn law_the_modifier_of_shortcuts(mods: Modifiers)
    ensures
        mods.accelerates(true) == mods.meta,
        mods.accelerates(false) == mods.ctrl,
{
}

/// A tool is told of the keys that type nothing, and of the space and the signs
/// that it zooms with; each key is told as itself.
pub proof fn law_tools_are_told_of_keys_as_they_are(digit: u8)
    ensures
        core_key(WindowKey::Escape) == Some(Key::Escape),
        core_key(WindowKey::Enter) == Some(Key::Enter),
        core_key(WindowKey::Backspace) == Some(Key::Backspace),
        core_key(WindowKey::Delete) == Some(Key::Delete),
        core_key(WindowKey::Tab) == Some(Key::Tab),
        core_key(WindowKey::ArrowLeft) == Some(Key::Left),
        core_key(WindowKey::ArrowRight) == Some(Key::Right),
        core_key(WindowKey::ArrowUp) == Some(Key::Up),
        core_key(WindowKey::ArrowDown) == Some(Key::Down),
        core_key(WindowKey::Home) == Some(Key::Home),
        core_key(WindowKey::End) == Some(Key::End),
        core_key(WindowKey::PageUp) == Some(Key::PageUp),
        core_key(WindowKey::PageDown) == Some(Key::PageDown),
        core_key(WindowKey::Space) == Some(Key::Space),
        core_key(WindowKey::Plus) == Some(Key::Plus),
        core_key(WindowKey::Minus) == Some(Key::Minus),
        core_key(WindowKey::Equals) is None,
        core_key(WindowKey::Comma) is None,
        core_key(WindowKey::Digit(digit)) is None,
        core_key(WindowKey::C) is None && core_key(WindowKey::S) is None,
        core_key(WindowKey::T) is None && core_key(WindowKey::Y) is None,
        core_key(WindowKey::Z) is None && core_key(WindowKey::Other) is None,
{
}

/// The digits from one to nine pick the first nine colours, zero the tenth, and
/// nothing else picks any.
pub proof fn law_digits_pick_colours(key: WindowKey)
    ensures
        key matches WindowKey::Digit(d) ==> {
            &&& 1 <= d <= 9 ==> (palette_index(key) matches Some(i) && i + 1 == d)
            &&& d == 0 ==> (palette_index(key) matches Some(i) && i == 9)
            &&& d > 9 ==> palette_index(key) is None
        },
        !(key is Digit) ==> palette_index(key) is None,
{
}

/// What the keys mean with the modifier of shortcuts.
pub proof fn law_what_accelerated_keys_mean(
    editor: Editor,
    mods: Modifiers,
    macos: bool,
    tool: ToolState,
    config: Config,
    key: WindowKey,
)
    requires
        mods.accelerates(macos),
    ensures
        ({
            let meaning = editor.shortcut(key, mods, macos, tool, config);
            &&& key is Z && !mods.shift <==> meaning == Shortcut::Undo
            &&& key is Z && mods.shift || key is Y <==> meaning == Shortcut::Redo
            &&& key is C && !mods.alt <==> meaning == Shortcut::Perform(Action::SaveToClipboard)
            &&& key is C && mods.alt <==> meaning == Shortcut::CopyPath
            &&& key is S && !mods.shift <==> meaning == Shortcut::Perform(Action::SaveToFile)
            &&& key is S && mods.shift <==> meaning == Shortcut::Perform(Action::SaveAs)
            &&& key is T <==> meaning == Shortcut::ToggleToolbars
            &&& key is Comma <==> meaning == Shortcut::ToggleSettings
            &&& key is Plus || key is Equals <==> meaning == Shortcut::ZoomIn
            &&& key is Minus <==> meaning == Shortcut::ZoomOut
            &&& key == WindowKey::Digit(0) <==> meaning == Shortcut::Fit
            &&& !(key is Z || key is Y || key is C || key is S || key is T || key is Comma
                || key is Plus || key is Equals || key is Minus || key == WindowKey::Digit(0))
                ==> meaning == Shortcut::Pass
        }),
{
}

/// What the keys mean on their own.
pub proof fn law_what_plain_keys_mean(
    editor: Editor,
    mods: Modifiers,
    macos: bool,
    tool: ToolState,
    config: Config,
    key: WindowKey,
)
    requires
        !mods.accelerates(macos),
    ensures
        ({
            let meaning = editor.shortcut(key, mods, macos, tool, config);
            let typing = tool.active && tool.wants_text;
            let pointing = editor.tool_kind == Tools::Pointer;
            &&& key is Escape && tool.active ==> meaning == Shortcut::Dismiss
            &&& key is Escape && !tool.active ==> meaning == Shortcut::Perform(
                config.action_on_escape,
            )
            &&& key is Enter && typing ==> meaning == Shortcut::Pass
            &&& key is Enter && !typing && editor.tool_kind == Tools::Crop ==> meaning
                == Shortcut::ApplyCrop
            &&& key is Enter && !typing && editor.tool_kind != Tools::Crop ==> meaning
                == Shortcut::Perform(config.action_on_enter)
            &&& key is Delete && mods.shift ==> meaning == Shortcut::Reset
            &&& key is Delete && !mods.shift && pointing ==> meaning == Shortcut::DeleteSelected
            &&& key is Backspace && pointing ==> meaning == Shortcut::DeleteSelected
            &&& (key is Delete && !mods.shift || key is Backspace) && !pointing ==> meaning
                == Shortcut::Pass
            &&& key matches WindowKey::Digit(d) ==> {
                &&& typing || d > 9 ==> meaning == Shortcut::Pass
                &&& !typing && 1 <= d <= 9 ==> (meaning matches Shortcut::PickColor(i) && i + 1
                    == d)
                &&& !typing && d == 0 ==> meaning == Shortcut::PickColor(9)
            }
            &&& !(key is Escape || key is Enter || key is Delete || key is Backspace
                || key is Digit) ==> meaning == Shortcut::Pass
        }),
{
}

/// A key goes to the application where it means something there, and otherwise
/// to the tool, with its modifiers. Text goes to a tool that takes it, and a key
/// that goes up to nobody.
pub proof fn law_where_keys_go(
    editor: Editor,
    key: WindowKey,
    mods: Modifiers,
    macos: bool,
    tool: ToolState,
    config: Config,
)
    ensures
        ({
            let meaning = editor.shortcut(key, mods, macos, tool, config);
            let route = editor.key_route(KeyInput::Pressed(key, mods), macos, tool, config);
            &&& meaning != Shortcut::Pass ==> route == KeyRoute::Application(meaning)
            &&& meaning == Shortcut::Pass ==> match core_key(key) {
                Some(k) => route == KeyRoute::Tool(k, mods),
                None => route == KeyRoute::Nowhere,
            }
        }),
        editor.key_route(KeyInput::Released, macos, tool, config) == KeyRoute::Nowhere,
        tool.wants_text ==> editor.key_route(KeyInput::Typed, macos, tool, config)
            == KeyRoute::ToolText,
        !tool.wants_text ==> editor.key_route(KeyInput::Typed, macos, tool, config)
            == KeyRoute::Nowhere,
{
}

/// A step leads from one way to the other.
pub proof fn law_a_step_leads_from_one_way_to_the_other(from: Vec2D, to: Vec2D)
    ensures
        from.x + step_between(from, to).dx == to.x,
        from.y + step_between(from, to).dy == to.y,
{
}

/// What a frame of pointer input comes to: nothing where there is no pointer.
/// The wheel zooms with Control and scrolls without. The middle button pans, and
/// gives up what was in progress when the pan starts; while it is down the tool
/// is told nothing. The tool is told of a button that goes down, and of movement,
/// over the image or during a gesture, and of a button that goes up anywhere.
pub proof fn law_what_pointer_input_comes_to(input: PointerInput, panning: bool)
    ensures
        ({
            let a = pointer_actions(input, panning);
            let over = input.hovered || input.held;
            &&& !input.present ==> !a.zoom && !a.scroll && !a.cancel && !a.pan && !a.press
                && !a.release && !a.motion
            &&& input.present ==> {
                &&& a.zoom == (input.wheel_vertical && input.ctrl)
                &&& a.scroll == ((input.wheel_vertical && !input.ctrl) || (input.wheel_horizontal
                    && !(input.wheel_vertical && input.ctrl)))
                &&& a.pan == input.middle_down
                &&& a.cancel == (input.middle_down && !panning)
                &&& input.middle_down ==> !a.press && !a.release && !a.motion
                &&& !input.middle_down ==> {
                    &&& a.press == (input.pressed && over)
                    &&& a.release == input.released
                    &&& a.motion == (input.moved && over && !input.pressed && !input.released)
                }
            }
        }),
{
}

/// What the pointer tool does. A press or a click selects what was hit, and
/// starts over. A drag moves the selection by the way that is new. A release
/// moves it by the rest of the way, records the whole way, and starts over.
pub proof fn law_what_the_pointer_tool_does(
    editor: Editor,
    delta: Vec2D,
    hit: Option<usize>,
    nudged: bool,
)
    ensures
        ({
            let pressed = editor.after_edit(PointerKind::Press, delta, hit, nudged);
            let clicked = editor.after_edit(PointerKind::Click, delta, hit, nudged);
            let dragged = editor.after_edit(PointerKind::Drag, delta, hit, nudged);
            let ended = editor.after_edit(PointerKind::EndDrag, delta, hit, nudged);
            let drag = editor.edit_for(PointerKind::Drag, delta);
            let end = editor.edit_for(PointerKind::EndDrag, delta);
            &&& pressed.selected == hit && clicked.selected == hit
            &&& pressed.drag_total.x == 0 && pressed.drag_total.y == 0
            &&& clicked.drag_total.x == 0 && clicked.drag_total.y == 0
            &&& ended.drag_total.x == 0 && ended.drag_total.y == 0
            &&& dragged.selected == editor.selected && ended.selected == editor.selected
            &&& editor.selected is Some && nudged ==> dragged.drag_total == delta
                && dragged.scene_dirty
            &&& editor.selected is None || !nudged ==> dragged == editor
            &&& editor.selected is Some ==> ended.scene_dirty
            &&& editor.after_edit(PointerKind::Motion, delta, hit, nudged) == editor
            &&& editor.selected matches Some(i) ==> {
                &&& drag.consumed && end.consumed
                &&& (drag.nudge matches Some((at, step)) && at == i && editor.drag_total.x
                    + step.dx == delta.x && editor.drag_total.y + step.dy == delta.y)
                &&& drag.record is None
                &&& end.record == Some((i, delta))
                &&& end.nudge is None <==> editor.drag_total == delta
                &&& end.nudge matches Some((at, step)) ==> at == i && editor.drag_total.x + step.dx
                    == delta.x && editor.drag_total.y + step.dy == delta.y
            }
            &&& editor.selected is None ==> !drag.consumed && end.consumed
            &&& !editor.edit_for(PointerKind::Motion, delta).consumed
            &&& editor.edit_for(PointerKind::Press, delta).consumed
            &&& editor.edit_for(PointerKind::Click, delta).consumed
        }),
{
}

/// A selection survives a change of the document as long as its annotation does,
/// and nothing else of the editor changes but that it has to be drawn again.
pub proof fn law_selections_survive_with_their_annotations(editor: Editor, annotations: nat)
    ensures
        ({
            let after = editor.refreshed(annotations);
            &&& after.scene_dirty
            &&& editor.selected matches Some(i) ==> (i < annotations ==> after.selected
                == editor.selected)
            &&& editor.selected matches Some(i) ==> (i >= annotations ==> after.selected is None)
            &&& editor.selected is None ==> after.selected is None
            &&& after == (Editor { scene_dirty: true, selected: after.selected, ..editor })
        }),
{
}

/// A control works where it has something to work on: undo and redo where there
/// is a step, a recent capture where it is listed, cropping with the crop tool,
/// the styles with a tool that draws in them, and everything else always.
pub proof fn law_controls_work_where_there_is_something(bars: Toolbars, control: Control)
    ensures
        control is Undo ==> bars.offers(control) == bars.undo,
        control is Redo ==> bars.offers(control) == bars.redo,
        control matches Control::Recent(i) ==> bars.offers(control) == (i < bars.recent@.len()),
        control is ApplyCrop ==> bars.offers(control) == bars.apply_crop,
        control is Color || control is Size || control is Fill ==> bars.offers(control)
            == bars.style,
        control is Tool || control is Copy || control is Save || control is Settings
            || control is Fit || control is ActualSize ==> bars.offers(control),
{
}

/// What a working control does, for those that no shortcut does.
pub proof fn law_what_controls_do(kind: Tools, index: usize, on: bool)
    ensures
        effect(Control::Tool(kind)) == Clicked::Tool(kind),
        effect(Control::Recent(index)) == Clicked::Recopy(index),
        effect(Control::Color(index)) == Clicked::Shortcut(Shortcut::PickColor(index)),
        effect(Control::Size(index)) == Clicked::Size(index),
        effect(Control::Fill(on)) == Clicked::Fill(on),
        effect(Control::ActualSize) == Clicked::ActualSize,
        effect(Control::ApplyCrop) == Clicked::Shortcut(Shortcut::ApplyCrop),
{
}

/// The tool, the colour, the size and the fill in use are marked, and nothing
/// else is.
pub proof fn law_what_is_in_use_is_marked(
    editor: Editor,
    control: Control,
    style: DrawingStyle,
    palette: Seq<Color>,
)
    ensures
        control matches Control::Tool(kind) ==> (editor.marks(control, style, palette) <==> kind
            == editor.tool_kind),
        control matches Control::Color(i) ==> (i < palette.len() ==> (editor.marks(
            control,
            style,
            palette,
        ) <==> palette[i as int] == style.color)),
        control matches Control::Size(i) ==> (editor.marks(control, style, palette) <==> i
            == style.size),
        control matches Control::Fill(on) ==> (editor.marks(control, style, palette) <==> on
            == style.fill),
        !(control is Tool || control is Color || control is Size || control is Fill)
            ==> !editor.marks(control, style, palette),
{
}

/// A message is shown for three seconds.
pub proof fn law_messages_are_shown_for_three_seconds(editor: Editor, shown_millis: u64)
    ensures
        editor.shows_message(shown_millis) <==> editor.status is Some && shown_millis < 3000,
{
}

/// After a copy the image is saved where that is configured, and the editor is
/// left where that is configured and no save follows. A copy that failed leaves
/// everything but the message.
pub proof fn law_what_follows_a_copy(
    editor: Editor,
    after: Editor,
    config: Config,
    result: Result<(), OutputError>,
    next: (Option<Notice>, Work),
)
    requires
        editor.is_copied(after, config, result, next),
    ensures
        result is Ok && config.save_after_copy ==> next.1 == Work::Save && after.outcome
            == editor.outcome,
        result is Ok && !config.save_after_copy ==> next.1 == Work::Rest && (after.outcome == (
        if config.early_exit {
            Outcome::Quit
        } else {
            editor.outcome
        })),
        result is Ok ==> next.0 is None == config.disable_notifications,
        result is Err ==> next.1 == Work::Rest && next.0 is None && after.outcome
            == editor.outcome,
        after.status is Some,
        after.base == editor.base && after.selected == editor.selected && after.last_saved
            == editor.last_saved,
{
}

/// The menu of recent captures numbers them from zero and calls each by its
/// label.
pub proof fn law_recent_captures_are_numbered(
    labels: Seq<(usize, String)>,
    entries: Seq<Entry>,
    i: int,
)
    requires
        lists_recent(labels, entries),
        0 <= i < entries.len(),
    ensures
        labels.len() == entries.len(),
        labels[i].0 == i,
        labels[i].1@ == entries[i].label@,
{
}

/// The label of a remembered capture reads as its width, its height and the
/// number of its annotations.
pub proof fn law_labels_read_as_what_was_captured(width: u32, height: u32, annotations: nat)
    ensures
        ({
            let text = capture_label(width, height, annotations);
            let cross = crate::text::first_position(text, '×');
            let comma = crate::text::first_position(text, ',');
            &&& 0 < cross < comma < text.len() - 15
            &&& crate::text::decimal_value(text.subrange(0, cross)) == width
            &&& crate::text::decimal_value(text.subrange(cross + 1, comma)) == height
            &&& crate::text::decimal_value(text.subrange(comma + 2, text.len() - 14)) == annotations
        }),
{
    let w = crate::text::decimal_text(width as nat);
    let h = crate::text::decimal_text(height as nat);
    let n = crate::text::decimal_text(annotations);
    let text = capture_label(width, height, annotations);
    crate::text::law_decimals_read_as_their_number(width as nat);
    crate::text::law_decimals_read_as_their_number(height as nat);
    crate::text::law_decimals_read_as_their_number(annotations);
    reveal_strlit("×");
    reveal_strlit(", ");
    reveal_strlit(" annotation(s)");
    let cross = w.len() as int;
    let comma = cross + 1 + h.len();
    assert(text[cross] == '×');
    assert(text[comma] == ',');
    assert forall|i: int| 0 <= i < comma && i != cross implies '0' <= #[trigger] text[i] <= '9' by {
        if i < cross {
            assert(text[i] == w[i]);
        } else {
            assert(text[i] == h[i - cross - 1]);
        }
    }
    crate::text::lemma_first_position(text, '×', cross);
    crate::text::lemma_first_position(text, ',', comma);
    assert(text.subrange(0, cross) =~= w);
    assert(text.subrange(cross + 1, comma) =~= h);
    assert(text.subrange(comma + 2, text.len() - 14) =~= n);
}

/// Tools are told apart by their labels, each named after the tool.
pub proof fn law_tools_have_labels_of_their_own(kind: Tools, other: Tools)
    ensures
        label_key(kind).subrange(0, 5) == "tool."@,
        kind != other ==> label_key(kind) != label_key(other),
        ({
            let name = label_key(kind).subrange(5, label_key(kind).len() as int);
            &&& kind == Tools::Pointer ==> name == "pointer"@
            &&& kind == Tools::Crop ==> name == "crop"@
            &&& kind == Tools::Line ==> name == "line"@
            &&& kind == Tools::Arrow ==> name == "arrow"@
            &&& kind == Tools::Rectangle ==> name == "rectangle"@
            &&& kind == Tools::Ellipse ==> name == "ellipse"@
            &&& kind == Tools::Text ==> name == "text"@
            &&& kind == Tools::Marker ==> name == "marker"@
            &&& kind == Tools::Brush ==> name == "brush"@
            &&& kind == Tools::Highlight ==> name == "highlight"@
            &&& kind == Tools::Blur ==> name == "blur"@
        }),
{
    reveal_strlit("tool.");
    reveal_strlit("tool.pointer");
    reveal_strlit("tool.crop");
    reveal_strlit("tool.line");
    reveal_strlit("tool.arrow");
    reveal_strlit("tool.rectangle");
    reveal_strlit("tool.ellipse");
    reveal_strlit("tool.text");
    reveal_strlit("tool.marker");
    reveal_strlit("tool.brush");
    reveal_strlit("tool.highlight");
    reveal_strlit("tool.blur");
    reveal_strlit("pointer");
    reveal_strlit("crop");
    reveal_strlit("line");
    reveal_strlit("arrow");
    reveal_strlit("rectangle");
    reveal_strlit("ellipse");
    reveal_strlit("text");
    reveal_strlit("marker");
    reveal_strlit("brush");
    reveal_strlit("highlight");
    reveal_strlit("blur");
    let a = label_key(kind);
    let b = label_key(other);
    if kind != other && a == b {
        assert(a.len() == b.len());
        assert(a[5] == b[5] && a[6] == b[6] && a[7] == b[7]);
    }
}

/// Only the tool that numbers markers is told to number on.
pub proof fn law_only_markers_are_numbered(editor: Editor)
    ensures
        editor.tool_kind == Tools::Marker ==> editor.numbers_markers(),
        editor.tool_kind != Tools::Marker ==> !editor.numbers_markers(),
{
}

/// After the document changed the picture is drawn anew and the status says what
/// happened; the selection stays where its annotation does, and nothing else
/// changes.
pub proof fn law_what_a_changed_document_leaves(
    before: Editor,
    after: Editor,
    annotations: nat,
    key: Seq<char>,
)
    requires
        before.is_changed(after, annotations, key),
    ensures
        after.scene_dirty,
        after.status matches Some(s) && s@ == before.strings.text_for(key),
        before.selected matches Some(i) ==> (i < annotations ==> after.selected == Some(i)),
        before.selected matches Some(i) ==> (i >= annotations ==> after.selected is None),
        before.selected is None ==> after.selected is None,
        after.tool_kind == before.tool_kind,
        after.outcome == before.outcome,
        after.strings == before.strings,
{
}

} // verus!
