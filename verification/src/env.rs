//! Deciding which backend to use, without touching the environment.
//!
//! Session sniffing on Linux is messy: `XDG_SESSION_TYPE` lies under XWayland,
//! `DISPLAY` is set inside a Wayland session, and both can be empty strings
//! rather than absent. So the caller reads the process environment once, hands
//! it over as an [`Environment`], and [`select_backend`] decides.

use crate::error::CaptureError;
use crate::text::{ascii_lowercase, is_blank, joined, same_text, trimmed};
use vstd::prelude::*;
use vstd::string::*;

verus! {

/// The operating system a backend would run on.
#[derive(Debug, Clone, Copy, PartialEq, Eq, Hash, Structural)]
pub enum TargetOs {
    /// Linux (Wayland or X11).
    Linux,
    /// Windows.
    Windows,
    /// macOS.
    MacOs,
    /// Anything else.
    Other,
}

impl TargetOs {
    /// The system that `name`, as in `std::env::consts::OS`, stands for.
    pub open spec fn named(name: Seq<char>) -> TargetOs {
        if name == "linux"@ {
            TargetOs::Linux
        } else if name == "windows"@ {
            TargetOs::Windows
        } else if name == "macos"@ {
            TargetOs::MacOs
        } else {
            TargetOs::Other
        }
    }

    /// The system this binary was compiled for, given the compiler's name of
    /// it.
    pub fn current(name: &str) -> (os: TargetOs)
        ensures
            os == TargetOs::named(name@),
    {
        if same_text(name, "linux") {
            TargetOs::Linux
        } else if same_text(name, "windows") {
            TargetOs::Windows
        } else if same_text(name, "macos") {
            TargetOs::MacOs
        } else {
            TargetOs::Other
        }
    }
}

/// The bits of the process environment that decide the backend.
///
/// Blank strings are normalised to `None` on construction: a shell that exports
/// `DISPLAY=` has no display.
#[derive(Debug, Clone, PartialEq, Eq)]
pub struct Environment {
    /// Which system the capture would happen on.
    pub target_os: TargetOs,
    /// `XDG_SESSION_TYPE`: `wayland`, `x11`, `tty`, ...
    pub session_type: Option<String>,
    /// `WAYLAND_DISPLAY`, e.g. `wayland-0`.
    pub wayland_display: Option<String>,
    /// `DISPLAY`, e.g. `:0`.
    pub display: Option<String>,
}

/// `kept` is `given`, unless that is absent or blank.
pub open spec fn is_non_blank(kept: Option<String>, given: Option<&str>) -> bool {
    match given {
        Some(g) => if crate::text::blank(g@) {
            kept is None
        } else {
            kept matches Some(k) && k@ == g@
        },
        None => kept is None,
    }
}

fn non_empty(value: Option<&str>) -> (kept: Option<String>)
    ensures
        is_non_blank(kept, value),
{
    match value {
        Some(v) => {
            if is_blank(v) {
                None
            } else {
                Some(v.to_owned())
            }
        },
        None => None,
    }
}

impl Environment {
    /// Build an environment from the variables' values. Blank strings become
    /// `None`.
    pub fn new(
        target_os: TargetOs,
        session_type: Option<&str>,
        wayland_display: Option<&str>,
        display: Option<&str>,
    ) -> (env: Environment)
        ensures
            env.target_os == target_os,
            is_non_blank(env.session_type, session_type),
            is_non_blank(env.wayland_display, wayland_display),
            is_non_blank(env.display, display),
    {
        Environment {
            target_os,
            session_type: non_empty(session_type),
            wayland_display: non_empty(wayland_display),
            display: non_empty(display),
        }
    }

    /// `XDG_SESSION_TYPE` is `name`, whatever its case and the space around it.
    pub open spec fn session_is(self, name: Seq<char>) -> bool {
        self.session_type matches Some(s) && crate::text::lowered(
            crate::text::trimmed_text(s@),
        ) == name
    }

    /// The session calls itself a Wayland one.
    pub open spec fn wayland_session(self) -> bool {
        self.session_is("wayland"@)
    }

    /// The session calls itself an X11 one.
    pub open spec fn x11_session(self) -> bool {
        self.session_is("x11"@) || self.session_is("xorg"@)
    }

    fn session_reads(&self, name: &str) -> (yes: bool)
        ensures
            yes == self.session_is(name@),
    {
        match &self.session_type {
            Some(s) => same_text(ascii_lowercase(trimmed(s.as_str())).as_str(), name),
            None => false,
        }
    }

    fn says_wayland(&self) -> (yes: bool)
        ensures
            yes == self.wayland_session(),
    {
        self.session_reads("wayland")
    }

    fn says_x11(&self) -> (yes: bool)
        ensures
            yes == self.x11_session(),
    {
        self.session_reads("x11") || self.session_reads("xorg")
    }
}

/// Which backend implementation to instantiate.
#[derive(Debug, Clone, Copy, PartialEq, Eq, Hash, Structural)]
pub enum BackendChoice {
    /// `xdg-desktop-portal`'s Screenshot interface over D-Bus (Wayland).
    WaylandPortal,
    /// Direct X11 grab via RandR and `GetImage`.
    X11,
    /// Windows Graphics Capture / DXGI.
    WindowsGraphicsCapture,
    /// macOS ScreenCaptureKit.
    MacOsScreenCaptureKit,
}

impl BackendChoice {
    /// What [`BackendChoice::name`] gives.
    pub open spec fn name_text(self) -> Seq<char> {
        match self {
            BackendChoice::WaylandPortal => "wayland-portal"@,
            BackendChoice::X11 => "x11"@,
            BackendChoice::WindowsGraphicsCapture => "windows-graphics-capture"@,
            BackendChoice::MacOsScreenCaptureKit => "macos-screencapturekit"@,
        }
    }

    /// Stable identifier of the backend.
    pub fn name(self) -> (name: &'static str)
        ensures
            name@ == self.name_text(),
    {
        match self {
            BackendChoice::WaylandPortal => "wayland-portal",
            BackendChoice::X11 => "x11",
            BackendChoice::WindowsGraphicsCapture => "windows-graphics-capture",
            BackendChoice::MacOsScreenCaptureKit => "macos-screencapturekit",
        }
    }
}

/// A name tells which choice it is of: no two choices share one.
pub proof fn law_names_tell_choices_apart(a: BackendChoice, b: BackendChoice)
    requires
        a.name_text() == b.name_text(),
    ensures
        a == b,
{
    reveal_strlit("wayland-portal");
    reveal_strlit("x11");
    reveal_strlit("windows-graphics-capture");
    reveal_strlit("macos-screencapturekit");
    assert("wayland-portal"@.len() == 14 && "x11"@.len() == 3
        && "windows-graphics-capture"@.len() == 24 && "macos-screencapturekit"@.len() == 22);
}

/// A backend choice plus the reasoning, so that a verbose log can explain itself
/// and bug reports arrive with the session details already in them.
#[derive(Debug, Clone, PartialEq, Eq)]
pub struct BackendSelection {
    /// The chosen backend.
    pub choice: BackendChoice,
    /// Why, in one human-readable sentence.
    pub reason: String,
}

impl BackendSelection {
    fn new(choice: BackendChoice, reason: &str) -> (s: BackendSelection)
        ensures
            s.choice == choice,
            s.reason@ == reason@,
    {
        BackendSelection { choice, reason: reason.to_owned() }
    }

    /// The choice and the reason, for logs.
    pub fn describe(&self) -> (text: String)
        ensures
            text@ == self.choice.name_text() + " ("@ + self.reason@ + ")"@,
    {
        let mut text = joined(self.choice.name(), " (");
        text.append(self.reason.as_str());
        text.append(")");
        text
    }
}

/// The choice on Linux, with its reason, or `None` without a display.
pub open spec fn linux_choice(
    wayland_session: bool,
    x11_session: bool,
    wayland: bool,
    x11: bool,
) -> Option<(BackendChoice, Seq<char>)> {
    if wayland_session && wayland {
        Some(
            (
                BackendChoice::WaylandPortal,
                "XDG_SESSION_TYPE=wayland and WAYLAND_DISPLAY is set"@,
            ),
        )
    } else if x11_session && x11 {
        Some((BackendChoice::X11, "XDG_SESSION_TYPE=x11 and DISPLAY is set"@))
    } else if wayland {
        Some(
            (
                BackendChoice::WaylandPortal,
                "WAYLAND_DISPLAY is set, so a Wayland compositor is reachable"@,
            ),
        )
    } else if x11 {
        Some((BackendChoice::X11, "DISPLAY is set and no Wayland compositor was found"@))
    } else if wayland_session {
        Some(
            (
                BackendChoice::WaylandPortal,
                "XDG_SESSION_TYPE=wayland; the screenshot portal is reachable over D-Bus alone"@,
            ),
        )
    } else {
        None
    }
}

/// `result` is the choice for `env`.
pub open spec fn is_selected(
    result: Result<BackendSelection, CaptureError>,
    env: Environment,
) -> bool {
    match env.target_os {
        TargetOs::Windows => result matches Ok(s) && s.choice
            == BackendChoice::WindowsGraphicsCapture && s.reason@
            == "Windows uses Windows Graphics Capture / DXGI"@,
        TargetOs::MacOs => result matches Ok(s) && s.choice == BackendChoice::MacOsScreenCaptureKit
            && s.reason@
            == "macOS uses ScreenCaptureKit (needs macOS 12.3+, and 14.0+ to capture)"@,
        TargetOs::Other => result matches Err(e) && e is Unsupported && e.detail()
            == "bettershot has no capture backend for this operating system"@,
        TargetOs::Linux => match linux_choice(
            env.wayland_session(),
            env.x11_session(),
            env.wayland_display is Some,
            env.display is Some,
        ) {
            Some((choice, reason)) => result matches Ok(s) && s.choice == choice && s.reason@
                == reason,
            None => result matches Err(e) && e is NoDisplay,
        },
    }
}

/// Pick a backend for `env`.
///
/// The Linux precedence, highest first:
///
/// 1. `XDG_SESSION_TYPE=wayland` **and** `WAYLAND_DISPLAY` set: a Wayland
///    session that agrees with itself.
/// 2. `XDG_SESSION_TYPE=x11` **and** `DISPLAY` set: an explicit X11 session.
///    This outranks a stray `WAYLAND_DISPLAY`, which some login managers leak
///    into X sessions.
/// 3. `WAYLAND_DISPLAY` set: a Wayland compositor is reachable even if the
///    session type is missing or wrong.
/// 4. `DISPLAY` set: X11 or XWayland.
/// 5. `XDG_SESSION_TYPE=wayland` alone: the Screenshot portal is pure D-Bus, so
///    it can still work without a Wayland socket in this process.
/// 6. Otherwise [`CaptureError::NoDisplay`].
pub fn select_backend(env: &Environment) -> (result: Result<BackendSelection, CaptureError>)
    ensures
        is_selected(result, *env),
{
    match env.target_os {
        TargetOs::Windows => Ok(
            BackendSelection::new(
                BackendChoice::WindowsGraphicsCapture,
                "Windows uses Windows Graphics Capture / DXGI",
            ),
        ),
        TargetOs::MacOs => Ok(
            BackendSelection::new(
                BackendChoice::MacOsScreenCaptureKit,
                "macOS uses ScreenCaptureKit (needs macOS 12.3+, and 14.0+ to capture)",
            ),
        ),
        TargetOs::Other => Err(
            CaptureError::unsupported("bettershot has no capture backend for this operating system"),
        ),
        TargetOs::Linux => select_linux_backend(env),
    }
}

fn select_linux_backend(env: &Environment) -> (result: Result<BackendSelection, CaptureError>)
    ensures
        match linux_choice(
            env.wayland_session(),
            env.x11_session(),
            env.wayland_display is Some,
            env.display is Some,
        ) {
            Some((choice, reason)) => result matches Ok(s) && s.choice == choice && s.reason@
                == reason,
            None => result matches Err(e) && e is NoDisplay,
        },
{
    let has_wayland = env.wayland_display.is_some();
    let has_x11 = env.display.is_some();
    if env.says_wayland() && has_wayland {
        return Ok(
            BackendSelection::new(
                BackendChoice::WaylandPortal,
                "XDG_SESSION_TYPE=wayland and WAYLAND_DISPLAY is set",
            ),
        );
    }
    if env.says_x11() && has_x11 {
        return Ok(
            BackendSelection::new(BackendChoice::X11, "XDG_SESSION_TYPE=x11 and DISPLAY is set"),
        );
    }
    if has_wayland {
        return Ok(
            BackendSelection::new(
                BackendChoice::WaylandPortal,
                "WAYLAND_DISPLAY is set, so a Wayland compositor is reachable",
            ),
        );
    }
    if has_x11 {
        return Ok(
            BackendSelection::new(
                BackendChoice::X11,
                "DISPLAY is set and no Wayland compositor was found",
            ),
        );
    }
    if env.says_wayland() {
        return Ok(
            BackendSelection::new(
                BackendChoice::WaylandPortal,
                "XDG_SESSION_TYPE=wayland; the screenshot portal is reachable over D-Bus alone",
            ),
        );
    }
    Err(CaptureError::NoDisplay)
}

/// Only a Linux process without any display fails for want of one, and blank
/// variables count as absent.
pub proof fn law_no_display_means_no_display(
    env: Environment,
    session: Option<&str>,
    wayland: Option<&str>,
    display: Option<&str>,
    result: Result<BackendSelection, CaptureError>,
)
    requires
        is_non_blank(env.session_type, session),
        is_non_blank(env.wayland_display, wayland),
        is_non_blank(env.display, display),
        is_selected(result, env),
    ensures
        (result matches Err(e) && e is NoDisplay) <==> {
            &&& env.target_os == TargetOs::Linux
            &&& wayland is None || crate::text::blank(wayland->Some_0@)
            &&& display is None || crate::text::blank(display->Some_0@)
            &&& !env.wayland_session()
        },
{
}

/// A Linux process that can reach a Wayland compositor uses the portal, unless
/// its session is explicitly an X11 one with a display.
pub proof fn law_wayland_is_preferred(
    env: Environment,
    result: Result<BackendSelection, CaptureError>,
)
    requires
        env.target_os == TargetOs::Linux,
        env.wayland_display is Some,
        !(env.x11_session() && env.display is Some),
        is_selected(result, env),
    ensures
        result matches Ok(s) && s.choice == BackendChoice::WaylandPortal,
{
}

/// Every system has its own backend. On Linux it is the X server where that can
/// be reached, unless a Wayland compositor can be too and the session is not an
/// X11 one; and where neither can be reached, the portal serves a session that
/// calls itself a Wayland one.
pub proof fn law_which_backend_is_selected(
    env: Environment,
    result: Result<BackendSelection, CaptureError>,
)
    requires
        is_selected(result, env),
    ensures
        env.target_os is Windows ==> (result matches Ok(s) && s.choice is WindowsGraphicsCapture),
        env.target_os is MacOs ==> (result matches Ok(s) && s.choice is MacOsScreenCaptureKit),
        env.target_os is Other ==> (result matches Err(e) && e is Unsupported),
        env.target_os is Linux ==> {
            let w = env.wayland_display is Some;
            let x = env.display is Some;
            let x11 = x && (!w || (env.x11_session() && !env.wayland_session()));
            let portal = !x11 && (w || env.wayland_session());
            &&& x11 <==> (result matches Ok(s) && s.choice is X11)
            &&& portal <==> (result matches Ok(s) && s.choice is WaylandPortal)
            &&& !x11 && !portal ==> (result matches Err(e) && e is NoDisplay)
        },
{
    if env.session_type is Some {
        reveal_strlit("wayland");
        reveal_strlit("x11");
        reveal_strlit("xorg");
        assert("wayland"@.len() == 7 && "x11"@.len() == 3 && "xorg"@.len() == 4);
    }
}

/// A session is a Wayland or an X11 one by its name, in any case and with any
/// space around it.
pub proof fn law_sessions_go_by_their_name(env: Environment)
    ensures
        env.session_type is None ==> !env.wayland_session() && !env.x11_session(),
        env.session_type matches Some(s) ==> {
            let name = crate::text::lowered(crate::text::trimmed_text(s@));
            &&& env.wayland_session() <==> name == "wayland"@
            &&& env.x11_session() <==> name == "x11"@ || name == "xorg"@
        },
{
}

/// A variable counts as it is given, and a blank one as one that is not set.
pub proof fn law_blank_variables_are_not_set(kept: Option<String>, given: Option<&str>)
    requires
        is_non_blank(kept, given),
    ensures
        kept matches Some(k) ==> (given matches Some(g) && g@ == k@ && !crate::text::blank(g@)),
        kept is None ==> (given matches Some(g) ==> crate::text::blank(g@)),
{
}

/// The three systems that there is a backend for go by their names.
pub proof fn law_systems_go_by_their_name(name: Seq<char>)
    ensures
        TargetOs::named("linux"@) is Linux,
        TargetOs::named("windows"@) is Windows,
        TargetOs::named("macos"@) is MacOs,
        name != "linux"@ && name != "windows"@ && name != "macos"@ ==> TargetOs::named(
            name,
        ) is Other,
{
    reveal_strlit("linux");
    reveal_strlit("windows");
    reveal_strlit("macos");
    assert("linux"@[0] == 'l' && "windows"@[0] == 'w' && "macos"@[0] == 'm');
}

} // verus!
