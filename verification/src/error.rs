//! The one error type every capture backend speaks.
//!
//! The variants exist so that a caller can react differently rather than just
//! print a string: [`CaptureError::Cancelled`] is a normal user action and must
//! not surface as a failure, [`CaptureError::PermissionDenied`] needs guidance,
//! and [`CaptureError::NoDisplay`] means that the process is not attached to a
//! graphical session at all.

use crate::monitor::MonitorId;
use crate::text::{joined, last_component, same_text};
use crate::window::WindowId;
use vstd::prelude::*;
use vstd::string::*;

verus! {

/// Everything that can go wrong while enumerating or capturing.
#[derive(Debug)]
pub enum CaptureError {
    /// The platform, session or backend cannot do what was asked, and no amount
    /// of retrying or permission granting will change that.
    Unsupported(String),
    /// The system or compositor refused access.
    PermissionDenied(String),
    /// The user dismissed the picker dialog. Not a failure.
    Cancelled,
    /// A monitor that does not, or does no longer, exist.
    NoSuchMonitor(MonitorId),
    /// A window that does not, or does no longer, exist.
    NoSuchWindow(WindowId),
    /// The requested region was degenerate, or fell entirely outside the area
    /// that it was clamped against.
    EmptyRegion,
    /// No graphical session was found.
    NoDisplay,
    /// A frame's dimensions and buffer length disagree, or the frame is too
    /// large to address.
    InvalidFrame(String),
    /// Anything the platform reported that fits no more specific variant.
    Backend(String),
}

/// What to do about a refused permission.
pub const PERMISSION_GUIDANCE: &'static str = "Allow screen capture for bettershot in your system's privacy settings (GNOME/KDE: Settings -> Privacy -> Screen Sharing; macOS: System Settings -> Privacy & Security -> Screen & System Audio Recording, then quit and relaunch bettershot), and try again.";

/// What to do without a display.
pub const DISPLAY_GUIDANCE: &'static str = "Start bettershot from a graphical session, or forward a display (WAYLAND_DISPLAY / DISPLAY) into this environment.";

/// What to do about an empty region.
pub const REGION_GUIDANCE: &'static str = "Select a region that overlaps a monitor and is at least one pixel wide.";

/// What to do about a stale id.
pub const STALE_GUIDANCE: &'static str = "The display configuration changed since the last enumeration; re-run the capture.";

/// What to do about a missing feature.
pub const UNSUPPORTED_GUIDANCE: &'static str = "Try a different capture mode, or see the bettershot roadmap for platform support.";

impl CaptureError {
    /// The free text that a variant carries; empty for the others.
    pub open spec fn detail(self) -> Seq<char> {
        match self {
            CaptureError::Unsupported(what) => what@,
            CaptureError::PermissionDenied(what) => what@,
            CaptureError::InvalidFrame(what) => what@,
            CaptureError::Backend(what) => what@,
            _ => seq![],
        }
    }

    /// The message shown to the user.
    pub open spec fn text(self) -> Seq<char> {
        match self {
            CaptureError::Unsupported(what) => "screen capture is not supported here: "@ + what@,
            CaptureError::PermissionDenied(what) => {
                "screen capture permission was denied: "@ + what@
            },
            CaptureError::Cancelled => "the capture was cancelled"@,
            CaptureError::NoSuchMonitor(id) => "no such monitor: "@ + id.text(),
            CaptureError::NoSuchWindow(id) => "no such window: "@ + id.text(),
            CaptureError::EmptyRegion => {
                "the requested region is empty or lies outside the capture area"@
            },
            CaptureError::NoDisplay => {
                "no display server found (neither WAYLAND_DISPLAY nor DISPLAY is set); bettershot needs a graphical session to capture the screen"@
            },
            CaptureError::InvalidFrame(what) => "invalid frame: "@ + what@,
            CaptureError::Backend(what) => "capture backend error: "@ + what@,
        }
    }

    /// Shorthand for [`CaptureError::Unsupported`].
    pub fn unsupported(what: &str) -> (e: CaptureError)
        ensures
            e is Unsupported,
            e.detail() == what@,
    {
        CaptureError::Unsupported(what.to_owned())
    }

    /// Shorthand for [`CaptureError::Backend`].
    pub fn backend(what: &str) -> (e: CaptureError)
        ensures
            e is Backend,
            e.detail() == what@,
    {
        CaptureError::Backend(what.to_owned())
    }

    /// Shorthand for [`CaptureError::PermissionDenied`].
    pub fn permission_denied(what: &str) -> (e: CaptureError)
        ensures
            e is PermissionDenied,
            e.detail() == what@,
    {
        CaptureError::PermissionDenied(what.to_owned())
    }

    /// Shorthand for [`CaptureError::InvalidFrame`].
    pub fn invalid_frame(what: &str) -> (e: CaptureError)
        ensures
            e is InvalidFrame,
            e.detail() == what@,
    {
        CaptureError::InvalidFrame(what.to_owned())
    }

    /// The user pressed "Cancel": exit quietly instead of reporting an error.
    pub fn is_cancelled(&self) -> (yes: bool)
        ensures
            yes == (self is Cancelled),
    {
        matches!(self, CaptureError::Cancelled)
    }

    /// Access was refused and the user has to change a system setting.
    pub fn is_permission_denied(&self) -> (yes: bool)
        ensures
            yes == (self is PermissionDenied),
    {
        matches!(self, CaptureError::PermissionDenied(_))
    }

    /// Whether a retry could plausibly succeed without the user changing
    /// anything.
    pub fn is_retryable(&self) -> (yes: bool)
        ensures
            yes == (self is NoSuchMonitor || self is NoSuchWindow),
    {
        matches!(self, CaptureError::NoSuchMonitor(_) | CaptureError::NoSuchWindow(_))
    }

    /// The guidance for each kind of error.
    pub open spec fn guidance_text(self) -> Option<Seq<char>> {
        match self {
            CaptureError::PermissionDenied(_) => Some(PERMISSION_GUIDANCE@),
            CaptureError::NoDisplay => Some(DISPLAY_GUIDANCE@),
            CaptureError::EmptyRegion => Some(REGION_GUIDANCE@),
            CaptureError::NoSuchMonitor(_) => Some(STALE_GUIDANCE@),
            CaptureError::NoSuchWindow(_) => Some(STALE_GUIDANCE@),
            CaptureError::Unsupported(_) => Some(UNSUPPORTED_GUIDANCE@),
            CaptureError::Cancelled => None,
            CaptureError::InvalidFrame(_) => None,
            CaptureError::Backend(_) => None,
        }
    }

    /// A single actionable sentence for the user, or `None` when the message
    /// itself is all there is to say.
    pub fn guidance(&self) -> (sentence: Option<&'static str>)
        ensures
            match sentence {
                Some(s) => self.guidance_text() == Some(s@),
                None => self.guidance_text() is None,
            },
    {
        match self {
            CaptureError::PermissionDenied(_) => Some(PERMISSION_GUIDANCE),
            CaptureError::NoDisplay => Some(DISPLAY_GUIDANCE),
            CaptureError::EmptyRegion => Some(REGION_GUIDANCE),
            CaptureError::NoSuchMonitor(_) | CaptureError::NoSuchWindow(_) => Some(STALE_GUIDANCE),
            CaptureError::Unsupported(_) => Some(UNSUPPORTED_GUIDANCE),
            CaptureError::Cancelled | CaptureError::InvalidFrame(_) | CaptureError::Backend(_) =>
                None,
        }
    }

    /// The message shown to the user.
    pub fn message(&self) -> (text: String)
        ensures
            text@ == self.text(),
    {
        match self {
            CaptureError::Unsupported(what) => joined(
                "screen capture is not supported here: ",
                what.as_str(),
            ),
            CaptureError::PermissionDenied(what) => joined(
                "screen capture permission was denied: ",
                what.as_str(),
            ),
            CaptureError::Cancelled => "the capture was cancelled".to_owned(),
            CaptureError::NoSuchMonitor(id) => joined("no such monitor: ", id.describe().as_str()),
            CaptureError::NoSuchWindow(id) => joined("no such window: ", id.describe().as_str()),
            CaptureError::EmptyRegion =>
                "the requested region is empty or lies outside the capture area".to_owned(),
            CaptureError::NoDisplay =>
                "no display server found (neither WAYLAND_DISPLAY nor DISPLAY is set); bettershot needs a graphical session to capture the screen".to_owned(),
            CaptureError::InvalidFrame(what) => joined("invalid frame: ", what.as_str()),
            CaptureError::Backend(what) => joined("capture backend error: ", what.as_str()),
        }
    }
}

/// The names under which a portal reports that the user cancelled.
pub open spec fn names_cancellation(short: Seq<char>) -> bool {
    short == "Cancelled"@ || short == "Canceled"@
}

/// The names under which a portal reports that access was refused.
pub open spec fn names_refusal(short: Seq<char>) -> bool {
    short == "NotAllowed"@ || short == "AccessDenied"@ || short == "PermissionDenied"@
}

/// The names under which the bus reports that no portal is running.
pub open spec fn names_missing_service(short: Seq<char>) -> bool {
    short == "ServiceUnknown"@ || short == "PortalNotFound"@ || short == "UnknownMethod"@ || short
        == "NameHasNoOwner"@
}

/// `e` is what the portal error `name` with `message` means.
pub open spec fn is_portal_error(e: CaptureError, name: Seq<char>, message: Seq<char>) -> bool {
    let short = crate::text::after_last(name, '.');
    if names_cancellation(short) {
        e is Cancelled
    } else if names_refusal(short) {
        e is PermissionDenied && e.detail() == "the screenshot portal refused access: "@ + message
    } else if names_missing_service(short) {
        e is Unsupported && e.detail() == "no xdg-desktop-portal screenshot backend is running: "@
            + message
    } else {
        e is Backend && e.detail() == name + ": "@ + message
    }
}

/// Map the name and message of a D-Bus error from `xdg-desktop-portal` onto a
/// [`CaptureError`].
///
/// Portal backends are inconsistent about which name they use, so only the
/// last dot-separated component decides.
pub fn classify_portal_error(error_name: &str, message: &str) -> (e: CaptureError)
    ensures
        is_portal_error(e, error_name@, message@),
{
    let short = last_component(error_name, '.');
    proof {
        reveal_strlit("Cancelled");
        reveal_strlit("Canceled");
        reveal_strlit("NotAllowed");
        reveal_strlit("AccessDenied");
        reveal_strlit("PermissionDenied");
        reveal_strlit("ServiceUnknown");
        reveal_strlit("PortalNotFound");
        reveal_strlit("UnknownMethod");
        reveal_strlit("NameHasNoOwner");
    }
    if same_text(short, "Cancelled") || same_text(short, "Canceled") {
        CaptureError::Cancelled
    } else if same_text(short, "NotAllowed") || same_text(short, "AccessDenied") || same_text(
        short,
        "PermissionDenied",
    ) {
        CaptureError::PermissionDenied(joined("the screenshot portal refused access: ", message))
    } else if same_text(short, "ServiceUnknown") || same_text(short, "PortalNotFound") || same_text(
        short,
        "UnknownMethod",
    ) || same_text(short, "NameHasNoOwner") {
        CaptureError::Unsupported(
            joined("no xdg-desktop-portal screenshot backend is running: ", message),
        )
    } else {
        CaptureError::Backend(joined(joined(error_name, ": ").as_str(), message))
    }
}

/// The last component of an error's name decides what it means, whatever stands
/// before it: two names mean that the user cancelled, three that access was
/// refused, four that there is no portal, and any other that the backend failed.
pub proof fn law_the_last_component_decides(
    e: CaptureError,
    prefix: Seq<char>,
    short: Seq<char>,
    message: Seq<char>,
)
    requires
        forall|i: int| 0 <= i < short.len() ==> #[trigger] short[i] != '.',
        is_portal_error(e, prefix + seq!['.'] + short, message),
    ensures
        ({
            let cancelled = short == "Cancelled"@ || short == "Canceled"@;
            let refused = short == "NotAllowed"@ || short == "AccessDenied"@ || short
                == "PermissionDenied"@;
            let missing = short == "ServiceUnknown"@ || short == "PortalNotFound"@ || short
                == "UnknownMethod"@ || short == "NameHasNoOwner"@;
            &&& cancelled ==> e is Cancelled
            &&& !cancelled && refused ==> e is PermissionDenied
            &&& !cancelled && !refused && missing ==> e is Unsupported
            &&& !cancelled && !refused && !missing ==> e is Backend
        }),
{
    let name = prefix + seq!['.'] + short;
    let n = prefix.len() as int;
    let from = crate::text::law_the_last_component_follows_the_last_separator(name, '.');
    assert(name[n] == '.');
    if from > n + 1 {
        assert(name[from - 1] == short[from - 1 - n - 1]);
    }
    assert(name.subrange(n + 1, name.len() as int) =~= short);
}

/// There is something to do about an error unless it is no failure, or nothing
/// but its message is known. What is done about a stale id is the same for
/// monitors and windows.
pub proof fn law_what_guidance_there_is(e: CaptureError)
    ensures
        e.guidance_text() is None <==> e is Cancelled || e is InvalidFrame || e is Backend,
        e is PermissionDenied ==> e.guidance_text() == Some(PERMISSION_GUIDANCE@),
        e is NoDisplay ==> e.guidance_text() == Some(DISPLAY_GUIDANCE@),
        e is EmptyRegion ==> e.guidance_text() == Some(REGION_GUIDANCE@),
        e is NoSuchMonitor || e is NoSuchWindow ==> e.guidance_text() == Some(STALE_GUIDANCE@),
        e is Unsupported ==> e.guidance_text() == Some(UNSUPPORTED_GUIDANCE@),
{
}

/// A message ends with the text that its error carries.
pub proof fn law_messages_end_with_their_detail(e: CaptureError)
    ensures
        e is Unsupported || e is PermissionDenied || e is InvalidFrame || e is Backend ==> {
            let from = e.text().len() - e.detail().len();
            from >= 0 && e.text().subrange(from, e.text().len() as int) == e.detail()
        },
        e matches CaptureError::Unsupported(what) ==> e.detail() == what@,
        e matches CaptureError::PermissionDenied(what) ==> e.detail() == what@,
        e matches CaptureError::InvalidFrame(what) ==> e.detail() == what@,
        e matches CaptureError::Backend(what) ==> e.detail() == what@,
{
    if e is Unsupported || e is PermissionDenied || e is InvalidFrame || e is Backend {
        let from = e.text().len() - e.detail().len();
        assert(e.text().subrange(from, e.text().len() as int) =~= e.detail());
    }
}

} // verus!
