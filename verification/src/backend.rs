//! Which backend a selection stands for on the system this binary runs on.

use crate::env::{select_backend, BackendChoice, BackendSelection, Environment, TargetOs};
use crate::error::CaptureError;
use crate::portal::PortalBackend;
use crate::stub::{macos_unavailable, UnsupportedBackend};
use vstd::prelude::*;
use vstd::string::*;

verus! {

/// The backend to construct.
#[derive(Debug)]
pub enum Construction {
    /// The Wayland screenshot portal.
    Portal,
    /// A direct connection to an X server.
    X11,
    /// Windows Graphics Capture.
    Windows,
    /// ScreenCaptureKit.
    MacOs,
    /// A stand-in that refuses everything, and says why.
    Placeholder(UnsupportedBackend),
}

impl Construction {
    /// What [`Construction::name`] gives.
    pub open spec fn name_text(self) -> Seq<char> {
        match self {
            Construction::Portal => "wayland-portal"@,
            Construction::X11 => crate::x11::NAME@,
            Construction::Windows => crate::win32::NAME@,
            Construction::MacOs => crate::macos::NAME@,
            Construction::Placeholder(p) => p.name@,
        }
    }

    /// The identifier of the backend.
    pub fn name(&self) -> (name: &str)
        ensures
            name@ == self.name_text(),
    {
        match self {
            Construction::Portal => PortalBackend.name(),
            Construction::X11 => crate::x11::NAME,
            Construction::Windows => crate::win32::NAME,
            Construction::MacOs => crate::macos::NAME,
            Construction::Placeholder(p) => p.name(),
        }
    }
}

/// Said where the portal cannot exist.
pub const PORTAL_ELSEWHERE: &'static str = "the Wayland screenshot portal backend is only available on Linux";

/// Said where an X server is not looked for.
pub const X11_ELSEWHERE: &'static str = "the X11 backend is only available on Linux";

/// Said where Windows Graphics Capture cannot exist.
pub const WINDOWS_ELSEWHERE: &'static str = "the Windows Graphics Capture backend is only available on Windows";

/// Said where ScreenCaptureKit cannot exist.
pub const MACOS_ELSEWHERE: &'static str = "the ScreenCaptureKit backend is only available on macOS";

/// What a choice comes to on a system.
pub open spec fn is_constructed(
    result: Result<Construction, CaptureError>,
    choice: BackendChoice,
    os: TargetOs,
) -> bool {
    match choice {
        BackendChoice::WaylandPortal => if os == TargetOs::Linux {
            result matches Ok(c) && c is Portal
        } else {
            result matches Err(e) && e is Unsupported && e.detail() == PORTAL_ELSEWHERE@
        },
        BackendChoice::X11 => if os == TargetOs::Linux {
            result matches Ok(c) && c is X11
        } else {
            result matches Err(e) && e is Unsupported && e.detail() == X11_ELSEWHERE@
        },
        BackendChoice::WindowsGraphicsCapture => if os == TargetOs::Windows {
            result matches Ok(c) && c is Windows
        } else {
            result matches Err(e) && e is Unsupported && e.detail() == WINDOWS_ELSEWHERE@
        },
        BackendChoice::MacOsScreenCaptureKit => if os == TargetOs::MacOs {
            result matches Ok(c) && c is MacOs
        } else {
            result matches Ok(Construction::Placeholder(p)) && p.name@ == crate::macos::NAME@
                && p.reason@ == MACOS_ELSEWHERE@
        },
    }
}

/// The backend that a selection stands for.
///
/// Fails with [`CaptureError::Unsupported`] when the choice does not exist on
/// the system: asking for the X11 backend on Windows, for instance. The macOS
/// choice always gives a backend, so that a caller can show its name.
pub fn backend_for(selection: &BackendSelection, os: TargetOs) -> (result: Result<
    Construction,
    CaptureError,
>)
    ensures
        is_constructed(result, selection.choice, os),
{
    match selection.choice {
        BackendChoice::WaylandPortal => match os {
            TargetOs::Linux => Ok(Construction::Portal),
            _ => Err(CaptureError::unsupported(PORTAL_ELSEWHERE)),
        },
        BackendChoice::X11 => match os {
            TargetOs::Linux => Ok(Construction::X11),
            _ => Err(CaptureError::unsupported(X11_ELSEWHERE)),
        },
        BackendChoice::WindowsGraphicsCapture => match os {
            TargetOs::Windows => Ok(Construction::Windows),
            _ => Err(CaptureError::unsupported(WINDOWS_ELSEWHERE)),
        },
        BackendChoice::MacOsScreenCaptureKit => match os {
            TargetOs::MacOs => Ok(Construction::MacOs),
            _ => Ok(Construction::Placeholder(macos_unavailable(MACOS_ELSEWHERE))),
        },
    }
}

/// The backend for an environment, on the system that the environment is of.
pub fn default_backend(environment: &Environment) -> (result: Result<Construction, CaptureError>)
    ensures
        match result {
            Ok(c) => exists|s: BackendSelection|
                #[trigger] crate::env::is_selected(Ok(s), *environment) && is_constructed(
                    Ok(c),
                    s.choice,
                    environment.target_os,
                ),
            Err(e) => crate::env::is_selected(Err(e), *environment),
        },
{
    match select_backend(environment) {
        Ok(selection) => backend_for(&selection, environment.target_os),
        Err(e) => Err(e),
    }
}

/// What is selected for an environment can always be constructed there.
pub proof fn law_selected_backends_exist(
    environment: Environment,
    selection: BackendSelection,
    result: Result<Construction, CaptureError>,
)
    requires
        crate::env::is_selected(Ok(selection), environment),
        is_constructed(result, selection.choice, environment.target_os),
    ensures
        result is Ok,
        !(result->Ok_0 is Placeholder),
{
}

/// What is constructed for a choice carries the name that the choice advertises.
pub proof fn law_constructed_backends_carry_their_name(
    choice: BackendChoice,
    os: TargetOs,
    result: Result<Construction, CaptureError>,
)
    requires
        is_constructed(result, choice, os),
        result is Ok,
    ensures
        result->Ok_0.name_text() == choice.name_text(),
{
}

/// Every backend exists on its own system alone. Elsewhere asking for it is
/// refused, but for the macOS one, whose stand-in takes its place.
pub proof fn law_backends_exist_on_their_own_system(
    choice: BackendChoice,
    os: TargetOs,
    result: Result<Construction, CaptureError>,
)
    requires
        is_constructed(result, choice, os),
    ensures
        choice is WaylandPortal && os is Linux ==> (result matches Ok(c) && c is Portal),
        choice is X11 && os is Linux ==> (result matches Ok(c) && c is X11),
        choice is WindowsGraphicsCapture && os is Windows ==> (result matches Ok(c) && c is Windows),
        choice is MacOsScreenCaptureKit && os is MacOs ==> (result matches Ok(c) && c is MacOs),
        choice is MacOsScreenCaptureKit && !(os is MacOs) ==> (result matches Ok(c)
            && c is Placeholder),
        (choice is WaylandPortal || choice is X11) && !(os is Linux) ==> (result matches Err(e)
            && e is Unsupported),
        choice is WindowsGraphicsCapture && !(os is Windows) ==> (result matches Err(e)
            && e is Unsupported),
{
}

} // verus!
