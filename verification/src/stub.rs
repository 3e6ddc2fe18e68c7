//! A backend that politely refuses everything.
//!
//! Stands in for a backend wherever that backend cannot exist. Having a real
//! object rather than an early error means that a caller can still show its name
//! and render a "not supported here" panel with the same code path it uses for
//! every other failure.

use crate::error::CaptureError;
use crate::frame::RawFrame;
use crate::monitor::MonitorInfo;
use crate::target::{Capabilities, CaptureTarget};
use crate::window::WindowInfo;
use vstd::prelude::*;
use vstd::string::*;

verus! {

/// A backend whose every operation fails with [`CaptureError::Unsupported`].
#[derive(Debug, Clone, PartialEq, Eq)]
pub struct UnsupportedBackend {
    /// The identifier of the backend it stands in for.
    pub name: String,
    /// Why that backend is not available.
    pub reason: String,
}

impl UnsupportedBackend {
    /// A stand-in for the backend `name`.
    pub fn new(name: &str, reason: &str) -> (backend: UnsupportedBackend)
        ensures
            backend.name@ == name@,
            backend.reason@ == reason@,
    {
        UnsupportedBackend { name: name.to_owned(), reason: reason.to_owned() }
    }

    /// The identifier of the backend it stands in for.
    pub fn name(&self) -> (name: &str)
        ensures
            name@ == self.name@,
    {
        self.name.as_str()
    }

    /// Refuses.
    pub fn monitors(&self) -> (result: Result<Vec<MonitorInfo>, CaptureError>)
        ensures
            result matches Err(e) && e is Unsupported && e.detail() == self.reason@,
    {
        Err(CaptureError::unsupported(self.reason.as_str()))
    }

    /// Refuses.
    pub fn windows(&self) -> (result: Result<Vec<WindowInfo>, CaptureError>)
        ensures
            result matches Err(e) && e is Unsupported && e.detail() == self.reason@,
    {
        Err(CaptureError::unsupported(self.reason.as_str()))
    }

    /// Refuses.
    pub fn capture(&self, target: CaptureTarget) -> (result: Result<RawFrame, CaptureError>)
        ensures
            result matches Err(e) && e is Unsupported && e.detail() == self.reason@,
    {
        Err(CaptureError::unsupported(self.reason.as_str()))
    }

    /// Nothing can be served.
    pub fn capabilities(&self) -> (c: Capabilities)
        ensures
            forall|t: CaptureTarget| !c.serves(t),
            !c.monitor_enumeration && !c.window_enumeration && !c.interactive_only
                && !c.may_prompt_for_permission && !c.cursor,
    {
        Capabilities::none()
    }
}

/// The stand-in for the macOS backend, reporting the same name as the real one.
pub fn macos_unavailable(reason: &str) -> (backend: UnsupportedBackend)
    ensures
        backend.name@ == crate::macos::NAME@,
        backend.reason@ == reason@,
{
    UnsupportedBackend::new(crate::macos::NAME, reason)
}

} // verus!
