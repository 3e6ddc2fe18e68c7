//! Opt-in crash reports.
//!
//! A crash report from a screenshot tool is a privacy hazard: a dump that held
//! pixel data, a file path or a window title could leak precisely what the user
//! was about to redact. So a report carries only the panic message, its source
//! location, the version and the system.

use crate::text::joined;
use vstd::prelude::*;
use vstd::string::*;

verus! {

/// Everything a report is allowed to say.
#[derive(Debug, Clone, PartialEq, Eq)]
pub struct Report {
    /// The program's version.
    pub version: String,
    /// The operating system.
    pub os: String,
    /// The processor architecture.
    pub arch: String,
    /// The panic message, as the panicking code wrote it.
    pub message: String,
    /// `file:line:column` of the panic, when the runtime knows it.
    pub location: Option<String>,
    /// A backtrace, only when the user asked for one.
    pub backtrace: Option<String>,
}

impl Report {
    /// The text written to disk.
    pub open spec fn text(self) -> Seq<char> {
        "bettershot crash report\nversion: "@ + self.version@ + "\nplatform: "@ + self.os@ + "-"@
            + self.arch@ + "\nlocation: "@ + (match self.location {
            Some(location) => location@,
            None => "unknown"@,
        }) + "\nmessage: "@ + self.message@ + (match self.backtrace {
            Some(backtrace) => "\n\nbacktrace:\n"@ + backtrace@,
            None => "\n\n(no backtrace; re-run with RUST_BACKTRACE=1 to include one)"@,
        })
            + "\n\nThis report contains no image data, file paths, window titles or configuration values, and was not sent anywhere.\n"@
    }

    /// Render the report as the text written to disk.
    pub fn render(&self) -> (out: String)
        ensures
            out@ == self.text(),
    {
        let mut out = joined("bettershot crash report\nversion: ", self.version.as_str());
        out.append("\nplatform: ");
        out.append(self.os.as_str());
        out.append("-");
        out.append(self.arch.as_str());
        out.append("\nlocation: ");
        match &self.location {
            Some(location) => out.append(location.as_str()),
            None => out.append("unknown"),
        }
        out.append("\nmessage: ");
        out.append(self.message.as_str());
        let tail = match &self.backtrace {
            Some(backtrace) => joined("\n\nbacktrace:\n", backtrace.as_str()),
            None => "\n\n(no backtrace; re-run with RUST_BACKTRACE=1 to include one)".to_owned(),
        };
        out.append(tail.as_str());
        out.append(
            "\n\nThis report contains no image data, file paths, window titles or configuration values, and was not sent anywhere.\n",
        );
        out
    }
}

} // verus!
