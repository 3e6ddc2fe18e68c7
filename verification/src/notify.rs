//! Desktop notifications for save and copy.
//!
//! Notifications are a courtesy, never a dependency: one that cannot be shown
//! must not turn a successful save into a reported failure. What is decided here
//! is what to show, and whether to show anything at all.

use vstd::prelude::*;
use vstd::string::*;

verus! {

/// One notification.
#[derive(Debug, Clone, PartialEq, Eq)]
pub struct Notice {
    /// The headline.
    pub summary: String,
    /// The text below it.
    pub body: String,
}

impl Notice {
    /// The notification says exactly this.
    pub open spec fn says(self, summary: Seq<char>, body: Seq<char>) -> bool {
        self.summary@ == summary && self.body@ == body
    }
}

/// A notification, unless they are disabled.
pub fn notify(disabled: bool, summary: &str, body: &str) -> (notice: Option<Notice>)
    ensures
        disabled ==> notice is None,
        !disabled ==> (notice matches Some(n) && n.says(summary@, body@)),
{
    if disabled {
        return None;
    }
    Some(Notice { summary: summary.to_owned(), body: body.to_owned() })
}

/// Notify that an image was written, naming the file.
pub fn saved(disabled: bool, path: &str) -> (notice: Option<Notice>)
    ensures
        disabled ==> notice is None,
        !disabled ==> (notice matches Some(n) && n.says("Screenshot saved"@, path@)),
{
    notify(disabled, "Screenshot saved", path)
}

/// Notify that the image went to the clipboard.
pub fn copied(disabled: bool) -> (notice: Option<Notice>)
    ensures
        disabled ==> notice is None,
        !disabled ==> (notice matches Some(n) && n.says(
            "Screenshot copied"@,
            "The image is on the clipboard."@,
        )),
{
    notify(disabled, "Screenshot copied", "The image is on the clipboard.")
}

} // verus!
