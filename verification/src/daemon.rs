//! Staying resident: global hotkeys and the system tray.
//!
//! Registering a global hotkey can fail, and under Wayland it always does: the
//! protocol refuses to let an application grab a key for itself. That is a
//! supported configuration, not an error: the user binds their compositor
//! instead. So a failed registration is recorded and reported, and is never
//! fatal.

use crate::capture::CaptureMode;
use crate::text::{decimal, joined, same_text, trimmed};
use std::collections::HashMap;
use vstd::prelude::*;
use vstd::string::*;

verus! {

broadcast use vstd::std_specs::hash::group_hash_axioms;

/// What the resident process has been asked to do.
#[derive(Debug, Clone, Copy, PartialEq, Eq, Structural)]
pub enum Trigger {
    /// Start a capture in this mode.
    Capture(CaptureMode),
    /// Open the settings window.
    Settings,
    /// Leave daemon mode and exit.
    Quit,
}

/// A key, and the mode it captures in.
#[derive(Debug, Clone, PartialEq, Eq)]
pub struct HotkeyBinding {
    /// The key as the user wrote it, e.g. `Ctrl+Shift+F13`.
    pub key: String,
    /// What it captures.
    pub mode: CaptureMode,
}

impl HotkeyBinding {
    /// A binding.
    pub fn new(key: &str, mode: CaptureMode) -> (binding: HotkeyBinding)
        ensures
            binding.key@ == key@,
            binding.mode == mode,
    {
        HotkeyBinding { key: key.to_owned(), mode }
    }
}

/// Two bindings are the same: the key as it was written, and the mode.
pub open spec fn same_binding(a: HotkeyBinding, b: HotkeyBinding) -> bool {
    a.key@ == b.key@ && a.mode == b.mode
}

/// Did the user edit the bindings, so that the keys have to be grabbed again?
pub fn bindings_differ(before: &[HotkeyBinding], after: &[HotkeyBinding]) -> (differ: bool)
    ensures
        differ == !(before@.len() == after@.len() && forall|i: int|
            0 <= i < before@.len() ==> same_binding(#[trigger] before@[i], after@[i])),
{
    if before.len() != after.len() {
        return true;
    }
    let mut i: usize = 0;
    while i < before.len()
        invariant
            i <= before@.len(),
            before@.len() == after@.len(),
            forall|j: int| 0 <= j < i ==> same_binding(#[trigger] before@[j], after@[j]),
        decreases before@.len() - i,
    {
        if !same_text(before[i].key.as_str(), after[i].key.as_str()) || before[i].mode
            != after[i].mode {
            assert(!same_binding(before@[i as int], after@[i as int]));
            return true;
        }
        i = i + 1;
    }
    false
}

/// What to do about a hotkey that will not register, on Windows, where another
/// application holds the key.
pub const WINDOWS_ADVICE: &'static str = "Pick a different key under [daemon] hotkeys in the config file, or use the tray icon. Note that Windows 11 gives PrintScreen to its own Snipping Tool by default (Settings > Accessibility > Keyboard).";

/// What to do about a hotkey that will not register, elsewhere.
pub const COMPOSITOR_ADVICE: &'static str = "Bind your compositor to `bettershot --capture region` instead, or pick a different key under [daemon] hotkeys in the config file.";

/// What to do about a hotkey that will not register.
pub open spec fn advice(windows: bool) -> Seq<char> {
    if windows {
        WINDOWS_ADVICE@
    } else {
        COMPOSITOR_ADVICE@
    }
}

/// What to do about a hotkey that will not register.
pub fn rebind_advice(windows: bool) -> (text: &'static str)
    ensures
        text@ == advice(windows),
{
    if windows {
        WINDOWS_ADVICE
    } else {
        COMPOSITOR_ADVICE
    }
}

/// Why `HotKey::from_str` of the `global-hotkey` crate refuses a text, if it
/// does.
pub uninterp spec fn hotkey_error(text: Seq<char>) -> Option<Seq<char>>;

/// The ids that `HotKey::from_str` of the `global-hotkey` crate gives a text that
/// it accepts: on macOS, and on every other system.
pub uninterp spec fn hotkey_ids(text: Seq<char>) -> (u32, u32);

/// `id` is an id of the key that `text` stands for.
pub open spec fn is_id_of(id: u32, text: Seq<char>) -> bool {
    id == hotkey_ids(text).0 || id == hotkey_ids(text).1
}

/// What parsing a key gives: its id, or why it is no key.
pub open spec fn is_parsed(result: Result<u32, String>, text: Seq<char>) -> bool {
    match result {
        Ok(id) => hotkey_error(text) is None && is_id_of(id, text),
        Err(e) => hotkey_error(text) == Some(e@),
    }
}

/// `HotKey::from_str` of the `global-hotkey` crate, as the id of the key. Whether
/// it refuses a text, and with what message, depends on the text alone. The id
/// depends on the text and on whether this is macOS, which decides what "command
/// or control" stands for.
#[verifier::external_body]
pub(crate) fn parse_hotkey(text: &str) -> (result: Result<u32, String>)
    ensures
        match result {
            Ok(id) => hotkey_error(text@) is None && (id == hotkey_ids(text@).0 || id
                == hotkey_ids(text@).1),
            Err(e) => hotkey_error(text@) == Some(e@),
        },
{
    match text.parse::<global_hotkey::hotkey::HotKey>() {
        Ok(hotkey) => Ok(hotkey.id()),
        Err(e) => Err(e.to_string()),
    }
}

/// Parse the keys of the bindings, without the space around them.
pub fn parse_bindings(bindings: &[HotkeyBinding]) -> (parsed: Vec<Result<u32, String>>)
    ensures
        parsed@.len() == bindings@.len(),
        forall|i: int|
            0 <= i < bindings@.len() ==> is_parsed(
                #[trigger] parsed@[i],
                crate::text::trimmed_text(bindings@[i].key@),
            ),
{
    let mut parsed: Vec<Result<u32, String>> = Vec::new();
    let mut i: usize = 0;
    while i < bindings.len()
        invariant
            i <= bindings@.len(),
            parsed@.len() == i,
            forall|j: int|
                0 <= j < i ==> is_parsed(
                    #[trigger] parsed@[j],
                    crate::text::trimmed_text(bindings@[j].key@),
                ),
        decreases bindings@.len() - i,
    {
        parsed.push(parse_hotkey(trimmed(bindings[i].key.as_str())));
        i = i + 1;
    }
    parsed
}

/// What became of one binding.
pub enum Fate {
    /// The key is live under this id.
    Live(u32),
    /// The key is not live, for this reason.
    Failed(Seq<char>),
}

/// What becomes of a binding whose key parsed to `parsed` and whose grab went
/// as in `grab`.
pub open spec fn fate(
    binding: HotkeyBinding,
    parsed: Result<u32, String>,
    grab: Result<(), String>,
    windows: bool,
) -> Fate {
    match parsed {
        Err(e) => Fate::Failed("`"@ + binding.key@ + "` is not a valid hotkey: "@ + e@),
        Ok(id) => match grab {
            Ok(_) => Fate::Live(id),
            Err(e) => Fate::Failed(
                "could not register `"@ + binding.key@ + "` ("@ + e@
                    + ") -- another application probably has that key already. "@ + advice(windows),
            ),
        },
    }
}

/// The texts of some strings.
pub open spec fn texts(strings: Seq<String>) -> Seq<Seq<char>> {
    Seq::new(strings.len(), |i: int| strings[i]@)
}

/// The keys and modes of the bindings that took.
pub open spec fn named_modes(working: Seq<(String, CaptureMode)>) -> Seq<(Seq<char>, CaptureMode)> {
    Seq::new(working.len(), |i: int| (working[i].0@, working[i].1))
}

/// The ids that are live after the first `n` bindings, and their modes. The
/// later of two bindings with one id counts.
pub open spec fn live_ids(
    bindings: Seq<HotkeyBinding>,
    parsed: Seq<Result<u32, String>>,
    grabs: Seq<Result<(), String>>,
    n: nat,
) -> Map<u32, CaptureMode>
    decreases n,
{
    if n == 0 {
        Map::empty()
    } else {
        let i = n - 1;
        let before = live_ids(bindings, parsed, grabs, i as nat);
        match fate(bindings[i], parsed[i], grabs[i], false) {
            Fate::Live(id) => before.insert(id, bindings[i].mode),
            Fate::Failed(_) => before,
        }
    }
}

/// The keys that are live after the first `n` bindings, as the user wrote them.
pub open spec fn live_keys(
    bindings: Seq<HotkeyBinding>,
    parsed: Seq<Result<u32, String>>,
    grabs: Seq<Result<(), String>>,
    n: nat,
) -> Seq<(Seq<char>, CaptureMode)>
    decreases n,
{
    if n == 0 {
        seq![]
    } else {
        let i = n - 1;
        let before = live_keys(bindings, parsed, grabs, i as nat);
        match fate(bindings[i], parsed[i], grabs[i], false) {
            Fate::Live(_) => before.push(
                (crate::text::trimmed_text(bindings[i].key@), bindings[i].mode),
            ),
            Fate::Failed(_) => before,
        }
    }
}

/// Why keys are not live after the first `n` bindings.
pub open spec fn reasons(
    bindings: Seq<HotkeyBinding>,
    parsed: Seq<Result<u32, String>>,
    grabs: Seq<Result<(), String>>,
    windows: bool,
    n: nat,
) -> Seq<Seq<char>>
    decreases n,
{
    if n == 0 {
        seq![]
    } else {
        let i = n - 1;
        let before = reasons(bindings, parsed, grabs, windows, i as nat);
        match fate(bindings[i], parsed[i], grabs[i], windows) {
            Fate::Live(_) => before,
            Fate::Failed(reason) => before.push(reason),
        }
    }
}

/// Registered global hotkeys.
#[derive(Debug)]
pub struct Hotkeys {
    /// Hotkey id to the mode it captures.
    pub bindings: HashMap<u32, CaptureMode>,
    /// The bindings that actually took, as the user wrote them, so that the
    /// daemon can tell them which keys are live.
    pub working: Vec<(String, CaptureMode)>,
    /// Human-readable reasons why individual bindings did not take.
    pub failures: Vec<String>,
}

impl Hotkeys {
    /// No keys are live, for these reasons.
    pub open spec fn dead(self, why: Seq<Seq<char>>) -> bool {
        &&& self.bindings@ == Map::<u32, CaptureMode>::empty()
        &&& self.working@.len() == 0
        &&& texts(self.failures@) == why
    }

    fn none() -> (hotkeys: Hotkeys)
        ensures
            hotkeys.dead(seq![]),
    {
        let hotkeys = Hotkeys {
            bindings: HashMap::new(),
            working: Vec::new(),
            failures: Vec::new(),
        };
        assert(texts(hotkeys.failures@) =~= seq![]);
        hotkeys
    }

    /// Take in how registering every configured binding went, keeping whichever
    /// succeeded. `manager` is whether keys can be grabbed in this session at
    /// all; `parsed` and `grabs` say for each binding what its key parsed to and
    /// how the grab went, which counts only where the key is valid.
    pub fn register(
        bindings: &[HotkeyBinding],
        manager: Result<(), String>,
        parsed: &[Result<u32, String>],
        grabs: &[Result<(), String>],
        windows: bool,
    ) -> (hotkeys: Hotkeys)
        requires
            parsed@.len() == bindings@.len(),
            grabs@.len() == bindings@.len(),
        ensures
            bindings@.len() == 0 ==> hotkeys.dead(seq![]),
            bindings@.len() > 0 && manager is Err ==> hotkeys.dead(
                seq![
                    "global hotkeys are unavailable on this session ("@ + manager->Err_0@ + "); "@
                        + advice(windows),
                ],
            ),
            manager is Ok ==> {
                &&& hotkeys.bindings@ == live_ids(bindings@, parsed@, grabs@, bindings@.len())
                &&& named_modes(hotkeys.working@) == live_keys(
                    bindings@,
                    parsed@,
                    grabs@,
                    bindings@.len(),
                )
                &&& texts(hotkeys.failures@) == reasons(
                    bindings@,
                    parsed@,
                    grabs@,
                    windows,
                    bindings@.len(),
                )
            },
    {
        let mut hotkeys = Hotkeys::none();
        assert(named_modes(hotkeys.working@) =~= seq![]);
        if bindings.len() == 0 {
            return hotkeys;
        }
        match manager {
            Ok(_) => {},
            Err(e) => {
                let mut text = joined("global hotkeys are unavailable on this session (", e.as_str());
                text.append("); ");
                text.append(rebind_advice(windows));
                hotkeys.failures.push(text);
                assert(texts(hotkeys.failures@) =~= seq![
                    "global hotkeys are unavailable on this session ("@ + e@ + "); "@ + advice(
                        windows,
                    ),
                ]);
                return hotkeys;
            },
        }
        let mut i: usize = 0;
        while i < bindings.len()
            invariant
                i <= bindings@.len(),
                parsed@.len() == bindings@.len(),
                grabs@.len() == bindings@.len(),
                hotkeys.bindings@ == live_ids(bindings@, parsed@, grabs@, i as nat),
                named_modes(hotkeys.working@) == live_keys(bindings@, parsed@, grabs@, i as nat),
                texts(hotkeys.failures@) == reasons(
                    bindings@,
                    parsed@,
                    grabs@,
                    windows,
                    i as nat,
                ),
            decreases bindings@.len() - i,
        {
            let ghost before = hotkeys;
            let key = bindings[i].key.as_str();
            match &parsed[i] {
                Err(e) => {
                    let mut text = joined("`", key);
                    text.append("` is not a valid hotkey: ");
                    text.append(e.as_str());
                    hotkeys.failures.push(text);
                    assert(texts(hotkeys.failures@) =~= texts(before.failures@).push(text@));
                },
                Ok(id) => match &grabs[i] {
                    Ok(_) => {
                        hotkeys.bindings.insert(*id, bindings[i].mode);
                        hotkeys.working.push((trimmed(key).to_owned(), bindings[i].mode));
                        assert(named_modes(hotkeys.working@) =~= named_modes(before.working@).push(
                            (crate::text::trimmed_text(key@), bindings@[i as int].mode),
                        ));
                    },
                    Err(e) => {
                        let mut text = joined("could not register `", key);
                        text.append("` (");
                        text.append(e.as_str());
                        text.append(
                            ") -- another application probably has that key already. ",
                        );
                        text.append(rebind_advice(windows));
                        hotkeys.failures.push(text);
                        assert(texts(hotkeys.failures@) =~= texts(before.failures@).push(text@));
                    },
                },
            }
            i = i + 1;
        }
        hotkeys
    }

    /// Is at least one hotkey live?
    pub fn is_active(&self) -> (yes: bool)
        ensures
            yes == (self.bindings@.len() > 0),
    {
        self.bindings.len() > 0
    }

    /// Why individual bindings did not take.
    pub fn failures(&self) -> (failures: &[String])
        ensures
            failures@ == self.failures@,
    {
        self.failures.as_slice()
    }

    /// How many bindings actually took effect.
    pub fn registered_count(&self) -> (count: usize)
        ensures
            count == self.bindings@.len(),
    {
        self.bindings.len()
    }
}

/// The live keys and what each captures, with commas between them.
pub open spec fn keys_text(working: Seq<(Seq<char>, CaptureMode)>) -> Seq<char>
    decreases working.len(),
{
    if working.len() == 0 {
        seq![]
    } else {
        let before = keys_text(working.drop_last());
        let (key, mode) = working.last();
        if working.len() == 1 {
            before + key + " for "@ + mode.text()
        } else {
            before + ", "@ + key + " for "@ + mode.text()
        }
    }
}

/// The reasons, each in a paragraph of its own.
pub open spec fn paragraphs(reasons: Seq<Seq<char>>) -> Seq<char>
    decreases reasons.len(),
{
    if reasons.len() == 0 {
        seq![]
    } else {
        paragraphs(reasons.drop_last()) + "\n\n"@ + reasons.last()
    }
}

/// What the user is told at startup, below the headline.
pub open spec fn announced(
    working: Seq<(Seq<char>, CaptureMode)>,
    reasons: Seq<Seq<char>>,
) -> Seq<char> {
    (if working.len() == 0 {
        "No global hotkey is active."@
    } else {
        "Press "@ + keys_text(working) + "."@
    }) + paragraphs(reasons)
}

/// The first event that is the press of a bound key, as the mode it captures.
pub open spec fn first_press(bindings: Map<u32, CaptureMode>, events: Seq<(u32, bool)>) -> Option<
    CaptureMode,
>
    decreases events.len(),
{
    if events.len() == 0 {
        None
    } else if events[0].1 && bindings.dom().contains(events[0].0) {
        Some(bindings[events[0].0])
    } else {
        first_press(bindings, events.subrange(1, events.len() as int))
    }
}

impl Hotkeys {
    fn keys_line(&self) -> (text: String)
        ensures
            text@ == keys_text(named_modes(self.working@)),
    {
        let ghost all = named_modes(self.working@);
        let mut text = String::new();
        let mut i: usize = 0;
        while i < self.working.len()
            invariant
                i <= self.working@.len(),
                all == named_modes(self.working@),
                text@ == keys_text(all.take(i as int)),
            decreases self.working@.len() - i,
        {
            let ghost part = all.take(i + 1);
            assert(part.drop_last() =~= all.take(i as int));
            assert(part.last() == all[i as int]);
            if i > 0 {
                text.append(", ");
            }
            text.append(self.working[i].0.as_str());
            text.append(" for ");
            text.append(self.working[i].1.name());
            i = i + 1;
        }
        assert(all.take(i as int) =~= all);
        text
    }

    /// What the user should be told at startup, as headline and text.
    ///
    /// A daemon is invisible by design, so "it is running" is not enough: the
    /// user needs the keys. That something is wrong is said in the headline,
    /// because a desktop may cut the text off.
    pub fn announcement(&self) -> (said: (String, String))
        ensures
            said.0@ == (if self.failures@.len() == 0 {
                "bettershot is running"@
            } else {
                "bettershot is running, but a hotkey did not register"@
            }),
            said.1@ == announced(named_modes(self.working@), texts(self.failures@)),
    {
        let mut body = String::new();
        if self.working.len() == 0 {
            body.append("No global hotkey is active.");
            assert(body@ =~= "No global hotkey is active."@);
        } else {
            body.append("Press ");
            body.append(self.keys_line().as_str());
            body.append(".");
            assert(body@ =~= "Press "@ + keys_text(named_modes(self.working@)) + "."@);
        }
        let ghost start = body@;
        let ghost all = texts(self.failures@);
        let mut i: usize = 0;
        assert(body@ =~= start + paragraphs(all.take(0)));
        while i < self.failures.len()
            invariant
                i <= self.failures@.len(),
                all == texts(self.failures@),
                body@ == start + paragraphs(all.take(i as int)),
            decreases self.failures@.len() - i,
        {
            let ghost part = all.take(i + 1);
            assert(part.drop_last() =~= all.take(i as int));
            assert(part.last() == all[i as int]);
            body.append("\n\n");
            body.append(self.failures[i].as_str());
            assert(body@ =~= start + paragraphs(part));
            i = i + 1;
        }
        assert(all.take(i as int) =~= all);
        let title = if self.failures.len() == 0 {
            "bettershot is running".to_owned()
        } else {
            "bettershot is running, but a hotkey did not register".to_owned()
        };
        (title, body)
    }

    /// A one-line summary for the log.
    pub fn summary(&self) -> (text: String)
        ensures
            ({
                let live = crate::text::decimal_text(self.bindings@.len());
                let failed = crate::text::decimal_text(self.failures@.len());
                text@ == (if self.bindings@.len() == 0 && self.failures@.len() == 0 {
                    "no hotkeys configured"@
                } else if self.failures@.len() == 0 {
                    live + " global hotkey(s) registered"@
                } else if self.bindings@.len() == 0 {
                    "no global hotkeys available ("@ + failed + " failed)"@
                } else {
                    live + " global hotkey(s) registered, "@ + failed + " failed"@
                })
            }),
    {
        let count: usize = self.registered_count();
        let failed: usize = self.failures.len();
        if count == 0 && failed == 0 {
            "no hotkeys configured".to_owned()
        } else if failed == 0 {
            joined(decimal(count as u64).as_str(), " global hotkey(s) registered")
        } else if count == 0 {
            let mut text = joined("no global hotkeys available (", decimal(failed as u64).as_str());
            text.append(" failed)");
            text
        } else {
            let mut text = joined(
                decimal(count as u64).as_str(),
                " global hotkey(s) registered, ",
            );
            text.append(decimal(failed as u64).as_str());
            text.append(" failed");
            text
        }
    }

    /// The capture to start, given the hotkey events that piled up: the id of
    /// the key, and whether it went down.
    ///
    /// Only key-down is acted on, since acting on both edges would fire twice
    /// per press. The rest of the events is dropped, so that a burst cannot
    /// queue up a backlog of captures.
    pub fn poll(&self, events: &[(u32, bool)]) -> (triggered: Option<CaptureMode>)
        ensures
            triggered == first_press(self.bindings@, events@),
    {
        let mut i: usize = 0;
        assert(events@.subrange(0, events@.len() as int) =~= events@);
        while i < events.len()
            invariant
                i <= events@.len(),
                first_press(self.bindings@, events@) == first_press(
                    self.bindings@,
                    events@.subrange(i as int, events@.len() as int),
                ),
            decreases events@.len() - i,
        {
            let ghost rest = events@.subrange(i as int, events@.len() as int);
            assert(rest[0] == events@[i as int]);
            assert(rest.subrange(1, rest.len() as int) =~= events@.subrange(
                i + 1,
                events@.len() as int,
            ));
            let (id, pressed) = events[i];
            if pressed {
                match self.bindings.get(&id) {
                    Some(mode) => {
                        return Some(*mode);
                    },
                    None => {},
                }
            }
            i = i + 1;
        }
        None
    }
}

/// No binding is lost: each is either live or has its reason.
pub proof fn law_every_binding_is_accounted_for(
    bindings: Seq<HotkeyBinding>,
    parsed: Seq<Result<u32, String>>,
    grabs: Seq<Result<(), String>>,
    windows: bool,
    n: nat,
)
    requires
        n <= bindings.len(),
        parsed.len() == bindings.len(),
        grabs.len() == bindings.len(),
    ensures
        live_keys(bindings, parsed, grabs, n).len() + reasons(
            bindings,
            parsed,
            grabs,
            windows,
            n,
        ).len() == n,
    decreases n,
{
    if n > 0 {
        law_every_binding_is_accounted_for(bindings, parsed, grabs, windows, (n - 1) as nat);
    }
}

/// A hotkey is live exactly when the user is told of a key to press.
pub proof fn law_live_keys_are_announced(
    bindings: Seq<HotkeyBinding>,
    parsed: Seq<Result<u32, String>>,
    grabs: Seq<Result<(), String>>,
    n: nat,
)
    requires
        n <= bindings.len(),
        parsed.len() == bindings.len(),
        grabs.len() == bindings.len(),
    ensures
        live_ids(bindings, parsed, grabs, n).dom().finite(),
        live_ids(bindings, parsed, grabs, n).len() > 0 <==> live_keys(
            bindings,
            parsed,
            grabs,
            n,
        ).len() > 0,
    decreases n,
{
    if n > 0 {
        law_live_keys_are_announced(bindings, parsed, grabs, (n - 1) as nat);
        let i = n - 1;
        match fate(bindings[i], parsed[i], grabs[i], false) {
            Fate::Live(id) => {
                let ids = live_ids(bindings, parsed, grabs, n);
                assert(ids.dom().contains(id));
                assert(ids.dom().len() > 0) by {
                    if ids.dom().len() == 0 {
                        ids.dom().lemma_len0_is_empty();
                    }
                }
            },
            Fate::Failed(_) => {},
        }
    } else {
        assert(live_ids(bindings, parsed, grabs, n).dom() =~= Set::empty());
    }
}

/// Releasing keys, and pressing keys that are not bound, starts nothing.
pub proof fn law_only_presses_of_bound_keys_count(
    bindings: Map<u32, CaptureMode>,
    events: Seq<(u32, bool)>,
)
    ensures
        first_press(bindings, events) is Some <==> exists|i: int|
            0 <= i < events.len() && (#[trigger] events[i]).1 && bindings.dom().contains(
                events[i].0,
            ),
    decreases events.len(),
{
    if events.len() > 0 {
        let rest = events.subrange(1, events.len() as int);
        law_only_presses_of_bound_keys_count(bindings, rest);
        if events[0].1 && bindings.dom().contains(events[0].0) {
        } else if first_press(bindings, events) is Some {
            let i = choose|i: int|
                0 <= i < rest.len() && (#[trigger] rest[i]).1 && bindings.dom().contains(rest[i].0);
            assert(events[i + 1] == rest[i]);
        } else {
            assert forall|i: int| 0 <= i < events.len() implies !((#[trigger] events[i]).1
                && bindings.dom().contains(events[i].0)) by {
                if i > 0 {
                    assert(rest[i - 1] == events[i]);
                }
            }
        }
    }
}

/// The tray menu: what is written on each entry, and what it does.
pub open spec fn menu() -> Seq<(Seq<char>, Trigger)> {
    seq![
        ("Capture region"@, Trigger::Capture(CaptureMode::Region)),
        ("Capture window"@, Trigger::Capture(CaptureMode::Window)),
        ("Capture monitor"@, Trigger::Capture(CaptureMode::Monitor)),
        ("Capture everything"@, Trigger::Capture(CaptureMode::All)),
        ("Settings…"@, Trigger::Settings),
        ("Quit bettershot"@, Trigger::Quit),
    ]
}

/// The tray menu, independent of the toolkit that renders it; without entries
/// where the tray is disabled.
pub fn tray_menu_items(tray: bool) -> (items: Vec<(&'static str, Trigger)>)
    ensures
        Seq::new(items@.len(), |i: int| (items@[i].0@, items@[i].1)) == (if tray {
            menu()
        } else {
            seq![]
        }),
{
    let mut items: Vec<(&'static str, Trigger)> = Vec::new();
    if tray {
        items.push(("Capture region", Trigger::Capture(CaptureMode::Region)));
        items.push(("Capture window", Trigger::Capture(CaptureMode::Window)));
        items.push(("Capture monitor", Trigger::Capture(CaptureMode::Monitor)));
        items.push(("Capture everything", Trigger::Capture(CaptureMode::All)));
        items.push(("Settings…", Trigger::Settings));
        items.push(("Quit bettershot", Trigger::Quit));
    }
    assert(Seq::new(items@.len(), |i: int| (items@[i].0@, items@[i].1)) =~= (if tray {
        menu()
    } else {
        seq![]
    }));
    items
}

/// What an entry of the menu does. The later of two entries with one id counts.
pub open spec fn menu_action(actions: Seq<(u32, Trigger)>, id: u32) -> Option<Trigger>
    decreases actions.len(),
{
    if actions.len() == 0 {
        None
    } else if actions.last().0 == id {
        Some(actions.last().1)
    } else {
        menu_action(actions.drop_last(), id)
    }
}

/// The first click on an entry of the menu, as what that entry does.
pub open spec fn first_choice(actions: Seq<(u32, Trigger)>, clicked: Seq<u32>) -> Option<Trigger>
    decreases clicked.len(),
{
    if clicked.len() == 0 {
        None
    } else {
        match menu_action(actions, clicked[0]) {
            Some(trigger) => Some(trigger),
            None => first_choice(actions, clicked.subrange(1, clicked.len() as int)),
        }
    }
}

fn action_of(actions: &[(u32, Trigger)], id: u32) -> (action: Option<Trigger>)
    ensures
        action == menu_action(actions@, id),
{
    let mut i: usize = actions.len();
    assert(actions@.take(i as int) =~= actions@);
    while i > 0
        invariant
            i <= actions@.len(),
            menu_action(actions@, id) == menu_action(actions@.take(i as int), id),
        decreases i,
    {
        assert(actions@.take(i as int).drop_last() =~= actions@.take(i - 1));
        assert(actions@.take(i as int).last() == actions@[i - 1]);
        i = i - 1;
        if actions[i].0 == id {
            return Some(actions[i].1);
        }
    }
    None
}

/// What the tray asks for, given the ids of the menu's entries and what each
/// does, and the clicks that piled up. The first click on a known entry counts;
/// the rest is dropped.
pub fn poll_menu(actions: &[(u32, Trigger)], clicked: &[u32]) -> (triggered: Option<Trigger>)
    ensures
        triggered == first_choice(actions@, clicked@),
{
    let mut i: usize = 0;
    assert(clicked@.subrange(0, clicked@.len() as int) =~= clicked@);
    while i < clicked.len()
        invariant
            i <= clicked@.len(),
            first_choice(actions@, clicked@) == first_choice(
                actions@,
                clicked@.subrange(i as int, clicked@.len() as int),
            ),
        decreases clicked@.len() - i,
    {
        let ghost rest = clicked@.subrange(i as int, clicked@.len() as int);
        assert(rest[0] == clicked@[i as int]);
        assert(rest.subrange(1, rest.len() as int) =~= clicked@.subrange(
            i + 1,
            clicked@.len() as int,
        ));
        match action_of(actions, clicked[i]) {
            Some(trigger) => {
                return Some(trigger);
            },
            None => {},
        }
        i = i + 1;
    }
    None
}

/// Why there is no tray in a build without one.
pub const TRAY_MISSING: &'static str = "this build was compiled without the `tray` feature";

/// What the resident process is asked to do: the tray comes before the keys.
pub fn take_trigger(from_tray: Option<Trigger>, from_keys: Option<CaptureMode>) -> (trigger: Option<
    Trigger,
>)
    ensures
        trigger == (match (from_tray, from_keys) {
            (Some(t), _) => Some(t),
            (None, Some(mode)) => Some(Trigger::Capture(mode)),
            (None, None) => None,
        }),
{
    match from_tray {
        Some(t) => Some(t),
        None => match from_keys {
            Some(mode) => Some(Trigger::Capture(mode)),
            None => None,
        },
    }
}

/// The first press of a bound key decides: what it captures is what that key is
/// bound to, whatever came before or comes after.
pub proof fn law_the_first_press_decides(
    bindings: Map<u32, CaptureMode>,
    events: Seq<(u32, bool)>,
    i: int,
)
    requires
        0 <= i < events.len(),
        events[i].1,
        bindings.dom().contains(events[i].0),
        forall|j: int|
            0 <= j < i ==> !((#[trigger] events[j]).1 && bindings.dom().contains(events[j].0)),
    ensures
        first_press(bindings, events) == Some(bindings[events[i].0]),
    decreases events.len(),
{
    if i > 0 {
        let rest = events.subrange(1, events.len() as int);
        assert(!(events[0].1 && bindings.dom().contains(events[0].0)));
        assert forall|j: int| 0 <= j < i - 1 implies !((#[trigger] rest[j]).1
            && bindings.dom().contains(rest[j].0)) by {
            assert(rest[j] == events[j + 1]);
        }
        law_the_first_press_decides(bindings, rest, i - 1);
    }
}

/// A binding is live exactly when its key is valid and could be grabbed. Then it
/// is listed under its key without the space around it, and otherwise a reason
/// is added; the other bindings are not affected.
pub proof fn law_bindings_live_or_fail_one_by_one(
    bindings: Seq<HotkeyBinding>,
    parsed: Seq<Result<u32, String>>,
    grabs: Seq<Result<(), String>>,
    windows: bool,
    n: nat,
)
    ensures
        ({
            let next = n + 1;
            let before = live_keys(bindings, parsed, grabs, n);
            let after = live_keys(bindings, parsed, grabs, next);
            let why = reasons(bindings, parsed, grabs, windows, n);
            let then_why = reasons(bindings, parsed, grabs, windows, next);
            let i = n as int;
            if parsed[i] is Ok && grabs[i] is Ok {
                &&& after == before.push(
                    (crate::text::trimmed_text(bindings[i].key@), bindings[i].mode),
                )
                &&& then_why == why
            } else {
                &&& after == before
                &&& then_why.len() == why.len() + 1
                &&& then_why.take(why.len() as int) == why
            }
        }),
        live_keys(bindings, parsed, grabs, 0).len() == 0,
        reasons(bindings, parsed, grabs, windows, 0).len() == 0,
{
    let next = n + 1;
    let why = reasons(bindings, parsed, grabs, windows, n);
    let then_why = reasons(bindings, parsed, grabs, windows, next);
    if !(parsed[n as int] is Ok && grabs[n as int] is Ok) {
        assert(then_why.take(why.len() as int) =~= why);
    }
}

/// An id is live exactly when some binding with it is, and it captures what the
/// last of those says.
pub proof fn law_the_last_binding_of_an_id_counts(
    bindings: Seq<HotkeyBinding>,
    parsed: Seq<Result<u32, String>>,
    grabs: Seq<Result<(), String>>,
    n: nat,
    id: u32,
)
    ensures
        live_ids(bindings, parsed, grabs, n).dom().contains(id) <==> exists|i: int|
            0 <= i < n && #[trigger] parsed[i] == Ok::<u32, String>(id) && grabs[i] is Ok,
        forall|i: int|
            0 <= i < n && #[trigger] parsed[i] == Ok::<u32, String>(id) && grabs[i] is Ok && (
            forall|j: int|
                i < j < n ==> !(#[trigger] parsed[j] == Ok::<u32, String>(id) && grabs[j] is Ok))
                ==> live_ids(bindings, parsed, grabs, n)[id] == bindings[i].mode,
    decreases n,
{
    if n > 0 {
        let m = (n - 1) as nat;
        law_the_last_binding_of_an_id_counts(bindings, parsed, grabs, m, id);
        let last = n - 1;
        assert forall|i: int|
            0 <= i < n && #[trigger] parsed[i] == Ok::<u32, String>(id) && grabs[i] is Ok && (
            forall|j: int|
                i < j < n ==> !(#[trigger] parsed[j] == Ok::<u32, String>(id)
                    && grabs[j] is Ok)) implies live_ids(bindings, parsed, grabs, n)[id]
            == bindings[i].mode by {
            if i < last {
                assert(!(parsed[last] == Ok::<u32, String>(id) && grabs[last] is Ok));
            }
        }
        if parsed[last] == Ok::<u32, String>(id) && grabs[last] is Ok {
            assert(live_ids(bindings, parsed, grabs, n).dom().contains(id));
        }
    }
}

/// An entry of the menu does what the last action with its id says.
pub proof fn law_the_last_action_of_an_entry_counts(actions: Seq<(u32, Trigger)>, id: u32, i: int)
    requires
        0 <= i < actions.len(),
        forall|j: int| i < j < actions.len() ==> (#[trigger] actions[j]).0 != id,
    ensures
        actions[i].0 == id ==> menu_action(actions, id) == Some(actions[i].1),
        actions[i].0 != id && i == 0 ==> menu_action(actions, id) is None,
    decreases actions.len(),
{
    let last = actions.len() - 1;
    let rest = actions.drop_last();
    if i < last {
        assert(actions[last].0 != id);
        assert forall|j: int| i < j < rest.len() implies (#[trigger] rest[j]).0 != id by {
            assert(rest[j] == actions[j]);
        }
        law_the_last_action_of_an_entry_counts(rest, id, i);
    } else if actions[i].0 != id && i == 0 {
        assert(menu_action(rest, id) is None);
    }
}

/// The first click on a known entry decides.
pub proof fn law_the_first_choice_decides(actions: Seq<(u32, Trigger)>, clicked: Seq<u32>, i: int)
    requires
        0 <= i < clicked.len(),
        menu_action(actions, clicked[i]) is Some,
        forall|j: int| 0 <= j < i ==> menu_action(actions, #[trigger] clicked[j]) is None,
    ensures
        first_choice(actions, clicked) == menu_action(actions, clicked[i]),
    decreases clicked.len(),
{
    if i > 0 {
        let rest = clicked.subrange(1, clicked.len() as int);
        assert(menu_action(actions, clicked[0]) is None);
        assert forall|j: int| 0 <= j < i - 1 implies menu_action(
            actions,
            #[trigger] rest[j],
        ) is None by {
            assert(rest[j] == clicked[j + 1]);
        }
        law_the_first_choice_decides(actions, rest, i - 1);
    }
}

/// Without a click on a known entry nothing is chosen.
pub proof fn law_unknown_clicks_choose_nothing(actions: Seq<(u32, Trigger)>, clicked: Seq<u32>)
    requires
        forall|j: int|
            0 <= j < clicked.len() ==> menu_action(actions, #[trigger] clicked[j]) is None,
    ensures
        first_choice(actions, clicked) is None,
    decreases clicked.len(),
{
    if clicked.len() > 0 {
        let rest = clicked.subrange(1, clicked.len() as int);
        assert(menu_action(actions, clicked[0]) is None);
        assert forall|j: int| 0 <= j < rest.len() implies menu_action(
            actions,
            #[trigger] rest[j],
        ) is None by {
            assert(rest[j] == clicked[j + 1]);
        }
        law_unknown_clicks_choose_nothing(actions, rest);
    }
}

/// Two bindings are the same only with the same key for the same mode.
pub proof fn law_bindings_are_told_apart_by_key_and_mode(a: HotkeyBinding, b: HotkeyBinding)
    ensures
        a.key@ != b.key@ ==> !same_binding(a, b),
        a.mode != b.mode ==> !same_binding(a, b),
        a.key@ == b.key@ && a.mode == b.mode ==> same_binding(a, b),
{
}

/// Only where there is a compositor to bind is the user told to bind it.
pub proof fn law_advice_fits_the_system(windows: bool)
    ensures
        !windows ==> advice(windows).subrange(0, 20) == "Bind your compositor"@,
        windows ==> advice(windows).subrange(0, 20) == "Pick a different key"@,
{
    reveal_strlit("Pick a different key under [daemon] hotkeys in the config file, or use the tray icon. Note that Windows 11 gives PrintScreen to its own Snipping Tool by default (Settings > Accessibility > Keyboard).");
    reveal_strlit("Bind your compositor to `bettershot --capture region` instead, or pick a different key under [daemon] hotkeys in the config file.");
    reveal_strlit("Bind your compositor");
    reveal_strlit("Pick a different key");
}

/// The announcement names every key that works with its mode, one after the
/// other, and gives every reason a paragraph of its own.
pub proof fn law_announcements_say_everything(
    working: Seq<(Seq<char>, CaptureMode)>,
    key: Seq<char>,
    mode: CaptureMode,
    reasons: Seq<Seq<char>>,
    reason: Seq<char>,
)
    ensures
        announced(seq![], seq![]) == "No global hotkey is active."@,
        announced(seq![(key, mode)], seq![]) == "Press "@ + key + " for "@ + mode.text() + "."@,
        working.len() > 0 ==> announced(working.push((key, mode)), seq![]) == announced(
            working,
            seq![],
        ).drop_last() + ", "@ + key + " for "@ + mode.text() + "."@,
        announced(working, reasons.push(reason)) == announced(working, reasons) + "\n\n"@ + reason,
{
    let one = seq![(key, mode)];
    let none: Seq<(Seq<char>, CaptureMode)> = seq![];
    assert(one.drop_last() =~= none);
    assert(keys_text(none) =~= Seq::<char>::empty());
    assert(keys_text(one) =~= key + " for "@ + mode.text());
    assert(paragraphs(seq![]) =~= Seq::<char>::empty());
    assert(announced(seq![], seq![]) =~= "No global hotkey is active."@);
    assert(announced(one, seq![]) =~= "Press "@ + key + " for "@ + mode.text() + "."@);
    reveal_strlit(".");
    if working.len() > 0 {
        let more = working.push((key, mode));
        assert(more.drop_last() =~= working);
        assert(announced(working, seq![]).drop_last() =~= "Press "@ + keys_text(working));
        assert(announced(more, seq![]) =~= announced(working, seq![]).drop_last() + ", "@ + key
            + " for "@ + mode.text() + "."@);
    }
    assert(reasons.push(reason).drop_last() =~= reasons);
    assert(announced(working, reasons.push(reason)) =~= announced(working, reasons) + "\n\n"@
        + reason);
}

/// A text is taken as a key with an id of that key, and refused with the reason
/// that the parser gives.
pub proof fn law_keys_are_taken_or_refused_as_parsed(result: Result<u32, String>, text: Seq<char>)
    requires
        is_parsed(result, text),
    ensures
        result is Ok <==> hotkey_error(text) is None,
        result matches Ok(id) ==> id == hotkey_ids(text).0 || id == hotkey_ids(text).1,
        result matches Err(e) ==> hotkey_error(text) == Some(e@),
        hotkey_error(text) is None ==> is_parsed(Ok(hotkey_ids(text).0), text) && is_parsed(
            Ok(hotkey_ids(text).1),
            text,
        ),
{
}

/// Where no keys are live none is bound and none is announced, and the reasons
/// are those that were given.
pub proof fn law_dead_hotkeys_give_their_reasons(hotkeys: Hotkeys, why: Seq<Seq<char>>, i: int)
    requires
        hotkeys.dead(why),
        0 <= i < why.len(),
    ensures
        forall|id: u32| !(#[trigger] hotkeys.bindings@.contains_key(id)),
        hotkeys.working@.len() == 0,
        hotkeys.failures@.len() == why.len(),
        hotkeys.failures@[i]@ == why[i],
{
    assert(texts(hotkeys.failures@)[i] == why[i]);
}

} // verus!
