//! Linux under Wayland: `xdg-desktop-portal`'s Screenshot interface.
//!
//! Wayland compositors do not let a client read other clients' pixels, so the
//! only portable route is the portal: a D-Bus request that the compositor
//! services, possibly after asking the user. The consequences are reflected in
//! [`Capabilities`]:
//!
//! * **No enumeration.** The portal exposes neither monitors nor windows.
//! * **Whole desktop only.** It returns one image of everything. Region targets
//!   are served by cropping that image; monitor and window targets are refused.
//! * **The origin is assumed to be `(0, 0)`** and the scale is reported as 1.0:
//!   the portal reports no geometry at all.
//! * **Cancellation is normal**, and not a failure.

use crate::codec::decode_named;
use crate::error::{classify_portal_error, CaptureError};
use crate::frame::RawFrame;
use crate::geometry::{Rect, Vec2D};
use crate::monitor::MonitorInfo;
use crate::picture::RgbaImage;
use crate::single::ScaleFactor;
use crate::target::{Capabilities, CaptureTarget};
use crate::text::{
    ascii_lowercase, chars_of, is_white_space, joined, same_text, starts_with_text, utf8_text,
};
use crate::window::WindowInfo;
use vstd::prelude::*;
use vstd::string::*;

verus! {

/// Whether to ask the portal for its own interactive picker: the region is
/// selected on a frozen frame, so a second picker would only be confusing.
pub const INTERACTIVE: bool = false;

/// The bus name every portal backend claims. The name is activatable: on an
/// idle desktop nobody owns it until the first request starts the service.
pub const PORTAL_BUS_NAME: &'static str = "org.freedesktop.portal.Desktop";

/// How long to wait for the bus itself to answer a question about who owns a
/// name, in seconds. This is a local round trip.
pub const BUS_QUERY_TIMEOUT_SECS: u64 = 2;

/// Screenshot-portal backend.
#[derive(Debug, Clone, Copy, PartialEq, Eq, Structural)]
pub struct PortalBackend;

/// `plan` is how a target is served from an image of the whole desktop: by
/// cropping it to a region, by taking all of it, or not at all.
pub open spec fn is_plan(plan: Result<Option<Rect>, CaptureError>, target: CaptureTarget) -> bool {
    match target {
        CaptureTarget::FullDesktop => plan == Ok::<Option<Rect>, CaptureError>(None),
        CaptureTarget::Region { monitor: None, rect } => plan == Ok::<Option<Rect>, CaptureError>(
            Some(rect),
        ),
        _ => plan matches Err(e) && e is Unsupported && e.detail()
            == "the Wayland screenshot portal can only capture the whole desktop, so a "@
            + target.kind_text()
            + " target cannot be served; it exposes no monitor or window geometry"@,
    }
}

impl PortalBackend {
    /// Holds no connection: each capture is a one-shot round trip.
    pub fn new() -> (backend: PortalBackend)
        ensures
            backend == PortalBackend,
    {
        PortalBackend
    }

    /// Stable identifier.
    pub fn name(&self) -> (name: &'static str)
        ensures
            name@ == "wayland-portal"@,
    {
        "wayland-portal"
    }

    /// The portal does not expose monitors.
    pub fn monitors(&self) -> (result: Result<Vec<MonitorInfo>, CaptureError>)
        ensures
            result matches Err(e) && e is Unsupported && e.detail()
                == "the Wayland screenshot portal does not expose monitor geometry; capture the full desktop and select a region inside it"@,
    {
        Err(
            CaptureError::unsupported(
                "the Wayland screenshot portal does not expose monitor geometry; capture the full desktop and select a region inside it",
            ),
        )
    }

    /// The portal does not expose windows.
    pub fn windows(&self) -> (result: Result<Vec<WindowInfo>, CaptureError>)
        ensures
            result matches Err(e) && e is Unsupported && e.detail()
                == "the Wayland screenshot portal does not expose the window list; window capture is not available on Wayland"@,
    {
        Err(
            CaptureError::unsupported(
                "the Wayland screenshot portal does not expose the window list; window capture is not available on Wayland",
            ),
        )
    }

    /// What can be served: the whole desktop and regions of it, after a possible
    /// permission prompt.
    pub fn capabilities(&self) -> (c: Capabilities)
        ensures
            c == (Capabilities {
                full_desktop: true,
                monitor: false,
                window: false,
                region: true,
                monitor_enumeration: false,
                window_enumeration: false,
                interactive_only: false,
                may_prompt_for_permission: true,
                cursor: false,
            }),
    {
        Capabilities {
            full_desktop: true,
            monitor: false,
            window: false,
            region: true,
            monitor_enumeration: false,
            window_enumeration: false,
            interactive_only: INTERACTIVE,
            may_prompt_for_permission: true,
            cursor: false,
        }
    }

    /// Decide what is possible *before* touching D-Bus, so that an impossible
    /// request fails instantly instead of after a round trip.
    pub fn plan_capture(&self, target: CaptureTarget) -> (plan: Result<Option<Rect>, CaptureError>)
        ensures
            is_plan(plan, target),
    {
        match target {
            CaptureTarget::FullDesktop => Ok(None),
            CaptureTarget::Region { monitor: None, rect } => Ok(Some(rect)),
            _ => {
                let mut message = joined(
                    "the Wayland screenshot portal can only capture the whole desktop, so a ",
                    target.kind(),
                );
                message.append(
                    " target cannot be served; it exposes no monitor or window geometry",
                );
                Err(CaptureError::Unsupported(message))
            },
        }
    }

    /// Serve a planned capture from the image of the whole desktop.
    pub fn capture(&self, plan: Option<Rect>, frame: RawFrame) -> (result: Result<
        RawFrame,
        CaptureError,
    >)
        requires
            frame.wf(),
        ensures
            match plan {
                Some(rect) => crate::frame::is_cropped(result, frame, rect),
                None => result == Ok::<RawFrame, CaptureError>(frame),
            },
    {
        match plan {
            Some(rect) => frame.crop(rect),
            None => Ok(frame),
        }
    }
}

/// `frame` is the picture that decoding found, at the origin and at scale 1.0.
pub open spec fn is_screenshot(frame: RawFrame, decoded: (u32, u32, Seq<u8>)) -> bool {
    &&& frame.wf()
    &&& frame.width == decoded.0
    &&& frame.height == decoded.1
    &&& frame.data@ == decoded.2
    &&& frame.origin == (Vec2D { x: 0, y: 0 })
    &&& frame.scale_factor == (ScaleFactor { bits: crate::single::ONE_BITS })
}

/// `result` is what the portal's image comes to once it is decoded, or not.
pub open spec fn is_portal_image(
    result: Result<RawFrame, CaptureError>,
    decoded: Result<(u32, u32, Seq<u8>), Seq<char>>,
) -> bool {
    match decoded {
        Ok(found) => result matches Ok(frame) && is_screenshot(frame, found),
        Err(message) => result matches Err(e) && e is Backend && e.detail()
            == "could not decode the portal image: "@ + message,
    }
}

/// The image that a decoder found, or its message.
pub open spec fn decoded_image(decoded: Result<RgbaImage, String>) -> Result<
    (u32, u32, Seq<u8>),
    Seq<char>,
> {
    match decoded {
        Ok(image) => Ok((image.width, image.height, image.data@)),
        Err(message) => Err(message@),
    }
}

/// The frame that the portal's image is, given what a decoder made of it. The
/// portal reports no geometry, so the compositor's outputs are taken to start at
/// the origin.
pub fn screenshot_frame(decoded: Result<RgbaImage, String>) -> (result: Result<
    RawFrame,
    CaptureError,
>)
    requires
        decoded matches Ok(image) ==> image.wf(),
    ensures
        is_portal_image(result, decoded_image(decoded)),
{
    match decoded {
        Ok(image) => {
            Ok(
                RawFrame {
                    width: image.width,
                    height: image.height,
                    data: image.data,
                    origin: Vec2D::new(0, 0),
                    scale_factor: ScaleFactor::one(),
                },
            )
        },
        Err(message) => {
            Err(
                CaptureError::Backend(
                    joined("could not decode the portal image: ", message.as_str()),
                ),
            )
        },
    }
}

/// The frame in the image file that the portal wrote under the name `path`. How
/// the file begins tells its format; where that tells nothing, the name does.
pub fn decode_screenshot(file: &[u8], path: &str) -> (result: Result<RawFrame, CaptureError>)
    ensures
        exists|decoded: Result<RgbaImage, String>| #[trigger]
            crate::codec::is_decoded_named(decoded, file@, path@) && is_portal_image(
                result,
                decoded_image(decoded),
            ),
{
    let decoded = decode_named(file, path);
    assert(crate::codec::is_decoded_named(decoded, file@, path@));
    screenshot_frame(decoded)
}

/// What is said where no portal can be asked.
pub const PORTAL_MISSING: &'static str = "no desktop portal is available (org.freedesktop.portal.Desktop is neither running nor startable on the session bus), so the compositor cannot be asked for a screenshot. Install xdg-desktop-portal plus the backend for your compositor (xdg-desktop-portal-gnome, -kde or -wlr), or annotate an existing image with --filename";

/// The error for "there is no portal here", with the guidance a user needs to
/// fix it.
pub fn portal_missing() -> (e: CaptureError)
    ensures
        e is Unsupported,
        e.detail() == PORTAL_MISSING@,
{
    CaptureError::unsupported(PORTAL_MISSING)
}

/// What the session bus said about the portal.
#[derive(Debug, Clone, PartialEq, Eq)]
pub enum BusAnswer {
    /// Somebody owns the portal's name.
    Running,
    /// Nobody owns it; these names can be started on demand.
    Activatable(Vec<String>),
    /// There is no session bus, or it refused to answer.
    NoBus,
    /// The bus did not answer in time.
    TimedOut,
}

/// `names` holds the portal's name.
pub open spec fn lists_portal(names: Seq<String>) -> bool {
    exists|i: int| 0 <= i < names.len() && (#[trigger] names[i])@ == PORTAL_BUS_NAME@
}

fn portal_listed(names: &Vec<String>) -> (yes: bool)
    ensures
        yes == lists_portal(names@),
{
    let mut i: usize = 0;
    while i < names.len()
        invariant
            i <= names@.len(),
            forall|j: int| 0 <= j < i ==> (#[trigger] names@[j])@ != PORTAL_BUS_NAME@,
        decreases names.len() - i,
    {
        if same_text(names[i].as_str(), PORTAL_BUS_NAME) {
            return true;
        }
        i = i + 1;
    }
    false
}

/// Fail fast, and usefully, when no portal can be reached. Not running is not
/// the same as not installed: a name that can be started on demand will do.
pub fn ensure_portal_present(answer: &BusAnswer) -> (result: Result<(), CaptureError>)
    ensures
        match answer {
            BusAnswer::Running => result is Ok,
            BusAnswer::Activatable(names) => if lists_portal(names@) {
                result is Ok
            } else {
                result matches Err(e) && e is Unsupported && e.detail() == PORTAL_MISSING@
            },
            BusAnswer::NoBus => result matches Err(e) && e is Unsupported && e.detail()
                == PORTAL_MISSING@,
            BusAnswer::TimedOut => result matches Err(e) && e is Backend && e.detail()
                == "the session bus did not answer within 2s when asked whether a desktop portal is running"@,
        },
{
    match answer {
        BusAnswer::Running => Ok(()),
        BusAnswer::Activatable(names) => {
            if portal_listed(names) {
                Ok(())
            } else {
                Err(portal_missing())
            }
        },
        BusAnswer::NoBus => Err(portal_missing()),
        BusAnswer::TimedOut => Err(
            CaptureError::backend(
                "the session bus did not answer within 2s when asked whether a desktop portal is running",
            ),
        ),
    }
}

/// The value of a hexadecimal digit.
pub open spec fn hex_value(b: u8) -> Option<int> {
    if 0x30 <= b <= 0x39 {
        Some(b - 0x30)
    } else if 0x41 <= b <= 0x46 {
        Some(b - 0x41 + 10)
    } else if 0x61 <= b <= 0x66 {
        Some(b - 0x61 + 10)
    } else {
        None
    }
}

/// The value of the two characters after a percent sign, which have to be two
/// hexadecimal digits.
pub open spec fn escape_value(a: u8, b: u8) -> Option<int> {
    match (hex_value(a), hex_value(b)) {
        (Some(high), Some(low)) => Some(16 * high + low),
        _ => None,
    }
}

/// `bytes` with every percent-escape replaced by the byte it stands for, or
/// `None` when one is malformed.
pub open spec fn unescaped(bytes: Seq<u8>) -> Option<Seq<u8>>
    decreases bytes.len(),
{
    if bytes.len() == 0 {
        Some(seq![])
    } else if bytes[0] != 0x25 {
        match unescaped(bytes.subrange(1, bytes.len() as int)) {
            Some(rest) => Some(seq![bytes[0]] + rest),
            None => None,
        }
    } else if bytes.len() < 3 {
        None
    } else {
        match (escape_value(bytes[1], bytes[2]), unescaped(bytes.subrange(3, bytes.len() as int))) {
            (Some(value), Some(rest)) => Some(seq![value as u8] + rest),
            _ => None,
        }
    }
}

fn hex_digit(b: u8) -> (value: Option<u8>)
    ensures
        match value {
            Some(v) => hex_value(b) == Some(v as int) && v < 16,
            None => hex_value(b) is None,
        },
{
    if 0x30 <= b && b <= 0x39 {
        Some(b - 0x30)
    } else if 0x41 <= b && b <= 0x46 {
        Some(b - 0x41 + 10)
    } else if 0x61 <= b && b <= 0x66 {
        Some(b - 0x61 + 10)
    } else {
        None
    }
}

fn escape_byte(a: u8, b: u8) -> (value: Option<u8>)
    ensures
        match value {
            Some(v) => escape_value(a, b) == Some(v as int),
            None => escape_value(a, b) is None,
        },
{
    match (hex_digit(a), hex_digit(b)) {
        (Some(high), Some(low)) => Some(16 * high + low),
        _ => None,
    }
}

/// What decoding the percent-escapes of `input` gives.
pub open spec fn is_percent_decoded(
    result: Result<String, CaptureError>,
    input: Seq<char>,
) -> bool {
    match unescaped(vstd::utf8::encode_utf8(input)) {
        Some(bytes) => if vstd::utf8::valid_utf8(bytes) {
            result matches Ok(text) && text@ == vstd::utf8::decode_utf8(bytes)
        } else {
            result matches Err(e) && e is Backend && e.detail()
                == "portal URI is not valid UTF-8: "@ + input
        },
        None => result matches Err(e) && e is Backend && e.detail()
            == "malformed percent-escape in portal URI: "@ + input,
    }
}

/// Decode the percent-escapes of `input`.
pub fn percent_decode(input: &str) -> (result: Result<String, CaptureError>)
    ensures
        is_percent_decoded(result, input@),
{
    let bytes = input.as_bytes();
    let mut out: Vec<u8> = Vec::new();
    let mut i: usize = 0;
    let ghost whole = bytes@;
    assert(whole.subrange(0, whole.len() as int) =~= whole);
    while i < bytes.len()
        invariant
            i <= bytes@.len(),
            whole == bytes@,
            whole == vstd::utf8::encode_utf8(input@),
            match unescaped(whole.subrange(i as int, whole.len() as int)) {
                Some(rest) => unescaped(whole) == Some(out@ + rest),
                None => unescaped(whole) is None,
            },
        decreases bytes.len() - i,
    {
        let ghost rest = whole.subrange(i as int, whole.len() as int);
        if bytes[i] == 0x25 {
            if bytes.len() - i < 3 {
                return Err(
                    CaptureError::Backend(
                        joined("malformed percent-escape in portal URI: ", input),
                    ),
                );
            }
            assert(rest[1] == whole[i + 1] && rest[2] == whole[i + 2]);
            match escape_byte(bytes[i + 1], bytes[i + 2]) {
                Some(value) => {
                    proof {
                        let next = whole.subrange(i + 3, whole.len() as int);
                        assert(rest.subrange(3, rest.len() as int) =~= next);
                        if unescaped(next) is Some {
                            let tail = unescaped(next)->Some_0;
                            assert(out@ + (seq![value] + tail) =~= out@.push(value) + tail);
                        }
                    }
                    out.push(value);
                    i = i + 3;
                },
                None => {
                    return Err(
                        CaptureError::Backend(
                            joined("malformed percent-escape in portal URI: ", input),
                        ),
                    );
                },
            }
        } else {
            let byte: u8 = bytes[i];
            proof {
                let next = whole.subrange(i + 1, whole.len() as int);
                assert(rest.subrange(1, rest.len() as int) =~= next);
                if unescaped(next) is Some {
                    let tail = unescaped(next)->Some_0;
                    assert(out@ + (seq![byte] + tail) =~= out@.push(byte) + tail);
                }
            }
            out.push(byte);
            i = i + 1;
        }
    }
    proof {
        assert(whole.subrange(i as int, whole.len() as int) =~= seq![]);
        assert(out@ + seq![] =~= out@);
    }
    match utf8_text(out) {
        Some(text) => Ok(text),
        None => Err(CaptureError::Backend(joined("portal URI is not valid UTF-8: ", input))),
    }
}

/// The part of a `file://` URI before its path.
pub open spec fn authority_of(uri: Seq<char>) -> Seq<char> {
    let rest = uri.subrange(7, uri.len() as int);
    rest.subrange(0, crate::text::first_position(rest, '/'))
}

/// The path of a `file://` URI, still escaped.
pub open spec fn path_of(uri: Seq<char>) -> Seq<char> {
    let rest = uri.subrange(7, uri.len() as int);
    rest.subrange(crate::text::first_position(rest, '/'), rest.len() as int)
}

/// The authority refers to this machine.
pub open spec fn is_local(authority: Seq<char>) -> bool {
    authority.len() == 0 || crate::text::lowered(authority) == "localhost"@
}

/// What turning a URI into a path gives.
pub open spec fn is_path_of_uri(result: Result<String, CaptureError>, uri: Seq<char>) -> bool {
    if !crate::text::begins_with(uri, "file://"@) {
        result matches Err(e) && e is Backend && e.detail()
            == "the portal returned a non-file URI: "@ + uri
    } else if !is_local(authority_of(uri)) {
        result matches Err(e) && e is Backend && e.detail()
            == "the portal returned a remote file URI: "@ + uri
    } else {
        match unescaped(vstd::utf8::encode_utf8(path_of(uri))) {
            Some(bytes) => {
                let path = vstd::utf8::decode_utf8(bytes);
                if !vstd::utf8::valid_utf8(bytes) {
                    result matches Err(e) && e is Backend && e.detail()
                        == "portal URI is not valid UTF-8: "@ + path_of(uri)
                } else if path == ""@ || path == "/"@ {
                    result matches Err(e) && e is Backend && e.detail()
                        == "the portal returned an empty file URI: "@ + uri
                } else {
                    result matches Ok(text) && text@ == path
                }
            },
            None => result matches Err(e) && e is Backend && e.detail()
                == "malformed percent-escape in portal URI: "@ + path_of(uri),
        }
    }
}

/// Turn the `file://` URI a portal returns into a path.
///
/// Portals hand back a URI rather than a path, percent-encoded, occasionally
/// with a `localhost` authority.
pub fn file_uri_to_path(uri: &str) -> (result: Result<String, CaptureError>)
    ensures
        is_path_of_uri(result, uri@),
{
    if !starts_with_text(uri, "file://") {
        return Err(CaptureError::Backend(joined("the portal returned a non-file URI: ", uri)));
    }
    proof {
        reveal_strlit("file://");
        reveal_strlit("localhost");
        reveal_strlit("");
        reveal_strlit("/");
    }
    let total: usize = uri.unicode_len();
    let rest = uri.substring_char(7, total);
    let chars = chars_of(rest);
    let mut slash: usize = 0;
    while slash < chars.len() && chars[slash] != '/'
        invariant
            slash <= chars@.len(),
            chars@ == rest@,
            forall|i: int| 0 <= i < slash ==> #[trigger] rest@[i] != '/',
        decreases chars.len() - slash,
    {
        slash = slash + 1;
    }
    proof {
        crate::text::lemma_first_position(rest@, '/', slash as int);
    }
    let authority = rest.substring_char(0, slash);
    let path = rest.substring_char(slash, chars.len());
    if slash > 0 && !same_text(ascii_lowercase(authority).as_str(), "localhost") {
        return Err(CaptureError::Backend(joined("the portal returned a remote file URI: ", uri)));
    }
    match percent_decode(path) {
        Ok(decoded) => {
            if same_text(decoded.as_str(), "") || same_text(decoded.as_str(), "/") {
                Err(CaptureError::Backend(joined("the portal returned an empty file URI: ", uri)))
            } else {
                Ok(decoded)
            }
        },
        Err(e) => Err(e),
    }
}

/// Neither a letter, nor a digit, nor a dot: no part of a bus name's ends.
pub open spec fn outside_name(c: char) -> bool {
    !('0' <= c <= '9' || 'A' <= c <= 'Z' || 'a' <= c <= 'z' || c == '.')
}

/// A dotted name of three parts or more that does not end in a dot.
pub open spec fn is_dotted_name(token: Seq<char>) -> bool {
    crate::text::occurrences(token, '.') >= 2 && token.last() != '.'
}

/// The end of the word that begins at `from`.
pub open spec fn word_end(s: Seq<char>, from: int) -> int
    decreases s.len() - from,
{
    if from >= s.len() || crate::text::white_space(s[from]) {
        from
    } else {
        word_end(s, from + 1)
    }
}

/// The first word of `s` from `from` on that is a dotted name once what
/// surrounds it is taken away.
pub open spec fn name_in(s: Seq<char>, from: int) -> Option<Seq<char>>
    decreases s.len() - from,
{
    if from < 0 || from >= s.len() {
        None
    } else if crate::text::white_space(s[from]) {
        name_in(s, from + 1)
    } else {
        let end = word_end(s, from + 1);
        let token = crate::text::trimmed_by(s.subrange(from, end), |c: char| outside_name(c));
        if is_dotted_name(token) {
            Some(token)
        } else if from < end <= s.len() {
            name_in(s, end)
        } else {
            None
        }
    }
}

proof fn lemma_word_end(s: Seq<char>, from: int, end: int)
    requires
        0 <= from <= end <= s.len(),
        forall|i: int| from <= i < end ==> !crate::text::white_space(#[trigger] s[i]),
        end < s.len() ==> crate::text::white_space(s[end]),
    ensures
        word_end(s, from) == end,
    decreases end - from,
{
    if from < end {
        lemma_word_end(s, from + 1, end);
    }
}

fn is_outside_name(c: char) -> (yes: bool)
    ensures
        yes == outside_name(c),
{
    !(('0' <= c && c <= '9') || ('A' <= c && c <= 'Z') || ('a' <= c && c <= 'z') || c == '.')
}

/// Where the word between `from` and `end` begins and ends once what surrounds
/// the name in it is taken away.
fn name_bounds(chars: &Vec<char>, from: usize, end: usize) -> (bounds: (usize, usize))
    requires
        from <= end <= chars@.len(),
    ensures
        from <= bounds.0 <= bounds.1 <= end,
        crate::text::trimmed_by(
            chars@.subrange(from as int, end as int),
            |c: char| outside_name(c),
        ) == chars@.subrange(bounds.0 as int, bounds.1 as int),
{
    let ghost word = chars@.subrange(from as int, end as int);
    let mut a: usize = from;
    while a < end && is_outside_name(chars[a])
        invariant
            from <= a <= end <= chars@.len(),
            forall|i: int| from <= i < a ==> outside_name(#[trigger] chars@[i]),
        decreases end - a,
    {
        a = a + 1;
    }
    let mut b: usize = end;
    while b > a && is_outside_name(chars[b - 1])
        invariant
            from <= a <= b <= end <= chars@.len(),
            a < end ==> !outside_name(chars@[a as int]),
            forall|i: int| b <= i < end ==> outside_name(#[trigger] chars@[i]),
        decreases b,
    {
        b = b - 1;
    }
    proof {
        if a == b && a < end {
            assert(outside_name(chars@[a as int]));
        }
        assert forall|i: int| 0 <= i < a - from implies outside_name(#[trigger] word[i]) by {
            assert(outside_name(chars@[from + i]));
        }
        assert forall|i: int| b - from <= i < word.len() implies outside_name(
            #[trigger] word[i],
        ) by {
            assert(outside_name(chars@[from + i]));
        }
        crate::text::lemma_trimmed(word, |c: char| outside_name(c), a - from, b - from);
        assert(word.subrange(a - from, b - from) =~= chars@.subrange(a as int, b as int));
    }
    (a, b)
}

fn reads_as_dotted_name(chars: &Vec<char>, a: usize, b: usize) -> (yes: bool)
    requires
        a <= b <= chars@.len(),
    ensures
        yes == is_dotted_name(chars@.subrange(a as int, b as int)),
{
    let ghost token = chars@.subrange(a as int, b as int);
    let mut dots: usize = 0;
    let mut i: usize = a;
    while i < b
        invariant
            a <= i <= b <= chars@.len(),
            dots <= i - a,
            token == chars@.subrange(a as int, b as int),
            dots == crate::text::occurrences(token.take(i - a), '.'),
        decreases b - i,
    {
        proof {
            assert(token.take(i - a + 1).drop_last() =~= token.take(i - a));
            assert(token.take(i - a + 1).last() == chars@[i as int]);
        }
        if chars[i] == '.' {
            dots = dots + 1;
        }
        i = i + 1;
    }
    assert(token.take(b - a) =~= token);
    dots >= 2 && chars[b - 1] != '.'
}

/// Find something that looks like a D-Bus error name in an error message, so
/// that transport failures can be classified with the same table as portal
/// responses.
pub fn dbus_error_name(text: &str) -> (name: Option<&str>)
    ensures
        match name {
            Some(n) => name_in(text@, 0) == Some(n@),
            None => name_in(text@, 0) is None,
        },
{
    let chars = chars_of(text);
    let mut at: usize = 0;
    while at < chars.len()
        invariant
            at <= chars@.len(),
            chars@ == text@,
            name_in(text@, 0) == name_in(text@, at as int),
        decreases chars.len() - at,
    {
        if is_white_space(chars[at]) {
            at = at + 1;
        } else {
            let mut end: usize = at + 1;
            while end < chars.len() && !is_white_space(chars[end])
                invariant
                    at < end <= chars@.len(),
                    chars@ == text@,
                    forall|i: int|
                        at < i < end ==> !crate::text::white_space(#[trigger] text@[i]),
                decreases chars.len() - end,
            {
                end = end + 1;
            }
            proof {
                lemma_word_end(text@, at + 1, end as int);
            }
            let (a, b) = name_bounds(&chars, at, end);
            if reads_as_dotted_name(&chars, a, b) {
                return Some(text.substring_char(a, b));
            }
            at = end;
        }
    }
    None
}

/// A failed portal request.
#[derive(Debug, Clone, PartialEq, Eq)]
pub enum PortalFailure {
    /// The request was answered with "cancelled".
    ResponseCancelled,
    /// The request was answered with an unspecified failure.
    ResponseOther,
    /// The portal reported that the user cancelled.
    Cancelled,
    /// The portal refused access.
    NotAllowed(String),
    /// The portal's dialog went away.
    WindowDestroyed(String),
    /// The portal failed in another way.
    Failed(String),
    /// No implementation provides the interface of this name.
    PortalNotFound(String),
    /// The portal closed without responding.
    NoResponse,
    /// The bus reported an error.
    Bus(String),
    /// Anything else.
    Other(String),
}

/// `e` is what a failed portal request means.
pub open spec fn is_failure(e: CaptureError, failure: PortalFailure) -> bool {
    match failure {
        PortalFailure::ResponseCancelled => e is Cancelled,
        PortalFailure::Cancelled => e is Cancelled,
        PortalFailure::ResponseOther => e is Backend && e.detail()
            == "the screenshot portal reported an unspecified failure"@,
        PortalFailure::NotAllowed(message) => e is PermissionDenied && e.detail()
            == "the screenshot portal refused access: "@ + message@,
        PortalFailure::WindowDestroyed(message) => e is Backend && e.detail()
            == "the portal dialog was destroyed before responding: "@ + message@,
        PortalFailure::Failed(message) => e is Backend && e.detail() == message@,
        PortalFailure::PortalNotFound(name) => e is Unsupported && e.detail()
            == "no xdg-desktop-portal implementation provides "@ + name@
            + "; install xdg-desktop-portal and a backend for your compositor"@,
        PortalFailure::NoResponse => e is Backend && e.detail()
            == "the screenshot portal closed without responding"@,
        PortalFailure::Bus(text) => match name_in(text@, 0) {
            Some(name) => crate::error::is_portal_error(e, name, text@),
            None => e is Backend && e.detail() == "D-Bus error talking to the portal: "@ + text@,
        },
        PortalFailure::Other(text) => e is Backend && e.detail() == text@,
    }
}

/// Map a failed portal request onto a [`CaptureError`].
pub fn map_portal_failure(failure: &PortalFailure) -> (e: CaptureError)
    ensures
        is_failure(e, *failure),
{
    match failure {
        PortalFailure::ResponseCancelled => CaptureError::Cancelled,
        PortalFailure::Cancelled => CaptureError::Cancelled,
        PortalFailure::ResponseOther => CaptureError::backend(
            "the screenshot portal reported an unspecified failure",
        ),
        PortalFailure::NotAllowed(message) => CaptureError::PermissionDenied(
            joined("the screenshot portal refused access: ", message.as_str()),
        ),
        PortalFailure::WindowDestroyed(message) => CaptureError::Backend(
            joined("the portal dialog was destroyed before responding: ", message.as_str()),
        ),
        PortalFailure::Failed(message) => CaptureError::backend(message.as_str()),
        PortalFailure::PortalNotFound(name) => {
            let mut message = joined(
                "no xdg-desktop-portal implementation provides ",
                name.as_str(),
            );
            message.append("; install xdg-desktop-portal and a backend for your compositor");
            CaptureError::Unsupported(message)
        },
        PortalFailure::NoResponse => CaptureError::backend(
            "the screenshot portal closed without responding",
        ),
        PortalFailure::Bus(text) => match dbus_error_name(text.as_str()) {
            Some(name) => classify_portal_error(name, text.as_str()),
            None => CaptureError::Backend(
                joined("D-Bus error talking to the portal: ", text.as_str()),
            ),
        },
        PortalFailure::Other(text) => CaptureError::backend(text.as_str()),
    }
}

/// Text without a percent sign is its own decoding.
pub proof fn law_unescaped_text_is_kept(bytes: Seq<u8>)
    requires
        forall|i: int| 0 <= i < bytes.len() ==> #[trigger] bytes[i] != 0x25,
    ensures
        unescaped(bytes) == Some(bytes),
    decreases bytes.len(),
{
    if bytes.len() > 0 {
        let rest = bytes.subrange(1, bytes.len() as int);
        assert forall|i: int| 0 <= i < rest.len() implies #[trigger] rest[i] != 0x25 by {
            assert(bytes[i + 1] != 0x25);
        }
        law_unescaped_text_is_kept(rest);
        assert(seq![bytes[0]] + rest =~= bytes);
    } else {
        assert(bytes =~= seq![]);
    }
}

/// The bytes of text on either side of a cut stand on either side of a cut.
proof fn lemma_encoded_in_pieces(a: Seq<char>, b: Seq<char>)
    ensures
        vstd::utf8::encode_utf8(a + b) == vstd::utf8::encode_utf8(a) + vstd::utf8::encode_utf8(b),
    decreases a.len(),
{
    if a.len() == 0 {
        assert(a + b =~= b);
        assert(vstd::utf8::encode_utf8(a) + vstd::utf8::encode_utf8(b)
            =~= vstd::utf8::encode_utf8(b));
    } else {
        assert((a + b).drop_first() =~= a.drop_first() + b);
        lemma_encoded_in_pieces(a.drop_first(), b);
        let first = vstd::utf8::encode_scalar(a[0] as u32);
        assert(first + (vstd::utf8::encode_utf8(a.drop_first()) + vstd::utf8::encode_utf8(b)) =~= (
        first + vstd::utf8::encode_utf8(a.drop_first())) + vstd::utf8::encode_utf8(b));
    }
}

/// The bytes of a character that is not ASCII are no ASCII either.
proof fn lemma_wide_bytes(c: u32)
    requires
        0x80 <= c <= 0x10_ffff,
    ensures
        forall|i: int|
            0 <= i < vstd::utf8::encode_scalar(c).len() ==> #[trigger] vstd::utf8::encode_scalar(
                c,
            )[i] >= 0x80,
{
    assert(forall|b: u8|
        (#[trigger] (0x80u8 | b)) >= 0x80 && (0xc0u8 | b) >= 0x80 && (0xe0u8 | b) >= 0x80 && (0xf0u8
            | b) >= 0x80) by (bit_vector);
    let a = ((c >> 6) & 0x1f) as u8;
    let b = ((c >> 12) & 0x0f) as u8;
    let d = ((c >> 18) & 0x7) as u8;
    assert(0x80u8 | a >= 0x80 && 0x80u8 | b >= 0x80 && 0x80u8 | d >= 0x80);
}

/// A character is its code.
proof fn lemma_code(c: char, d: char)
    ensures
        c as u32 as int == c as int,
        c == d <==> c as u32 == d as u32,
        c <= d <==> c as u32 <= d as u32,
{
}

/// A byte that is a percent sign comes from a percent sign.
proof fn lemma_no_percent(text: Seq<char>)
    requires
        forall|i: int| 0 <= i < text.len() ==> #[trigger] text[i] != '%',
    ensures
        forall|i: int|
            0 <= i < vstd::utf8::encode_utf8(text).len() ==> #[trigger] vstd::utf8::encode_utf8(
                text,
            )[i] != 0x25,
    decreases text.len(),
{
    if text.len() > 0 {
        let rest = text.drop_first();
        assert forall|i: int| 0 <= i < rest.len() implies #[trigger] rest[i] != '%' by {
            assert(text[i + 1] != '%');
        }
        lemma_no_percent(rest);
        let c = text[0] as u32;
        assert(text[0] != '%');
        let first = vstd::utf8::encode_scalar(c);
        vstd::utf8::char_is_scalar(text[0]);
        if c < 0x80 {
            assert((c & 0x7f) as u8 == c) by (bit_vector)
                requires
                    c < 0x80,
            ;
            assert(first =~= seq![c as u8]);
            lemma_code(text[0], '%');
        } else {
            lemma_wide_bytes(c);
        }
        assert forall|i: int| 0 <= i < first.len() implies #[trigger] first[i] != 0x25 by {}
        let whole = vstd::utf8::encode_utf8(text);
        assert forall|i: int| 0 <= i < whole.len() implies #[trigger] whole[i] != 0x25 by {
            if i < first.len() {
                assert(whole[i] == first[i]);
            } else {
                assert(whole[i] == vstd::utf8::encode_utf8(rest)[i - first.len()]);
            }
        }
    }
}

/// What decodes in one go decodes in pieces, as long as no escape is cut.
proof fn lemma_escapes_are_read_one_by_one(a: Seq<u8>, b: Seq<u8>)
    requires
        unescaped(a) is Some,
    ensures
        match unescaped(b) {
            Some(rest) => unescaped(a + b) == Some(unescaped(a)->Some_0 + rest),
            None => unescaped(a + b) is None,
        },
    decreases a.len(),
{
    if a.len() == 0 {
        assert(a + b =~= b);
        if unescaped(b) is Some {
            assert(unescaped(a)->Some_0 + unescaped(b)->Some_0 =~= unescaped(b)->Some_0);
        }
    } else {
        let n: int = if a[0] == 0x25 {
            3
        } else {
            1
        };
        let rest = a.subrange(n, a.len() as int);
        assert((a + b).subrange(n, (a + b).len() as int) =~= rest + b);
        lemma_escapes_are_read_one_by_one(rest, b);
        assert((a + b)[0] == a[0]);
        if n == 3 {
            assert((a + b)[1] == a[1] && (a + b)[2] == a[2]);
        }
        if unescaped(b) is Some {
            let head = unescaped(a)->Some_0[0];
            let x = unescaped(rest)->Some_0;
            let y = unescaped(b)->Some_0;
            assert(unescaped(a)->Some_0 =~= seq![head] + x);
            assert(seq![head] + (x + y) =~= (seq![head] + x) + y);
        }
    }
}

/// The escape of a byte stands at `at`.
spec fn escape_at(input: Seq<char>, at: int, byte: u8) -> bool {
    &&& input[at] == '%'
    &&& input[at + 1] == "0123456789ABCDEF"@[byte as int / 16] || input[at + 1]
        == "0123456789abcdef"@[byte as int / 16]
    &&& input[at + 2] == "0123456789ABCDEF"@[byte as int % 16] || input[at + 2]
        == "0123456789abcdef"@[byte as int % 16]
}

/// The code of a hexadecimal digit.
proof fn lemma_digit_code(value: int)
    requires
        0 <= value < 16,
    ensures
        "0123456789ABCDEF"@[value] as u32 == (if value < 10 {
            48 + value
        } else {
            55 + value
        }),
        "0123456789abcdef"@[value] as u32 == (if value < 10 {
            48 + value
        } else {
            87 + value
        }),
{
    reveal_strlit("0123456789ABCDEF");
    reveal_strlit("0123456789abcdef");
}

/// A percent sign and the two hexadecimal digits of a byte stand for that byte.
proof fn lemma_every_byte_has_its_escape(input: Seq<char>, byte: u8)
    requires
        input.len() == 3,
        escape_at(input, 0, byte),
    ensures
        unescaped(vstd::utf8::encode_utf8(input)) == Some(seq![byte]),
{
    lemma_digit_code(byte as int / 16);
    lemma_digit_code(byte as int % 16);
    assert(input[0] == '%' && input[1] as u32 <= 0x7f && input[2] as u32 <= 0x7f);
    lemma_code(input[1], '\u{7f}');
    lemma_code(input[2], '\u{7f}');
    assert(vstd::utf8::is_ascii_chars(input));
    vstd::utf8::is_ascii_chars_encode_utf8(input);
    let escape = vstd::utf8::encode_utf8(input);
    assert(input[0] as u8 == escape[0] && input[1] as u8 == escape[1] && input[2] as u8
        == escape[2]);
    reveal_with_fuel(unescaped, 2);
    assert(escape.subrange(3, 3) =~= seq![]);
    assert(seq![byte] + seq![] =~= seq![byte]);
}

/// Decoding undoes percent-encoding: any bytes at all, each written as a percent
/// sign and its two hexadecimal digits in either case, come back. They are
/// refused only when they are no text.
pub proof fn law_decoding_undoes_encoding(
    bytes: Seq<u8>,
    input: Seq<char>,
    result: Result<String, CaptureError>,
)
    requires
        input.len() == 3 * bytes.len(),
        forall|i: int|
            #![trigger bytes[i]]
            0 <= i < bytes.len() ==> {
                let high = bytes[i] as int / 16;
                let low = bytes[i] as int % 16;
                &&& input[3 * i] == '%'
                &&& input[3 * i + 1] == "0123456789ABCDEF"@[high] || input[3 * i + 1]
                    == "0123456789abcdef"@[high]
                &&& input[3 * i + 2] == "0123456789ABCDEF"@[low] || input[3 * i + 2]
                    == "0123456789abcdef"@[low]
            },
        is_percent_decoded(result, input),
    ensures
        result is Ok <==> vstd::utf8::valid_utf8(bytes),
        result matches Ok(text) ==> vstd::utf8::encode_utf8(text@) == bytes,
{
    assert forall|i: int| 0 <= i < bytes.len() implies escape_at(
        input,
        3 * i,
        #[trigger] bytes[i],
    ) by {}
    lemma_escapes_come_back(input, bytes);
    if vstd::utf8::valid_utf8(bytes) {
        vstd::utf8::decode_utf8_encode_utf8(bytes);
    }
}

proof fn lemma_escapes_come_back(input: Seq<char>, bytes: Seq<u8>)
    requires
        input.len() == 3 * bytes.len(),
        forall|i: int|
            0 <= i < bytes.len() ==> escape_at(input, 3 * i, #[trigger] bytes[i]),
    ensures
        unescaped(vstd::utf8::encode_utf8(input)) == Some(bytes),
    decreases bytes.len(),
{
    if bytes.len() == 0 {
        assert(bytes =~= seq![]);
        assert(vstd::utf8::encode_utf8(input) =~= seq![]);
    } else {
        let first = input.subrange(0, 3);
        let rest = input.subrange(3, input.len() as int);
        let others = bytes.subrange(1, bytes.len() as int);
        assert(escape_at(input, 3 * 0int, bytes[0]));
        assert(escape_at(first, 0, bytes[0]));
        lemma_every_byte_has_its_escape(first, bytes[0]);
        assert forall|i: int| 0 <= i < others.len() implies escape_at(
            rest,
            3 * i,
            #[trigger] others[i],
        ) by {
            assert(escape_at(input, 3 * (i + 1), bytes[i + 1]));
            assert(3 * (i + 1) == 3 * i + 3);
            assert(rest[3 * i] == input[3 * i + 3]);
            assert(rest[3 * i + 1] == input[3 * i + 3 + 1]);
            assert(rest[3 * i + 2] == input[3 * i + 3 + 2]);
        }
        lemma_escapes_come_back(rest, others);
        assert(first + rest =~= input);
        lemma_encoded_in_pieces(first, rest);
        lemma_escapes_are_read_one_by_one(
            vstd::utf8::encode_utf8(first),
            vstd::utf8::encode_utf8(rest),
        );
        assert(seq![bytes[0]] + others =~= bytes);
    }
}

/// Text without a percent sign decodes to itself, whatever else is in it: a plus
/// sign is a plus sign.
pub proof fn law_other_characters_stand_for_themselves(
    input: Seq<char>,
    result: Result<String, CaptureError>,
)
    requires
        forall|i: int| 0 <= i < input.len() ==> #[trigger] input[i] != '%',
        is_percent_decoded(result, input),
    ensures
        result matches Ok(text) && text@ == input,
{
    lemma_no_percent(input);
    law_unescaped_text_is_kept(vstd::utf8::encode_utf8(input));
    vstd::utf8::encode_utf8_valid_utf8(input);
    vstd::utf8::encode_utf8_decode_utf8(input);
}

/// What two pieces decode to, they decode to together.
pub proof fn law_decoding_goes_piece_by_piece(
    a: Seq<char>,
    b: Seq<char>,
    of_a: Result<String, CaptureError>,
    of_b: Result<String, CaptureError>,
    of_both: Result<String, CaptureError>,
)
    requires
        is_percent_decoded(of_a, a),
        is_percent_decoded(of_b, b),
        is_percent_decoded(of_both, a + b),
        of_a is Ok,
    ensures
        of_both is Ok <==> of_b is Ok,
        of_b is Ok ==> of_both->Ok_0@ == of_a->Ok_0@ + of_b->Ok_0@,
{
    lemma_encoded_in_pieces(a, b);
    let x = unescaped(vstd::utf8::encode_utf8(a))->Some_0;
    lemma_escapes_are_read_one_by_one(vstd::utf8::encode_utf8(a), vstd::utf8::encode_utf8(b));
    if unescaped(vstd::utf8::encode_utf8(b)) is Some {
        let y = unescaped(vstd::utf8::encode_utf8(b))->Some_0;
        if vstd::utf8::valid_utf8(y) {
            vstd::utf8::valid_utf8_concat(x, y);
            vstd::utf8::decode_utf8_encode_utf8(x);
            vstd::utf8::decode_utf8_encode_utf8(y);
            let text = vstd::utf8::decode_utf8(x) + vstd::utf8::decode_utf8(y);
            lemma_encoded_in_pieces(vstd::utf8::decode_utf8(x), vstd::utf8::decode_utf8(y));
            vstd::utf8::encode_utf8_decode_utf8(text);
        } else if vstd::utf8::valid_utf8(x + y) {
            lemma_valid_suffix(x, y);
        }
    }
}

/// What follows text in text is text.
proof fn lemma_valid_suffix(x: Seq<u8>, y: Seq<u8>)
    requires
        vstd::utf8::valid_utf8(x),
        vstd::utf8::valid_utf8(x + y),
    ensures
        vstd::utf8::valid_utf8(y),
    decreases x.len(),
{
    if x.len() == 0 {
        assert(x + y =~= y);
    } else {
        let rest = vstd::utf8::pop_first_scalar(x);
        assert(vstd::utf8::pop_first_scalar(x + y) =~= rest + y);
        lemma_valid_suffix(rest, y);
    }
}

/// A percent sign that is not followed by two hexadecimal digits is refused,
/// wherever it stands.
pub proof fn law_a_broken_escape_is_refused(
    before: Seq<char>,
    after: Seq<char>,
    of_before: Result<String, CaptureError>,
    result: Result<String, CaptureError>,
)
    requires
        is_percent_decoded(of_before, before),
        of_before is Ok,
        is_percent_decoded(result, before + seq!['%'] + after),
        after.len() < 2 || !(('0' <= after[0] <= '9' || 'a' <= after[0] <= 'f' || 'A' <= after[0]
            <= 'F') && ('0' <= after[1] <= '9' || 'a' <= after[1] <= 'f' || 'A' <= after[1]
            <= 'F')),
    ensures
        result matches Err(e) && e is Backend,
{
    let tail = seq!['%'] + after;
    assert(before + seq!['%'] + after =~= before + tail);
    lemma_encoded_in_pieces(before, tail);
    lemma_encoded_in_pieces(seq!['%'], after);
    let bytes = vstd::utf8::encode_utf8(tail);
    let more = vstd::utf8::encode_utf8(after);
    assert(vstd::utf8::encode_utf8(seq!['%']) =~= seq![0x25u8]) by {
        assert(vstd::utf8::is_ascii_chars(seq!['%']));
        vstd::utf8::is_ascii_chars_encode_utf8(seq!['%']);
    }
    lemma_escapes_are_read_one_by_one(vstd::utf8::encode_utf8(before), bytes);
    assert(bytes =~= seq![0x25u8] + more);
    assert(unescaped(bytes) is Some ==> bytes.len() >= 3 && escape_value(bytes[1], bytes[2]) is Some);
    if bytes.len() >= 3 && escape_value(bytes[1], bytes[2]) is Some {
        assert(bytes[1] == more[0] && bytes[2] == more[1]);
        lemma_digits_come_from_digits(after);
        lemma_digit_range(after[0]);
        lemma_digit_range(after[1]);
    }
}

/// A character whose code is a hexadecimal digit's lies among the digits.
proof fn lemma_digit_range(c: char)
    ensures
        0x30 <= c as u32 <= 0x39 <==> '0' <= c <= '9',
        0x41 <= c as u32 <= 0x46 <==> 'A' <= c <= 'F',
        0x61 <= c as u32 <= 0x66 <==> 'a' <= c <= 'f',
{
}

/// Two bytes at the start that are hexadecimal digits come from two characters
/// that are.
proof fn lemma_digits_come_from_digits(text: Seq<char>)
    requires
        vstd::utf8::encode_utf8(text).len() >= 2,
        hex_value(vstd::utf8::encode_utf8(text)[0]) is Some,
        hex_value(vstd::utf8::encode_utf8(text)[1]) is Some,
    ensures
        text.len() >= 2,
        text[0] as u32 == vstd::utf8::encode_utf8(text)[0],
        text[1] as u32 == vstd::utf8::encode_utf8(text)[1],
{
    reveal_with_fuel(vstd::utf8::encode_utf8, 3);
    let bytes = vstd::utf8::encode_utf8(text);
    lemma_first_byte(text);
    let rest = text.drop_first();
    assert(vstd::utf8::encode_utf8(rest)[0] == bytes[1]);
    lemma_first_byte(rest);
    assert(rest[0] == text[1]);
}

proof fn lemma_first_byte(text: Seq<char>)
    requires
        vstd::utf8::encode_utf8(text).len() >= 1,
        vstd::utf8::encode_utf8(text)[0] < 0x80,
    ensures
        text.len() >= 1,
        text[0] as u32 == vstd::utf8::encode_utf8(text)[0],
        vstd::utf8::encode_utf8(text) == seq![vstd::utf8::encode_utf8(text)[0]]
            + vstd::utf8::encode_utf8(text.drop_first()),
{
    let c = text[0] as u32;
    vstd::utf8::char_is_scalar(text[0]);
    if c < 0x80 {
        assert((c & 0x7f) as u8 == c) by (bit_vector)
            requires
                c < 0x80,
        ;
        assert(vstd::utf8::encode_scalar(c) =~= seq![c as u8]);
    } else {
        lemma_wide_bytes(c);
        assert(vstd::utf8::encode_utf8(text)[0] == vstd::utf8::encode_scalar(c)[0]);
    }
}

/// A `file://` URI names the path that follows its host, which is either left
/// out or this machine in any case, with the escapes of that path decoded. Only
/// a path that leads nowhere is refused.
pub proof fn law_a_local_uri_names_its_path(
    host: Seq<char>,
    path: Seq<char>,
    decoded: Result<String, CaptureError>,
    result: Result<String, CaptureError>,
)
    requires
        host.len() == 0 || (host.len() == 9 && forall|i: int|
            0 <= i < 9 ==> #[trigger] host[i] == "localhost"@[i] || host[i] as u32 + 32
                == "localhost"@[i] as u32),
        path.len() == 0 || path[0] == '/',
        is_percent_decoded(decoded, path),
        is_path_of_uri(result, "file://"@ + host + path),
    ensures
        result is Ok <==> decoded is Ok && decoded->Ok_0@.len() > 0 && decoded->Ok_0@ != seq!['/'],
        result is Ok ==> result->Ok_0@ == decoded->Ok_0@,
{
    reveal_strlit("file://");
    reveal_strlit("localhost");
    reveal_strlit("");
    reveal_strlit("/");
    let uri = "file://"@ + host + path;
    let rest = uri.subrange(7, uri.len() as int);
    assert(rest =~= host + path);
    assert(uri.subrange(0, 7) =~= "file://"@);
    assert forall|i: int| 0 <= i < host.len() implies #[trigger] rest[i] != '/' by {
        assert(rest[i] == host[i]);
        assert(host[i] == "localhost"@[i] || host[i] as u32 + 32 == "localhost"@[i] as u32);
    }
    crate::text::lemma_first_position(rest, '/', host.len() as int);
    assert(authority_of(uri) =~= host);
    assert(path_of(uri) =~= path);
    if host.len() == 9 {
        assert forall|i: int| 0 <= i < 9 implies crate::text::lowered(host)[i]
            == "localhost"@[i] by {
            assert(host[i] == "localhost"@[i] || host[i] as u32 + 32 == "localhost"@[i] as u32);
        }
        assert(crate::text::lowered(host) =~= "localhost"@);
    }
    assert("/"@ =~= seq!['/']);
    assert(""@ =~= seq![]);
}

/// A URI of another machine, or of another kind, names no path here.
pub proof fn law_other_uris_are_refused(
    uri: Seq<char>,
    host: Seq<char>,
    path: Seq<char>,
    result: Result<String, CaptureError>,
)
    requires
        is_path_of_uri(result, uri),
        !(uri.len() >= 7 && uri.subrange(0, 7) == "file://"@) || {
            &&& uri == "file://"@ + host + path
            &&& host.len() > 0
            &&& forall|i: int| 0 <= i < host.len() ==> #[trigger] host[i] != '/'
            &&& path.len() == 0 || path[0] == '/'
            &&& host.len() != 9 || exists|i: int|
                0 <= i < 9 && #[trigger] host[i] != "localhost"@[i] && host[i] as u32 + 32
                    != "localhost"@[i] as u32
        },
    ensures
        result matches Err(e) && e is Backend,
{
    reveal_strlit("file://");
    reveal_strlit("localhost");
    if uri.len() >= 7 && uri.subrange(0, 7) == "file://"@ {
        let rest = uri.subrange(7, uri.len() as int);
        assert(rest =~= host + path);
        assert forall|i: int| 0 <= i < host.len() implies #[trigger] rest[i] != '/' by {
            assert(rest[i] == host[i]);
        }
        crate::text::lemma_first_position(rest, '/', host.len() as int);
        assert(authority_of(uri) =~= host);
        if host.len() == 9 {
            let i = choose|i: int|
                0 <= i < 9 && #[trigger] host[i] != "localhost"@[i] && host[i] as u32 + 32
                    != "localhost"@[i] as u32;
            assert(crate::text::lowered(host)[i] != "localhost"@[i]);
        }
        assert(crate::text::lowered(host).len() == host.len());
    }
}

/// The portal backend promises exactly the targets that it plans for.
pub proof fn law_plans_agree_with_capabilities(
    plan: Result<Option<Rect>, CaptureError>,
    target: CaptureTarget,
    c: Capabilities,
)
    requires
        is_plan(plan, target),
        c.full_desktop && c.region && !c.monitor && !c.window,
    ensures
        plan is Ok ==> c.serves(target),
        target !is Region ==> (c.serves(target) ==> plan is Ok),
{
}

/// The whole desktop is taken as it comes and a region of it is cut out as it
/// was asked for; nothing else can be had.
pub proof fn law_what_the_portal_can_serve(
    plan: Result<Option<Rect>, CaptureError>,
    target: CaptureTarget,
)
    requires
        is_plan(plan, target),
    ensures
        target is FullDesktop ==> (plan matches Ok(cut) && cut is None),
        target matches CaptureTarget::Region { monitor: None, rect } ==> (plan matches Ok(cut)
            && cut == Some(rect)),
        target matches CaptureTarget::Region { monitor: Some(_), .. } ==> plan is Err,
        target is Monitor || target is Window ==> plan is Err,
        plan matches Err(e) ==> e is Unsupported,
{
}

/// The portal's image is the frame, at the origin and unscaled.
pub proof fn law_the_portals_image_is_the_frame(
    result: Result<RawFrame, CaptureError>,
    decoded: Result<(u32, u32, Seq<u8>), Seq<char>>,
)
    requires
        is_portal_image(result, decoded),
    ensures
        result is Ok <==> decoded is Ok,
        result matches Ok(frame) ==> {
            &&& decoded->Ok_0 == (frame.width, frame.height, frame.data@)
            &&& frame.origin.x == 0 && frame.origin.y == 0
            &&& frame.scale_factor.bits == 0x3f80_0000
        },
        result matches Err(e) ==> e is Backend,
{
}

/// What a decoder found is taken over as it is.
pub proof fn law_decoded_images_are_taken_over(decoded: Result<RgbaImage, String>)
    ensures
        decoded matches Ok(image) ==> decoded_image(decoded) == Ok::<
            (u32, u32, Seq<u8>),
            Seq<char>,
        >((image.width, image.height, image.data@)),
        decoded matches Err(e) ==> decoded_image(decoded) == Err::<(u32, u32, Seq<u8>), Seq<char>>(
            e@,
        ),
{
}

/// The portal is listed when its name is, letter for letter.
pub proof fn law_the_portal_goes_by_its_name(names: Seq<String>, i: int)
    requires
        0 <= i < names.len(),
    ensures
        names[i]@ == "org.freedesktop.portal.Desktop"@ ==> lists_portal(names),
        names.len() == 1 && names[i]@ != "org.freedesktop.portal.Desktop"@ ==> !lists_portal(names),
{
}

/// What a failed request means: that the user cancelled, that access was
/// refused, that there is no portal, or that the portal failed. A failure of the
/// bus means what the error name in its text means, where there is one.
pub proof fn law_what_failed_requests_mean(e: CaptureError, failure: PortalFailure)
    requires
        is_failure(e, failure),
    ensures
        failure is ResponseCancelled || failure is Cancelled ==> e is Cancelled,
        failure is NotAllowed ==> e is PermissionDenied,
        failure is PortalNotFound ==> e is Unsupported,
        failure is ResponseOther || failure is WindowDestroyed || failure is Failed
            || failure is NoResponse || failure is Other ==> e is Backend,
        failure matches PortalFailure::Bus(text) ==> match name_in(text@, 0) {
            Some(name) => crate::error::is_portal_error(e, name, text@),
            None => e is Backend,
        },
{
}

/// What is found as an error name is a part of a word of the text: it holds no
/// white space, starts and ends with a letter, a digit or, at its start, a dot,
/// and has two dots at least.
pub proof fn law_an_error_name_is_part_of_a_word(s: Seq<char>, from: int) -> (place: (int, int))
    requires
        0 <= from,
        name_in(s, from) is Some,
    ensures
        ({
            let name = name_in(s, from)->Some_0;
            &&& from <= place.0 < place.1 <= s.len()
            &&& name == s.subrange(place.0, place.1)
            &&& crate::text::occurrences(name, '.') >= 2
            &&& name.last() != '.'
            &&& '0' <= name.last() <= '9' || 'A' <= name.last() <= 'Z' || 'a' <= name.last() <= 'z'
            &&& '0' <= name[0] <= '9' || 'A' <= name[0] <= 'Z' || 'a' <= name[0] <= 'z' || name[0]
                == '.'
            &&& forall|i: int|
                0 <= i < name.len() ==> !crate::text::white_space(#[trigger] name[i])
        }),
    decreases s.len() - from,
{
    if crate::text::white_space(s[from]) {
        law_an_error_name_is_part_of_a_word(s, from + 1)
    } else {
        let end = word_end(s, from + 1);
        lemma_word_ends(s, from + 1);
        let word = s.subrange(from, end);
        let drop = |c: char| outside_name(c);
        let token = crate::text::trimmed_by(word, drop);
        let (a, b) = lemma_trimmed_part(word, drop);
        if is_dotted_name(token) {
            if token.len() == 0 {
                assert(crate::text::occurrences(token, '.') == 0);
            }
            assert(token =~= s.subrange(from + a, from + b));
            assert(!drop(word[a]) && !drop(word[b - 1]));
            assert(token[0] == word[a] && token.last() == word[b - 1]);
            assert forall|i: int| 0 <= i < token.len() implies !crate::text::white_space(
                #[trigger] token[i],
            ) by {
                assert(token[i] == s[from + a + i]);
            }
            (from + a, from + b)
        } else {
            law_an_error_name_is_part_of_a_word(s, end)
        }
    }
}

/// A word goes on until white space or the end.
proof fn lemma_word_ends(s: Seq<char>, from: int)
    requires
        0 <= from <= s.len(),
    ensures
        from <= word_end(s, from) <= s.len(),
        forall|i: int|
            from <= i < word_end(s, from) ==> !crate::text::white_space(#[trigger] s[i]),
    decreases s.len() - from,
{
    if from < s.len() && !crate::text::white_space(s[from]) {
        lemma_word_ends(s, from + 1);
    }
}

/// What trimming leaves is a part of the text whose ends are not dropped.
proof fn lemma_trimmed_part(s: Seq<char>, drop: spec_fn(char) -> bool) -> (ends: (int, int))
    ensures
        0 <= ends.0 <= ends.1 <= s.len(),
        crate::text::trimmed_by(s, drop) == s.subrange(ends.0, ends.1),
        ends.0 < ends.1 ==> !drop(s[ends.0]) && !drop(s[ends.1 - 1]),
    decreases s.len(),
{
    if s.len() == 0 {
        assert(s.subrange(0, 0) =~= s);
        (0, 0)
    } else if drop(s[0]) {
        let t = s.subrange(1, s.len() as int);
        let (a, b) = lemma_trimmed_part(t, drop);
        assert(t.subrange(a, b) =~= s.subrange(a + 1, b + 1));
        (a + 1, b + 1)
    } else if drop(s.last()) {
        let t = s.drop_last();
        let (a, b) = lemma_trimmed_part(t, drop);
        assert(t.subrange(a, b) =~= s.subrange(a, b));
        (a, b)
    } else {
        assert(s.subrange(0, s.len() as int) =~= s);
        (0, s.len() as int)
    }
}

/// An error name is found in its word, whatever signs stand around it there, and
/// white space before the word does not matter.
pub proof fn law_an_error_name_is_found_in_its_word(
    space: Seq<char>,
    lead: Seq<char>,
    name: Seq<char>,
    trail: Seq<char>,
    rest: Seq<char>,
)
    requires
        forall|i: int| 0 <= i < space.len() ==> crate::text::white_space(#[trigger] space[i]),
        forall|i: int|
            0 <= i < lead.len() ==> !crate::text::white_space(#[trigger] lead[i]) && !('0'
                <= lead[i] <= '9' || 'A' <= lead[i] <= 'Z' || 'a' <= lead[i] <= 'z' || lead[i]
                == '.'),
        forall|i: int|
            0 <= i < trail.len() ==> !crate::text::white_space(#[trigger] trail[i]) && !('0'
                <= trail[i] <= '9' || 'A' <= trail[i] <= 'Z' || 'a' <= trail[i] <= 'z' || trail[i]
                == '.'),
        forall|i: int| 0 <= i < name.len() ==> !crate::text::white_space(#[trigger] name[i]),
        name.len() > 0,
        '0' <= name[0] <= '9' || 'A' <= name[0] <= 'Z' || 'a' <= name[0] <= 'z' || name[0] == '.',
        '0' <= name.last() <= '9' || 'A' <= name.last() <= 'Z' || 'a' <= name.last() <= 'z',
        crate::text::occurrences(name, '.') >= 2,
        rest.len() == 0 || crate::text::white_space(rest[0]),
    ensures
        name_in(space + lead + name + trail + rest, 0) == Some(name),
{
    let s = space + lead + name + trail + rest;
    let n = space.len() as int;
    let l = lead.len() as int;
    let m = name.len() as int;
    let end = n + l + m + trail.len();
    lemma_space_is_skipped(s, 0, n);
    let word = s.subrange(n, end);
    let drop = |c: char| outside_name(c);
    assert(word =~= lead + name + trail);
    assert forall|i: int| n <= i < end implies !crate::text::white_space(#[trigger] s[i]) by {
        if i < n + l {
            assert(s[i] == lead[i - n]);
        } else if i < n + l + m {
            assert(s[i] == name[i - n - l]);
        } else {
            assert(s[i] == trail[i - n - l - m]);
        }
    }
    if end < s.len() {
        assert(s[end] == rest[0]);
    }
    lemma_word_end(s, n + 1, end);
    assert forall|i: int| 0 <= i < l implies drop(#[trigger] word[i]) by {
        assert(word[i] == lead[i]);
    }
    assert forall|i: int| l + m <= i < word.len() implies drop(#[trigger] word[i]) by {
        assert(word[i] == trail[i - l - m]);
    }
    assert(word[l] == name[0] && word[l + m - 1] == name.last());
    crate::text::lemma_trimmed(word, drop, l, l + m);
    assert(word.subrange(l, l + m) =~= name);
    assert(s[n] == word[0]);
}

proof fn lemma_space_is_skipped(s: Seq<char>, from: int, to: int)
    requires
        0 <= from <= to < s.len(),
        forall|i: int| from <= i < to ==> crate::text::white_space(#[trigger] s[i]),
    ensures
        name_in(s, from) == name_in(s, to),
    decreases to - from,
{
    if from < to {
        assert(crate::text::white_space(s[from]));
        lemma_space_is_skipped(s, from + 1, to);
    }
}

} // verus!
