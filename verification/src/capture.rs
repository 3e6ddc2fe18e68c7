//! Acquiring an image to annotate.
//!
//! The screen is always grabbed **before** any selection appears. That is what
//! stops the overlay from appearing in its own screenshot, and it freezes the
//! scene so that nothing shifts under the pointer mid-drag.

use crate::cursor::{composite_cursor, CursorImage};
use crate::frame::{lemma_pixel_number, RawFrame};
use crate::geometry::{Rect, Vec2D};
use crate::monitor::MonitorInfo;
use crate::picture::{frame_to_image, non_empty, RgbaImage};
use crate::single::ScaleFactor;
use crate::target::{Capabilities, CaptureTarget};
use crate::window::WindowInfo;
use vstd::prelude::*;
use vstd::string::*;

verus! {

/// What a capture is of.
#[derive(Debug, Clone, Copy, PartialEq, Eq, Hash, Structural)]
pub enum CaptureMode {
    /// Every monitor.
    All,
    /// A rectangle chosen on a frozen frame.
    Region,
    /// A window chosen on a frozen frame.
    Window,
    /// One monitor.
    Monitor,
}

impl CaptureMode {
    /// Every mode.
    pub fn all() -> (modes: Vec<CaptureMode>)
        ensures
            modes@ == seq![
                CaptureMode::All,
                CaptureMode::Region,
                CaptureMode::Window,
                CaptureMode::Monitor,
            ],
    {
        let mut modes: Vec<CaptureMode> = Vec::new();
        modes.push(CaptureMode::All);
        modes.push(CaptureMode::Region);
        modes.push(CaptureMode::Window);
        modes.push(CaptureMode::Monitor);
        assert(modes@ =~= seq![
            CaptureMode::All,
            CaptureMode::Region,
            CaptureMode::Window,
            CaptureMode::Monitor,
        ]);
        modes
    }

    /// The name of the mode, as it is given to `--capture`.
    pub open spec fn text(self) -> Seq<char> {
        match self {
            CaptureMode::All => "all"@,
            CaptureMode::Region => "region"@,
            CaptureMode::Window => "window"@,
            CaptureMode::Monitor => "monitor"@,
        }
    }

    /// The name of the mode, as it is given to `--capture`.
    pub fn name(self) -> (name: &'static str)
        ensures
            name@ == self.text(),
    {
        match self {
            CaptureMode::All => "all",
            CaptureMode::Region => "region",
            CaptureMode::Window => "window",
            CaptureMode::Monitor => "monitor",
        }
    }

    /// Something is still to be chosen on the frozen frame.
    pub open spec fn selects(self) -> bool {
        self == CaptureMode::Region || self == CaptureMode::Window
    }

    /// Is something still to be chosen on the frozen frame?
    pub fn needs_selection(self) -> (yes: bool)
        ensures
            yes == self.selects(),
    {
        match self {
            CaptureMode::Region | CaptureMode::Window => true,
            _ => false,
        }
    }

    /// Are the windows needed, to snap to or to choose from?
    pub fn wants_windows(self, snap_to_windows: bool) -> (yes: bool)
        ensures
            yes == (self.selects() && (snap_to_windows || self == CaptureMode::Window)),
    {
        self.needs_selection() && (snap_to_windows || self == CaptureMode::Window)
    }
}

/// The first monitor that is primary, if there is one.
pub open spec fn first_primary(monitors: Seq<MonitorInfo>) -> Option<MonitorInfo>
    decreases monitors.len(),
{
    if monitors.len() == 0 {
        None
    } else if monitors[0].is_primary {
        Some(monitors[0])
    } else {
        first_primary(monitors.subrange(1, monitors.len() as int))
    }
}

/// The target that stands for "the monitor": the primary one, the first one
/// where none is primary, and the whole desktop where none is known.
pub open spec fn monitor_target(monitors: Option<Seq<MonitorInfo>>) -> CaptureTarget {
    match monitors {
        Some(known) => match first_primary(known) {
            Some(m) => CaptureTarget::Monitor(m.id),
            None => if known.len() > 0 {
                CaptureTarget::Monitor(known[0].id)
            } else {
                CaptureTarget::FullDesktop
            },
        },
        None => CaptureTarget::FullDesktop,
    }
}

/// The monitors that an enumeration found, or `None` where it failed.
pub open spec fn found_monitors(monitors: Option<&[MonitorInfo]>) -> Option<Seq<MonitorInfo>> {
    match monitors {
        Some(known) => Some(known@),
        None => None,
    }
}

/// The target that stands for "the monitor", given the monitors that an
/// enumeration found, or `None` where it failed.
pub fn primary_monitor_target(monitors: Option<&[MonitorInfo]>) -> (target: CaptureTarget)
    ensures
        target == monitor_target(found_monitors(monitors)),
{
    match monitors {
        Some(known) => {
            let mut i: usize = 0;
            assert(known@.subrange(0, known@.len() as int) =~= known@);
            while i < known.len()
                invariant
                    i <= known@.len(),
                    found_monitors(monitors) == Some(known@),
                    first_primary(known@) == first_primary(
                        known@.subrange(i as int, known@.len() as int),
                    ),
                decreases known@.len() - i,
            {
                let ghost rest = known@.subrange(i as int, known@.len() as int);
                assert(rest[0] == known@[i as int]);
                assert(rest.subrange(1, rest.len() as int) =~= known@.subrange(
                    i + 1,
                    known@.len() as int,
                ));
                if known[i].is_primary {
                    return CaptureTarget::Monitor(known[i].id);
                }
                i = i + 1;
            }
            if known.len() > 0 {
                CaptureTarget::Monitor(known[0].id)
            } else {
                CaptureTarget::FullDesktop
            }
        },
        None => CaptureTarget::FullDesktop,
    }
}

/// What to grab for a mode. Region and window selection both need the whole
/// desktop to choose from; the overlay narrows it down afterwards.
pub fn target_for(mode: CaptureMode, monitors: Option<&[MonitorInfo]>) -> (target: CaptureTarget)
    ensures
        target == (if mode == CaptureMode::Monitor {
            monitor_target(found_monitors(monitors))
        } else {
            CaptureTarget::FullDesktop
        }),
{
    match mode {
        CaptureMode::Monitor => primary_monitor_target(monitors),
        _ => CaptureTarget::FullDesktop,
    }
}

/// Is the cursor to be fetched and drawn into the frame? It is when that is
/// configured and the backend can supply it.
pub fn wants_cursor(include_cursor: bool, capabilities: &Capabilities) -> (yes: bool)
    ensures
        yes == (include_cursor && capabilities.cursor),
{
    include_cursor && capabilities.cursor
}

/// A frozen frame plus what is needed to narrow it down.
#[derive(Debug)]
pub struct Acquired {
    /// The frozen frame.
    pub image: RgbaImage,
    /// Windows to snap to, empty when snapping is off or enumeration failed.
    pub windows: Vec<WindowInfo>,
    /// The places of the monitors, as far as they are known.
    pub monitors: Vec<Rect>,
    /// Where the frame sits on the virtual desktop, so that window rectangles
    /// can be rebased onto it.
    pub origin: Vec2D,
    /// Whether a region or a window is still to be chosen.
    pub needs_selection: bool,
    /// What the capture is of.
    pub mode: CaptureMode,
}

/// What the finished picture shows at `(x, y)`: the frame, with the cursor over
/// it where there is one.
pub open spec fn shown_at(frame: RawFrame, cursor: Option<&CursorImage>, x: int, y: int) -> Seq<
    u8,
> {
    match cursor {
        Some(c) => crate::cursor::with_cursor(frame, *c, x, y),
        None => frame.at(x, y),
    }
}

/// Make a grabbed frame ready for selection or annotation.
///
/// The pointer is never in the captured pixels, since compositors draw it on a
/// plane of its own, so it is blended in here when there is one. Windows are a
/// nicety: an enumeration that failed, which is `None`, does not stop a capture.
/// A buffer that is too short for the frame's dimensions is reported.
pub fn acquire(
    mode: CaptureMode,
    snap_to_windows: bool,
    frame: RawFrame,
    cursor: Option<&CursorImage>,
    windows: Option<Vec<WindowInfo>>,
    monitors: Vec<Rect>,
) -> (result: Result<Acquired, String>)
    ensures
        match result {
            Ok(a) => {
                &&& frame.data@.len() >= crate::frame::byte_len(frame.width, frame.height)
                &&& !frame.blank()
                &&& a.image.wf()
                &&& a.image.width == frame.width
                &&& a.image.height == frame.height
                &&& forall|x: int, y: int|
                    a.image.has(x, y) ==> #[trigger] a.image.at(x, y) == shown_at(
                        frame,
                        cursor,
                        x,
                        y,
                    )
                &&& a.origin == frame.origin
                &&& a.mode == mode
                &&& a.needs_selection == mode.selects()
                &&& a.monitors == monitors
                &&& if mode.selects() && (snap_to_windows || mode == CaptureMode::Window)
                    && windows is Some {
                    a.windows == windows->Some_0
                } else {
                    a.windows@.len() == 0
                }
            },
            Err(e) => if frame.data@.len() < crate::frame::byte_len(frame.width, frame.height) {
                crate::picture::is_converted(Err(e), frame)
            } else {
                frame.blank() && e@ == "the image is empty"@
            },
        },
{
    let origin = frame.origin;
    let ghost grabbed = frame;
    let image = match frame_to_image(frame) {
        Ok(image) => image,
        Err(e) => {
            return Err(e);
        },
    };
    let image = match non_empty(image) {
        Ok(image) => image,
        Err(e) => {
            return Err(e);
        },
    };
    proof {
        assert forall|x: int, y: int| image.has(x, y) implies #[trigger] image.at(x, y)
            == grabbed.at(x, y) by {
            lemma_pixel_number(image.width as int, image.height as int, x, y);
            assert(image.at(x, y) =~= grabbed.at(x, y));
        }
    }
    let ghost plain = image;
    let image = match cursor {
        Some(c) => {
            let mut drawn = RawFrame {
                width: image.width,
                height: image.height,
                data: image.data,
                origin,
                scale_factor: ScaleFactor::one(),
            };
            let ghost bare = drawn;
            composite_cursor(&mut drawn, c);
            let image = RgbaImage {
                width: drawn.width,
                height: drawn.height,
                data: drawn.data,
            };
            proof {
                assert forall|x: int, y: int| image.has(x, y) implies #[trigger] image.at(x, y)
                    == shown_at(grabbed, cursor, x, y) by {
                    assert(bare.has(x, y));
                    assert(bare.at(x, y) == plain.at(x, y));
                    assert(plain.at(x, y) == grabbed.at(x, y));
                    assert(drawn.at(x, y) == crate::cursor::with_cursor(bare, *c, x, y));
                    assert(image.at(x, y) == drawn.at(x, y));
                }
            }
            image
        },
        None => image,
    };
    let windows = match windows {
        Some(found) => {
            if mode.wants_windows(snap_to_windows) {
                found
            } else {
                Vec::new()
            }
        },
        None => Vec::new(),
    };
    Ok(
        Acquired {
            image,
            windows,
            monitors,
            origin,
            needs_selection: mode.needs_selection(),
            mode,
        },
    )
}

/// The decision for bytes that arrived on standard input: the picture in them.
pub fn stdin_image(bytes: &[u8]) -> (result: Result<RgbaImage, String>)
    ensures
        bytes@.len() == 0 ==> (result matches Err(e) && e@ == "no image data arrived on stdin"@),
        bytes@.len() > 0 ==> match crate::codec::decoding(bytes@) {
            Ok(found) => if found.0 == 0 || found.1 == 0 {
                result matches Err(e) && e@ == "the image is empty"@
            } else {
                result matches Ok(image) && crate::codec::is_picture(image, found)
            },
            Err(message) => result matches Err(e) && e@ == "decoding the image from stdin: "@
                + message,
        },
{
    if bytes.len() == 0 {
        return Err("no image data arrived on stdin".to_owned());
    }
    match crate::codec::decode(bytes) {
        Ok(image) => non_empty(image),
        Err(message) => Err(
            crate::text::joined("decoding the image from stdin: ", message.as_str()),
        ),
    }
}

/// The decision for the bytes of a file that is to be annotated: the picture in
/// them, in the format that the file's name tells.
pub fn file_image(file: &[u8], name: &str) -> (result: Result<RgbaImage, String>)
    ensures
        exists|decoded: Result<RgbaImage, String>| #[trigger]
            crate::codec::is_decoded_by_name(decoded, file@, name@) && match decoded {
                Ok(image) => if image.blank() {
                    result matches Err(e) && e@ == "the image is empty"@
                } else {
                    result == Ok::<RgbaImage, String>(image)
                },
                Err(_) => result == decoded,
            },
{
    let decoded = crate::codec::decode_by_name(file, name);
    assert(crate::codec::is_decoded_by_name(decoded, file@, name@));
    match decoded {
        Ok(image) => non_empty(image),
        Err(message) => Err(message),
    }
}

/// Region and window modes are the ones that leave something to choose.
pub proof fn law_two_modes_leave_a_choice(mode: CaptureMode)
    ensures
        mode is Region ==> mode.selects(),
        mode is Window ==> mode.selects(),
        mode is All ==> !mode.selects(),
        mode is Monitor ==> !mode.selects(),
{
}

/// "The monitor" is the first primary one, the first one where none is primary,
/// and the whole desktop where none is known.
pub proof fn law_the_monitor_is_the_primary_one(monitors: Seq<MonitorInfo>, i: int)
    requires
        0 <= i < monitors.len(),
        forall|j: int| 0 <= j < i ==> !(#[trigger] monitors[j]).is_primary,
    ensures
        monitors[i].is_primary ==> monitor_target(Some(monitors)) == CaptureTarget::Monitor(
            monitors[i].id,
        ),
        !monitors[i].is_primary && i == monitors.len() - 1 ==> monitor_target(Some(monitors))
            == CaptureTarget::Monitor(monitors[0].id),
        monitor_target(None) == CaptureTarget::FullDesktop,
        monitor_target(Some(Seq::<MonitorInfo>::empty())) == CaptureTarget::FullDesktop,
{
    lemma_first_primary(monitors, i);
    assert(first_primary(Seq::<MonitorInfo>::empty()) is None);
}

proof fn lemma_first_primary(monitors: Seq<MonitorInfo>, i: int)
    requires
        0 <= i < monitors.len(),
        forall|j: int| 0 <= j < i ==> !(#[trigger] monitors[j]).is_primary,
    ensures
        monitors[i].is_primary ==> first_primary(monitors) == Some(monitors[i]),
        !monitors[i].is_primary && i == monitors.len() - 1 ==> first_primary(monitors) is None,
    decreases monitors.len(),
{
    let rest = monitors.subrange(1, monitors.len() as int);
    if i > 0 {
        assert(!monitors[0].is_primary);
        assert forall|j: int| 0 <= j < i - 1 implies !(#[trigger] rest[j]).is_primary by {
            assert(!monitors[j + 1].is_primary);
        }
        lemma_first_primary(rest, i - 1);
    } else if monitors.len() == 1 {
        assert(rest =~= Seq::<MonitorInfo>::empty());
        assert(first_primary(rest) is None);
    }
}

/// A picture shows the frame's own bytes where there is no cursor.
pub proof fn law_without_a_cursor_the_frame_shows(frame: RawFrame, x: int, y: int, c: int)
    requires
        0 <= c < 4,
    ensures
        shown_at(frame, None, x, y).len() == 4,
        shown_at(frame, None, x, y)[c] == frame.data@[4 * (y * frame.width + x) + c],
{
    crate::frame::law_frames_are_rows_of_pixels(frame, x, y, c);
}

} // verus!
