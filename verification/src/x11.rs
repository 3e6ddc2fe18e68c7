//! Linux under X11: what a direct grab through the X protocol asks for, and what
//! the server's replies mean.
//!
//! * **No per-monitor DPI.** X11 has one global pixel grid, so every monitor is
//!   reported with a scale of 1.0.
//! * **Monitor ids are enumeration indices**, valid until the display
//!   configuration changes.
//! * **The root window spans the whole virtual screen**, so even a full-desktop
//!   capture is a single grab and needs no stitching.

use crate::cursor::{CursorAnchor, CursorImage};
use crate::error::CaptureError;
use crate::frame::RawFrame;
use crate::geometry::{PixelRect, Rect, Vec2D};
use crate::monitor::{MonitorId, MonitorInfo, VirtualDesktop};
use crate::pixels::{zpixmap_to_rgba, ZPixmapFormat};
use crate::single::{ScaleFactor, ONE_BITS};
use crate::target::{resolve_target, Capabilities, CaptureTarget, ResolvedTarget};
use crate::text::{chars_of, decimal, joined, lossy_text};
use crate::window::{WindowId, WindowInfo};
use vstd::prelude::*;
use vstd::string::*;

verus! {

/// The backend's identifier.
pub const NAME: &'static str = "x11";

/// A visual: which bits of a pixel word hold which channel.
#[derive(Debug, Clone, Copy, PartialEq, Eq, Structural)]
pub struct Visual {
    /// The visual's id.
    pub visual_id: u32,
    /// Bits of the red channel.
    pub red_mask: u32,
    /// Bits of the green channel.
    pub green_mask: u32,
    /// Bits of the blue channel.
    pub blue_mask: u32,
}

/// How the server lays out pixmaps of one depth.
#[derive(Debug, Clone, Copy, PartialEq, Eq, Structural)]
pub struct PixmapLayout {
    /// The depth that the layout is for.
    pub depth: u8,
    /// Bits per pixel.
    pub bits_per_pixel: u8,
    /// Scanline padding in bits.
    pub scanline_pad: u8,
}

/// A screen as the server describes it.
#[derive(Debug, Clone, PartialEq, Eq)]
pub struct Screen {
    /// The root window.
    pub root: u32,
    /// The root window's width.
    pub width: u16,
    /// The root window's height.
    pub height: u16,
    /// The visual of the root window.
    pub root_visual: u32,
    /// The depth of the root window.
    pub root_depth: u8,
    /// The visuals of all depths.
    pub visuals: Vec<Visual>,
}

/// What the server says of itself when a connection is made.
#[derive(Debug, Clone, PartialEq, Eq)]
pub struct Setup {
    /// Its screens.
    pub screens: Vec<Screen>,
    /// Its pixmap layouts.
    pub layouts: Vec<PixmapLayout>,
    /// Its images are least-significant-byte first.
    pub lsb_first: bool,
}

/// What a grab needs to know of the server.
#[derive(Debug, Clone, Copy, PartialEq, Eq, Structural)]
pub struct Root {
    /// The root window.
    pub window: u32,
    /// The root window's width.
    pub width: u16,
    /// The root window's height.
    pub height: u16,
    /// How its pixels are packed.
    pub format: ZPixmapFormat,
}

/// `visuals[i]` is the first visual with the given id.
pub open spec fn is_first_visual(visuals: Seq<Visual>, i: int, id: u32) -> bool {
    &&& 0 <= i < visuals.len()
    &&& visuals[i].visual_id == id
    &&& forall|j: int| 0 <= j < i ==> (#[trigger] visuals[j]).visual_id != id
}

/// `layouts[i]` is the first layout for the given depth.
pub open spec fn is_first_layout(layouts: Seq<PixmapLayout>, i: int, depth: u8) -> bool {
    &&& 0 <= i < layouts.len()
    &&& layouts[i].depth == depth
    &&& forall|j: int| 0 <= j < i ==> (#[trigger] layouts[j]).depth != depth
}

/// What is found out about screen `n` of a server.
pub open spec fn is_root(result: Result<Root, CaptureError>, setup: Setup, n: int) -> bool {
    if n >= setup.screens@.len() {
        result matches Err(e) && e is Backend && e.detail() == "the X server has no screen "@
            + crate::text::decimal_text(n as nat)
    } else {
        let screen = setup.screens@[n];
        if forall|j: int|
            0 <= j < screen.visuals@.len() ==> (#[trigger] screen.visuals@[j]).visual_id
                != screen.root_visual {
            result matches Err(e) && e is Backend && e.detail()
                == "the X server did not describe the root visual"@
        } else if forall|j: int|
            0 <= j < setup.layouts@.len() ==> (#[trigger] setup.layouts@[j]).depth
                != screen.root_depth {
            result matches Err(e) && e is Backend && e.detail()
                == "the X server has no pixmap format for depth "@ + crate::text::decimal_text(
                screen.root_depth as nat,
            )
        } else {
            result matches Ok(root) && exists|v: int, l: int|
                #![trigger is_first_visual(screen.visuals@, v, screen.root_visual), is_first_layout(setup.layouts@, l, screen.root_depth)]
                is_first_visual(screen.visuals@, v, screen.root_visual) && is_first_layout(
                    setup.layouts@,
                    l,
                    screen.root_depth,
                ) && root == (Root {
                    window: screen.root,
                    width: screen.width,
                    height: screen.height,
                    format: ZPixmapFormat {
                        bits_per_pixel: setup.layouts@[l].bits_per_pixel,
                        scanline_pad: setup.layouts@[l].scanline_pad,
                        little_endian: setup.lsb_first,
                        red_mask: screen.visuals@[v].red_mask,
                        green_mask: screen.visuals@[v].green_mask,
                        blue_mask: screen.visuals@[v].blue_mask,
                    },
                })
        }
    }
}

/// Find out how the pixels of screen `screen_num` are packed: the masks come
/// from the root visual, the packing from the layout for the root's depth.
pub fn describe_root(setup: &Setup, screen_num: usize) -> (result: Result<Root, CaptureError>)
    ensures
        is_root(result, *setup, screen_num as int),
{
    if screen_num >= setup.screens.len() {
        return Err(
            CaptureError::Backend(
                joined("the X server has no screen ", decimal(screen_num as u64).as_str()),
            ),
        );
    }
    let screen = &setup.screens[screen_num];
    let mut v: usize = 0;
    while v < screen.visuals.len() && screen.visuals[v].visual_id != screen.root_visual
        invariant
            v <= screen.visuals@.len(),
            forall|j: int|
                0 <= j < v ==> (#[trigger] screen.visuals@[j]).visual_id != screen.root_visual,
        decreases screen.visuals.len() - v,
    {
        v = v + 1;
    }
    if v == screen.visuals.len() {
        return Err(CaptureError::backend("the X server did not describe the root visual"));
    }
    assert(screen.visuals@[v as int].visual_id == screen.root_visual);
    let mut l: usize = 0;
    while l < setup.layouts.len() && setup.layouts[l].depth != screen.root_depth
        invariant
            l <= setup.layouts@.len(),
            forall|j: int| 0 <= j < l ==> (#[trigger] setup.layouts@[j]).depth != screen.root_depth,
        decreases setup.layouts.len() - l,
    {
        l = l + 1;
    }
    if l == setup.layouts.len() {
        return Err(
            CaptureError::Backend(
                joined(
                    "the X server has no pixmap format for depth ",
                    decimal(screen.root_depth as u64).as_str(),
                ),
            ),
        );
    }
    assert(setup.layouts@[l as int].depth == screen.root_depth);
    assert(is_first_visual(screen.visuals@, v as int, screen.root_visual));
    assert(is_first_layout(setup.layouts@, l as int, screen.root_depth));
    Ok(
        Root {
            window: screen.root,
            width: screen.width,
            height: screen.height,
            format: ZPixmapFormat {
                bits_per_pixel: setup.layouts[l].bits_per_pixel,
                scanline_pad: setup.layouts[l].scanline_pad,
                little_endian: setup.lsb_first,
                red_mask: screen.visuals[v].red_mask,
                green_mask: screen.visuals[v].green_mask,
                blue_mask: screen.visuals[v].blue_mask,
            },
        },
    )
}

/// A monitor as RandR reports it.
#[derive(Debug, Clone, PartialEq, Eq)]
pub struct Output {
    /// The output's name, where it can be read.
    pub name: Option<String>,
    /// Left edge on the root window.
    pub x: i16,
    /// Top edge on the root window.
    pub y: i16,
    /// Width in pixels.
    pub width: u16,
    /// Height in pixels.
    pub height: u16,
    /// Whether it is the primary one.
    pub primary: bool,
}

/// `m` describes output number `index`.
pub open spec fn is_output(m: MonitorInfo, output: Output, index: int) -> bool {
    &&& m.wf()
    &&& m.id.0 == index
    &&& m.name@ == (match output.name {
        Some(name) => name@,
        None => "output-"@ + crate::text::decimal_text(index as nat),
    })
    &&& m.bounds == (Rect {
        left: output.x as i64,
        top: output.y as i64,
        right: (output.x + output.width) as i64,
        bottom: (output.y + output.height) as i64,
    })
    &&& m.scale_factor.bits == ONE_BITS
    &&& m.is_primary == output.primary
}

/// `m` is the whole root window as one monitor.
pub open spec fn is_whole_screen(m: MonitorInfo, width: u16, height: u16) -> bool {
    &&& m.wf()
    &&& m.id.0 == 0
    &&& m.name@ == "screen"@
    &&& m.bounds == (Rect { left: 0, top: 0, right: width as i64, bottom: height as i64 })
    &&& m.scale_factor.bits == ONE_BITS
    &&& m.is_primary
}

/// The monitors of an X server: RandR's, or the whole screen as one monitor
/// when RandR is missing, too old, or reports none.
pub fn monitors(outputs: Option<&[Output]>, width: u16, height: u16) -> (ms: Vec<MonitorInfo>)
    ensures
        match outputs {
            Some(outputs) => if outputs@.len() > 0 {
                ms@.len() == outputs@.len() && forall|i: int|
                    0 <= i < ms@.len() ==> is_output(#[trigger] ms@[i], outputs@[i], i)
            } else {
                ms@.len() == 1 && is_whole_screen(ms@[0], width, height)
            },
            None => ms@.len() == 1 && is_whole_screen(ms@[0], width, height),
        },
{
    let mut ms: Vec<MonitorInfo> = Vec::new();
    if let Some(outputs) = outputs {
        let mut i: usize = 0;
        while i < outputs.len()
            invariant
                i <= outputs@.len(),
                ms@.len() == i,
                forall|j: int| 0 <= j < i ==> is_output(#[trigger] ms@[j], outputs@[j], j),
            decreases outputs.len() - i,
        {
            let output = &outputs[i];
            let name = match &output.name {
                Some(name) => name.clone(),
                None => joined("output-", decimal(i as u64).as_str()),
            };
            ms.push(
                MonitorInfo::new(
                    MonitorId::new(i as u64),
                    name.as_str(),
                    Rect::from_xywh(
                        output.x as i64,
                        output.y as i64,
                        output.width as i64,
                        output.height as i64,
                    ),
                    ONE_BITS,
                    output.primary,
                ),
            );
            i = i + 1;
        }
    }
    if ms.len() == 0 {
        ms.push(
            MonitorInfo::new(
                MonitorId::new(0),
                "screen",
                Rect::from_xywh(0, 0, width as i64, height as i64),
                ONE_BITS,
                true,
            ),
        );
    }
    ms
}

/// A client window, in the order of the server's stacking list.
#[derive(Debug, Clone, PartialEq, Eq)]
pub struct Client {
    /// The window's id.
    pub window: u32,
    /// Where it is on the root window and how large it is, or `None` when it
    /// closed in the meantime.
    pub bounds: Option<Rect>,
    /// Its title.
    pub title: String,
    /// The application it belongs to.
    pub app_name: String,
    /// Whether its state says that it is hidden.
    pub is_minimized: bool,
}

/// The windows of `clients` that still exist, which stand at these places.
pub open spec fn standing(clients: Seq<Client>, n: int) -> Seq<int>
    decreases n,
{
    if n <= 0 || n > clients.len() {
        seq![]
    } else if clients[n - 1].bounds is Some {
        standing(clients, n - 1).push(n - 1)
    } else {
        standing(clients, n - 1)
    }
}

/// `w` describes client number `index` of a list of `count`. The list is
/// bottom-to-top; the frontmost window has the stacking position zero.
pub open spec fn is_client(w: WindowInfo, client: Client, index: int, count: int) -> bool {
    &&& w.id.0 == client.window
    &&& w.title@ == client.title@
    &&& w.app_name@ == client.app_name@
    &&& client.bounds matches Some(r) && w.bounds == r.in_order()
    &&& w.is_minimized == client.is_minimized
    &&& w.z_order == count - 1 - index
}

/// The top-level windows, from the server's stacking list. A window that closed
/// during the enumeration is skipped rather than failing all of it.
pub fn windows(clients: &[Client]) -> (ws: Vec<WindowInfo>)
    requires
        clients@.len() <= u32::MAX,
    ensures
        ws@.len() == standing(clients@, clients@.len() as int).len(),
        forall|k: int|
            0 <= k < ws@.len() ==> is_client(
                #[trigger] ws@[k],
                clients@[standing(clients@, clients@.len() as int)[k]],
                standing(clients@, clients@.len() as int)[k],
                clients@.len() as int,
            ),
{
    let mut ws: Vec<WindowInfo> = Vec::new();
    let count: usize = clients.len();
    let mut i: usize = 0;
    while i < count
        invariant
            i <= count,
            count == clients@.len(),
            count <= u32::MAX,
            ws@.len() == standing(clients@, i as int).len(),
            forall|k: int|
                0 <= k < ws@.len() ==> is_client(
                    #[trigger] ws@[k],
                    clients@[standing(clients@, i as int)[k]],
                    standing(clients@, i as int)[k],
                    clients@.len() as int,
                ),
        decreases count - i,
    {
        let client = &clients[i];
        if let Some(bounds) = client.bounds {
            ws.push(
                WindowInfo::new(
                    WindowId::new(client.window as u64),
                    client.title.as_str(),
                    client.app_name.as_str(),
                    bounds,
                    client.is_minimized,
                    (count - 1 - i) as u32,
                ),
            );
        }
        i = i + 1;
    }
    ws
}

/// `s` without the NUL characters at its end.
pub open spec fn without_trailing_nuls(s: Seq<char>) -> Seq<char>
    decreases s.len(),
{
    if s.len() > 0 && s.last() == '\0' {
        without_trailing_nuls(s.drop_last())
    } else {
        s
    }
}

/// A window's title: `_NET_WM_NAME` is authoritative, `WM_NAME` the fallback.
pub fn window_title(net_wm_name: Option<&str>, wm_name: Option<&str>) -> (title: String)
    ensures
        title@ == (match net_wm_name {
            Some(name) => without_trailing_nuls(name@),
            None => match wm_name {
                Some(name) => without_trailing_nuls(name@),
                None => seq![],
            },
        }),
{
    let raw = match net_wm_name {
        Some(name) => name,
        None => match wm_name {
            Some(name) => name,
            None => {
                return String::new();
            },
        },
    };
    let chars = chars_of(raw);
    let mut end: usize = chars.len();
    assert(raw@.take(end as int) =~= raw@);
    while end > 0 && chars[end - 1] == '\0'
        invariant
            end <= chars@.len(),
            chars@ == raw@,
            without_trailing_nuls(raw@) == without_trailing_nuls(raw@.take(end as int)),
        decreases end,
    {
        assert(raw@.take(end as int).drop_last() =~= raw@.take(end - 1));
        end = end - 1;
    }
    let part = raw.substring_char(0, end);
    assert(part@ =~= raw@.take(end as int));
    part.to_owned()
}

/// The end of the NUL-terminated string that begins at `from`.
pub open spec fn nul_end(s: Seq<char>, from: int) -> int
    decreases s.len() - from,
{
    if from >= s.len() || s[from] == '\0' {
        from
    } else {
        nul_end(s, from + 1)
    }
}

/// The non-empty parts of `s` from `from` on, between NUL characters.
pub open spec fn nul_parts(s: Seq<char>, from: int) -> Seq<Seq<char>>
    decreases s.len() - from,
{
    if from < 0 || from >= s.len() {
        seq![]
    } else if s[from] == '\0' {
        nul_parts(s, from + 1)
    } else {
        let end = nul_end(s, from + 1);
        if from < end <= s.len() {
            seq![s.subrange(from, end)] + nul_parts(s, end)
        } else {
            seq![]
        }
    }
}

proof fn lemma_nul_end(s: Seq<char>, from: int, end: int)
    requires
        0 <= from <= end <= s.len(),
        forall|i: int| from <= i < end ==> #[trigger] s[i] != '\0',
        end < s.len() ==> s[end] == '\0',
    ensures
        nul_end(s, from) == end,
    decreases end - from,
{
    if from < end {
        lemma_nul_end(s, from + 1, end);
    }
}

/// The application name in a `WM_CLASS`: two NUL-terminated strings, instance
/// and class. The class is the better name; the instance will do without it.
pub fn window_app_name(wm_class: &str) -> (name: String)
    ensures
        name@ == {
            let parts = nul_parts(wm_class@, 0);
            if parts.len() >= 2 {
                parts[1]
            } else if parts.len() == 1 {
                parts[0]
            } else {
                seq![]
            }
        },
{
    let chars = chars_of(wm_class);
    let ghost s = wm_class@;
    let mut first: Option<String> = None;
    let mut at: usize = 0;
    while at < chars.len()
        invariant
            at <= chars@.len(),
            chars@ == s,
            s == wm_class@,
            match first {
                Some(f) => nul_parts(s, 0) == seq![f@] + nul_parts(s, at as int),
                None => nul_parts(s, 0) == nul_parts(s, at as int),
            },
        decreases chars.len() - at,
    {
        if chars[at] == '\0' {
            at = at + 1;
        } else {
            let mut end: usize = at + 1;
            while end < chars.len() && chars[end] != '\0'
                invariant
                    at < end <= chars@.len(),
                    chars@ == s,
                    forall|i: int| at < i < end ==> #[trigger] s[i] != '\0',
                decreases chars.len() - end,
            {
                end = end + 1;
            }
            proof {
                lemma_nul_end(s, at + 1, end as int);
            }
            let part = wm_class.substring_char(at, end).to_owned();
            assert(nul_parts(s, at as int) == seq![part@] + nul_parts(s, end as int));
            match first {
                Some(_) => {
                    assert(nul_parts(s, 0)[1] == part@);
                    return part;
                },
                None => {
                    first = Some(part);
                },
            }
            at = end;
        }
    }
    assert(nul_parts(s, at as int) =~= seq![]);
    match first {
        Some(f) => {
            assert(nul_parts(s, 0) =~= seq![f@]);
            f
        },
        None => String::new(),
    }
}

/// Is the hidden state among a window's states?
pub fn window_is_minimized(states: &[u32], hidden: u32) -> (yes: bool)
    ensures
        yes == states@.contains(hidden),
{
    let mut i: usize = 0;
    while i < states.len()
        invariant
            i <= states@.len(),
            forall|j: int| 0 <= j < i ==> #[trigger] states@[j] != hidden,
        decreases states.len() - i,
    {
        if states[i] == hidden {
            assert(states@[i as int] == hidden);
            return true;
        }
        i = i + 1;
    }
    false
}

/// The arguments of a `GetImage` request.
#[derive(Debug, Clone, Copy, PartialEq, Eq, Structural)]
pub struct GrabRequest {
    /// Left edge.
    pub x: i16,
    /// Top edge.
    pub y: i16,
    /// Width in pixels.
    pub width: u16,
    /// Height in pixels.
    pub height: u16,
}

/// What can be asked of the server for `rect`: its coordinates are 16 bits wide.
pub open spec fn is_grab_request(
    result: Result<GrabRequest, CaptureError>,
    rect: PixelRect,
) -> bool {
    if !(i16::MIN <= rect.x <= i16::MAX) {
        result matches Err(e) && e is InvalidFrame && e.detail()
            == "region x does not fit in an X11 i16"@
    } else if !(i16::MIN <= rect.y <= i16::MAX) {
        result matches Err(e) && e is InvalidFrame && e.detail()
            == "region y does not fit in an X11 i16"@
    } else if rect.width > u16::MAX {
        result matches Err(e) && e is InvalidFrame && e.detail() == "region is wider than 65535 px"@
    } else if rect.height > u16::MAX {
        result matches Err(e) && e is InvalidFrame && e.detail()
            == "region is taller than 65535 px"@
    } else {
        result matches Ok(r) && r.x == rect.x && r.y == rect.y && r.width == rect.width && r.height
            == rect.height
    }
}

/// Fit a rectangle into the arguments of a `GetImage` request.
pub fn grab_request(rect: PixelRect) -> (result: Result<GrabRequest, CaptureError>)
    ensures
        is_grab_request(result, rect),
{
    if rect.x < i16::MIN as i32 || rect.x > i16::MAX as i32 {
        return Err(CaptureError::invalid_frame("region x does not fit in an X11 i16"));
    }
    if rect.y < i16::MIN as i32 || rect.y > i16::MAX as i32 {
        return Err(CaptureError::invalid_frame("region y does not fit in an X11 i16"));
    }
    if rect.width > u16::MAX as u32 {
        return Err(CaptureError::invalid_frame("region is wider than 65535 px"));
    }
    if rect.height > u16::MAX as u32 {
        return Err(CaptureError::invalid_frame("region is taller than 65535 px"));
    }
    Ok(
        GrabRequest {
            x: rect.x as i16,
            y: rect.y as i16,
            width: rect.width as u16,
            height: rect.height as u16,
        },
    )
}

/// The frame that a `GetImage` reply holds for `rect`.
pub fn grab(data: &[u8], rect: PixelRect, format: ZPixmapFormat, scale: ScaleFactor) -> (result:
    Result<RawFrame, CaptureError>)
    ensures
        match result {
            Ok(f) => {
                &&& format.supported()
                &&& format.row_bytes(rect.width) <= usize::MAX
                &&& data@.len() >= format.row_bytes(rect.width) * rect.height
                &&& f.wf()
                &&& f.width == rect.width
                &&& f.height == rect.height
                &&& f.origin == (Vec2D { x: rect.x as i64, y: rect.y as i64 })
                &&& f.scale_factor == ScaleFactor::sanitized(scale.bits)
                &&& forall|x: int, y: int|
                    f.has(x, y) ==> #[trigger] f.at(x, y) == crate::pixels::zpixmap_pixel(
                        data@,
                        rect.width,
                        format,
                        x,
                        y,
                    )
            },
            Err(e) => if format.supported() {
                &&& data@.len() < format.row_bytes(rect.width) * rect.height || format.row_bytes(
                    rect.width,
                ) > usize::MAX
                &&& crate::frame::is_invalid(
                    e,
                    format.short_text(rect.width, rect.height, data@.len()),
                )
            } else {
                format.is_unsupported(e)
            },
        },
{
    match zpixmap_to_rgba(data, rect.width, rect.height, format) {
        Ok(rgba) => {
            let origin = Vec2D::new(rect.x as i64, rect.y as i64);
            let result = RawFrame::new(rect.width, rect.height, rgba, origin, scale.bits);
            proof {
                let f = result->Ok_0;
                assert forall|x: int, y: int| f.has(x, y) implies #[trigger] f.at(x, y)
                    == crate::pixels::zpixmap_pixel(data@, rect.width, format, x, y) by {
                    assert(crate::frame::nth_pixel(rgba@, y * rect.width + x)
                        == crate::pixels::zpixmap_pixel(data@, rect.width, format, x, y));
                }
            }
            result
        },
        Err(e) => Err(e),
    }
}

/// What to ask the server for a target, and what scale the result has.
pub fn plan_capture(target: CaptureTarget, desktop: &VirtualDesktop, windows: &[WindowInfo]) -> (plan:
    Result<(PixelRect, ScaleFactor), CaptureError>)
    ensures
        exists|resolved: Result<ResolvedTarget, CaptureError>|
            #[trigger] crate::target::is_resolved(resolved, target, desktop@, windows@) && (
            match resolved {
                Ok(r) => match plan {
                    Ok((rect, scale)) => scale == r.scale_factor && PixelRect::is_from_rect(
                        Ok(rect),
                        r.bounds,
                    ),
                    Err(e) => PixelRect::is_from_rect(Err(e), r.bounds),
                },
                Err(e) => plan == Err::<(PixelRect, ScaleFactor), CaptureError>(e),
            }),
{
    let resolved = resolve_target(target, desktop, windows);
    assert(crate::target::is_resolved(resolved, target, desktop@, windows@));
    match resolved {
        Ok(r) => match r.pixel_bounds() {
            Ok(rect) => Ok((rect, r.scale_factor)),
            Err(e) => Err(e),
        },
        Err(e) => Err(e),
    }
}

/// Everything, without prompts; the cursor only where the server has XFixes.
pub fn capabilities(has_xfixes: bool) -> (c: Capabilities)
    ensures
        c.cursor == has_xfixes,
        c.full_desktop && c.monitor && c.window && c.region,
        c.monitor_enumeration && c.window_enumeration,
        !c.interactive_only && !c.may_prompt_for_permission,
{
    let full = Capabilities::full();
    Capabilities { cursor: has_xfixes, ..full }
}

/// Turn an XFixes cursor reply into a [`CursorImage`].
///
/// `x` and `y` are the *sprite position*, i.e. the hotspot, in root-window
/// coordinates. A hidden pointer comes back as a zero-sized image rather than an
/// error.
pub fn cursor_from_xfixes(
    x: i16,
    y: i16,
    width: u16,
    height: u16,
    xhot: u16,
    yhot: u16,
    words: &[u32],
) -> (result: Result<Option<CursorImage>, CaptureError>)
    ensures
        match result {
            Ok(None) => width == 0 || height == 0,
            Ok(Some(c)) => {
                &&& width > 0 && height > 0
                &&& words@.len() >= width * height
                &&& c.wf()
                &&& c.width == width
                &&& c.height == height
                &&& c.position == (Vec2D { x: (x - xhot) as i64, y: (y - yhot) as i64 })
                &&& forall|n: int|
                    0 <= n < width * height ==> #[trigger] crate::frame::nth_pixel(c.data@, n)
                        == crate::cursor::limited(CursorImage::of_argb_word(words@[n]))
            },
            Err(e) => {
                &&& width > 0 && height > 0
                &&& if words@.len() < width * height {
                    crate::frame::is_invalid(
                        e,
                        crate::cursor::short_cursor_text(
                            width as u32,
                            height as u32,
                            words@.len(),
                        ),
                    )
                } else {
                    &&& crate::frame::byte_len(width as u32, height as u32) > usize::MAX
                    &&& crate::frame::is_invalid(e, "cursor does not fit in memory"@)
                }
            },
        },
{
    if width == 0 || height == 0 {
        return Ok(None);
    }
    let anchor = CursorAnchor::Hotspot {
        position: Vec2D::new(x as i64, y as i64),
        xhot: xhot as u32,
        yhot: yhot as u32,
    };
    match CursorImage::from_argb_words(width as u32, height as u32, words, anchor) {
        Ok(c) => Ok(Some(c)),
        Err(e) => Err(e),
    }
}

/// Every byte as the character with its number.
pub open spec fn latin1(bytes: Seq<u8>) -> Seq<char> {
    Seq::new(bytes.len(), |i: int| bytes[i] as char)
}

/// Decode an X11 text property's bytes. The property's *type* decides:
///
/// * `UTF8_STRING` (`utf8` here) is UTF-8; malformed sequences are replaced
///   rather than failing the whole enumeration over one bad title.
/// * Everything else is ISO 8859-1, where every byte is the code point of the
///   same number.
pub fn decode_text(bytes: &[u8], utf8: bool) -> (text: String)
    ensures
        utf8 ==> text@ == crate::text::lossy_utf8(bytes@),
        utf8 && vstd::utf8::valid_utf8(bytes@) ==> text@ == vstd::utf8::decode_utf8(bytes@),
        !utf8 ==> text@ == latin1(bytes@),
{
    if utf8 {
        lossy_text(bytes)
    } else {
        let mut text = String::new();
        let mut i: usize = 0;
        while i < bytes.len()
            invariant
                i <= bytes@.len(),
                text@ =~= latin1(bytes@).take(i as int),
            decreases bytes.len() - i,
        {
            text.push(bytes[i] as char);
            i = i + 1;
        }
        assert(text@ =~= latin1(bytes@));
        text
    }
}

/// ASCII text decodes identically under either type.
pub proof fn law_ascii_decodes_alike(chars: Seq<char>)
    requires
        vstd::utf8::is_ascii_chars(chars),
    ensures
        vstd::utf8::valid_utf8(vstd::utf8::encode_utf8(chars)),
        vstd::utf8::decode_utf8(vstd::utf8::encode_utf8(chars)) == latin1(
            vstd::utf8::encode_utf8(chars),
        ),
{
    vstd::utf8::encode_utf8_valid_utf8(chars);
    vstd::utf8::encode_utf8_decode_utf8(chars);
    vstd::utf8::is_ascii_chars_encode_utf8(chars);
    vstd::utf8::is_ascii_chars_nat_bound(chars);
    assert(latin1(vstd::utf8::encode_utf8(chars)) =~= chars);
}

/// Every window's stacking position is its distance from the top of the list,
/// so a window later in the list is nearer to the front.
pub proof fn law_later_clients_are_nearer(
    a: WindowInfo,
    b: WindowInfo,
    first: Client,
    second: Client,
    i: int,
    j: int,
    count: int,
)
    requires
        is_client(a, first, i, count),
        is_client(b, second, j, count),
        i < j,
    ensures
        b.z_order < a.z_order,
{
}

/// What is found out about a screen: the masks are those of the first visual
/// with the root's id, the packing that of the first layout for the root's
/// depth, and the byte order the server's.
pub proof fn law_the_root_is_described_by_its_visual_and_depth(root: Root, setup: Setup, n: int)
    requires
        0 <= n,
        is_root(Ok(root), setup, n),
    ensures
        n < setup.screens@.len(),
        ({
            let screen = setup.screens@[n];
            &&& root.window == screen.root
            &&& root.width == screen.width
            &&& root.height == screen.height
            &&& root.format.little_endian == setup.lsb_first
            &&& exists|v: int|
                0 <= v < screen.visuals@.len() && (#[trigger] screen.visuals@[v]).visual_id
                    == screen.root_visual && root.format.red_mask == screen.visuals@[v].red_mask
                    && root.format.green_mask == screen.visuals@[v].green_mask
                    && root.format.blue_mask == screen.visuals@[v].blue_mask && (forall|j: int|
                    0 <= j < v ==> (#[trigger] screen.visuals@[j]).visual_id != screen.root_visual)
            &&& exists|l: int|
                0 <= l < setup.layouts@.len() && (#[trigger] setup.layouts@[l]).depth
                    == screen.root_depth && root.format.bits_per_pixel
                    == setup.layouts@[l].bits_per_pixel && root.format.scanline_pad
                    == setup.layouts@[l].scanline_pad && (forall|j: int|
                    0 <= j < l ==> (#[trigger] setup.layouts@[j]).depth != screen.root_depth)
        }),
{
    let screen = setup.screens@[n];
    let (v, l) = choose|v: int, l: int|
        #![trigger is_first_visual(screen.visuals@, v, screen.root_visual), is_first_layout(setup.layouts@, l, screen.root_depth)]
        is_first_visual(screen.visuals@, v, screen.root_visual) && is_first_layout(
            setup.layouts@,
            l,
            screen.root_depth,
        ) && root == (Root {
            window: screen.root,
            width: screen.width,
            height: screen.height,
            format: ZPixmapFormat {
                bits_per_pixel: setup.layouts@[l].bits_per_pixel,
                scanline_pad: setup.layouts@[l].scanline_pad,
                little_endian: setup.lsb_first,
                red_mask: screen.visuals@[v].red_mask,
                green_mask: screen.visuals@[v].green_mask,
                blue_mask: screen.visuals@[v].blue_mask,
            },
        });
    assert(screen.visuals@[v].visual_id == screen.root_visual);
    assert(setup.layouts@[l].depth == screen.root_depth);
}

/// A monitor starts at its output's corner, is as large as the output and
/// unscaled, and has the output's number. The whole screen starts at the origin
/// and is the primary monitor.
pub proof fn law_monitors_are_their_outputs(
    m: MonitorInfo,
    output: Output,
    index: int,
    width: u16,
    height: u16,
)
    ensures
        is_output(m, output, index) ==> {
            &&& m.id.0 == index
            &&& m.bounds.left == output.x
            &&& m.bounds.top == output.y
            &&& m.bounds.right - m.bounds.left == output.width
            &&& m.bounds.bottom - m.bounds.top == output.height
            &&& m.scale_factor.bits == 0x3f80_0000
            &&& m.is_primary == output.primary
            &&& output.name matches Some(name) ==> m.name@ == name@
        },
        is_whole_screen(m, width, height) ==> {
            &&& m.id.0 == 0
            &&& m.bounds.left == 0
            &&& m.bounds.top == 0
            &&& m.bounds.right == width
            &&& m.bounds.bottom == height
            &&& m.scale_factor.bits == 0x3f80_0000
            &&& m.is_primary
        },
{
}

/// The windows that are listed are the clients that still have a place, in the
/// list's order, and each carries over what is known of its client. The last
/// client of the list has stacking number zero, and every earlier one is one
/// further back.
pub proof fn law_windows_are_their_clients(clients: Seq<Client>, ws: Seq<WindowInfo>, i: int)
    requires
        ws.len() == standing(clients, clients.len() as int).len(),
        forall|k: int|
            0 <= k < ws.len() ==> is_client(
                #[trigger] ws[k],
                clients[standing(clients, clients.len() as int)[k]],
                standing(clients, clients.len() as int)[k],
                clients.len() as int,
            ),
        0 <= i < clients.len(),
    ensures
        clients[i].bounds is Some <==> exists|k: int|
            0 <= k < ws.len() && (#[trigger] ws[k]).z_order + i == clients.len() - 1,
        forall|k: int|
            0 <= k < ws.len() && (#[trigger] ws[k]).z_order + i == clients.len() - 1 ==> {
                let r = clients[i].bounds->Some_0;
                &&& ws[k].id.0 == clients[i].window
                &&& ws[k].title@ == clients[i].title@
                &&& ws[k].app_name@ == clients[i].app_name@
                &&& ws[k].is_minimized == clients[i].is_minimized
                &&& r.left <= r.right && r.top <= r.bottom ==> ws[k].bounds == r
            },
        forall|j: int, k: int|
            0 <= j < k < ws.len() ==> (#[trigger] ws[j]).z_order > (#[trigger] ws[k]).z_order,
{
    let n = clients.len() as int;
    let at = standing(clients, n);
    lemma_standing(clients, n);
    if clients[i].bounds is Some {
        assert(at.contains(i));
        let k = choose|k: int| 0 <= k < at.len() && at[k] == i;
        assert(is_client(ws[k], clients[at[k]], at[k], n));
        assert(ws[k].z_order + i == n - 1);
    }
    assert forall|k: int| 0 <= k < ws.len() && (#[trigger] ws[k]).z_order + i == n - 1 implies {
        let r = clients[i].bounds->Some_0;
        &&& clients[i].bounds is Some
        &&& ws[k].id.0 == clients[i].window
        &&& ws[k].title@ == clients[i].title@
        &&& ws[k].app_name@ == clients[i].app_name@
        &&& ws[k].is_minimized == clients[i].is_minimized
        &&& r.left <= r.right && r.top <= r.bottom ==> ws[k].bounds == r
    } by {
        assert(is_client(ws[k], clients[at[k]], at[k], n));
        assert(at[k] == i);
    }
    assert forall|j: int, k: int| 0 <= j < k < ws.len() implies (#[trigger] ws[j]).z_order > (
    #[trigger] ws[k]).z_order by {
        assert(is_client(ws[j], clients[at[j]], at[j], n));
        assert(is_client(ws[k], clients[at[k]], at[k], n));
        assert(at[j] < at[k]);
    }
}

proof fn lemma_standing(clients: Seq<Client>, n: int)
    requires
        0 <= n <= clients.len(),
    ensures
        forall|k: int|
            0 <= k < standing(clients, n).len() ==> 0 <= #[trigger] standing(clients, n)[k] < n
                && clients[standing(clients, n)[k]].bounds is Some,
        forall|j: int, k: int|
            0 <= j < k < standing(clients, n).len() ==> #[trigger] standing(clients, n)[j]
                < #[trigger] standing(clients, n)[k],
        forall|i: int|
            0 <= i < n && (#[trigger] clients[i]).bounds is Some ==> standing(clients, n).contains(
                i,
            ),
    decreases n,
{
    if n > 0 {
        lemma_standing(clients, n - 1);
        let before = standing(clients, n - 1);
        let all = standing(clients, n);
        assert forall|i: int|
            0 <= i < n && (#[trigger] clients[i]).bounds is Some implies all.contains(i) by {
            if i < n - 1 {
                assert(before.contains(i));
                let k = choose|k: int| 0 <= k < before.len() && before[k] == i;
                assert(all[k] == i);
            } else {
                assert(all[before.len() as int] == i);
            }
        }
    }
}

/// A title loses the NULs at its end and nothing else.
pub proof fn law_titles_lose_trailing_nuls(s: Seq<char>)
    ensures
        ({
            let kept = without_trailing_nuls(s);
            &&& kept.len() <= s.len()
            &&& kept == s.take(kept.len() as int)
            &&& kept.len() > 0 ==> kept.last() != '\0'
            &&& forall|i: int| kept.len() <= i < s.len() ==> #[trigger] s[i] == '\0'
        }),
    decreases s.len(),
{
    let kept = without_trailing_nuls(s);
    if s.len() > 0 && s.last() == '\0' {
        let rest = s.drop_last();
        law_titles_lose_trailing_nuls(rest);
        assert(kept =~= s.take(kept.len() as int));
        assert forall|i: int| kept.len() <= i < s.len() implies #[trigger] s[i] == '\0' by {
            if i < rest.len() {
                assert(rest[i] == '\0');
            }
        }
    } else {
        assert(s =~= s.take(s.len() as int));
    }
}

/// A class property of an instance and a class, each ended by a NUL, has the
/// class as its second part; one of an instance alone has that as its only part.
pub proof fn law_class_properties_hold_instance_and_class(instance: Seq<char>, class: Seq<char>)
    requires
        instance.len() > 0,
        class.len() > 0,
        forall|i: int| 0 <= i < instance.len() ==> #[trigger] instance[i] != '\0',
        forall|i: int| 0 <= i < class.len() ==> #[trigger] class[i] != '\0',
    ensures
        nul_parts(instance + seq!['\0'] + class + seq!['\0'], 0) == seq![instance, class],
        nul_parts(instance + seq!['\0'], 0) == seq![instance],
        nul_parts(instance, 0) == seq![instance],
        nul_parts(Seq::empty(), 0).len() == 0,
{
    let both = instance + seq!['\0'] + class + seq!['\0'];
    let one = instance + seq!['\0'];
    let n = instance.len() as int;
    let m = class.len() as int;
    assert(both[n] == '\0' && both[n + 1 + m] == '\0');
    assert forall|i: int| 0 <= i < n implies #[trigger] both[i] != '\0' by {
        assert(both[i] == instance[i]);
    }
    assert forall|i: int| n + 1 <= i < n + 1 + m implies #[trigger] both[i] != '\0' by {
        assert(both[i] == class[i - n - 1]);
    }
    lemma_nul_end(both, 1, n);
    lemma_nul_end(both, n + 2, n + 1 + m);
    assert(both.subrange(0, n) =~= instance);
    assert(both.subrange(n + 1, n + 1 + m) =~= class);
    assert(nul_parts(both, n + 2 + m) =~= seq![]);
    assert(nul_parts(both, n + 1 + m) == nul_parts(both, n + 2 + m));
    assert(nul_parts(both, n + 1) =~= seq![class]);
    assert(nul_parts(both, n) == nul_parts(both, n + 1));
    assert(nul_parts(both, 0) =~= seq![instance, class]);
    assert(one[n] == '\0');
    assert forall|i: int| 0 <= i < n implies #[trigger] one[i] != '\0' by {
        assert(one[i] == instance[i]);
    }
    lemma_nul_end(one, 1, n);
    assert(one.subrange(0, n) =~= instance);
    assert(nul_parts(one, n + 1) =~= seq![]);
    assert(nul_parts(one, n) == nul_parts(one, n + 1));
    assert(nul_parts(one, 0) =~= seq![instance]);
    lemma_nul_end(instance, 1, n);
    assert(instance.subrange(0, n) =~= instance);
    assert(nul_parts(instance, n) =~= seq![]);
    assert(nul_parts(instance, 0) =~= seq![instance]);
}

/// A rectangle can be asked for exactly when its corner is a signed and its size
/// an unsigned 16-bit number, and then it is asked for as it is.
pub proof fn law_requests_are_sixteen_bits_wide(
    result: Result<GrabRequest, CaptureError>,
    rect: PixelRect,
)
    requires
        is_grab_request(result, rect),
    ensures
        result is Ok <==> -0x8000 <= rect.x <= 0x7fff && -0x8000 <= rect.y <= 0x7fff && rect.width
            <= 0xffff && rect.height <= 0xffff,
        result matches Ok(r) ==> r.x == rect.x && r.y == rect.y && r.width == rect.width
            && r.height == rect.height,
        result matches Err(e) ==> e is InvalidFrame,
{
}

/// A byte of a Latin-1 text is the character of the same number.
pub proof fn law_latin1_bytes_are_their_codes(bytes: Seq<u8>, i: int)
    requires
        0 <= i < bytes.len(),
    ensures
        latin1(bytes).len() == bytes.len(),
        latin1(bytes)[i] as int == bytes[i],
{
}

} // verus!
