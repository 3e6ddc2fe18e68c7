//! What to capture, what a backend can capture, and the resolution step between
//! the two.
//!
//! Resolving a [`CaptureTarget`] against an enumeration result is where every
//! "that monitor is gone", "that window closed" and "that region is off-screen"
//! error is produced.

use crate::error::CaptureError;
use crate::geometry::{PixelRect, Rect};
use crate::monitor::{MonitorId, VirtualDesktop};
use crate::single::ScaleFactor;
use crate::text::joined;
use crate::window::{self, WindowId, WindowInfo};
use vstd::prelude::*;
use vstd::string::*;

verus! {

/// What the caller wants a picture of.
#[derive(Debug, Clone, Copy, PartialEq, Eq, Structural)]
pub enum CaptureTarget {
    /// Every monitor, stitched into a single image spanning the virtual
    /// desktop's bounding box.
    FullDesktop,
    /// One monitor, in full.
    Monitor(MonitorId),
    /// One window's frame, as currently stacked.
    Window(WindowId),
    /// A rectangle.
    ///
    /// * `monitor: None`: `rect` is in **virtual-desktop** coordinates and is
    ///   clipped to the whole desktop.
    /// * `monitor: Some(id)`: `rect` is in that monitor's **local** physical
    ///   coordinates (origin at its top-left) and is clipped to it.
    Region {
        /// The monitor `rect` is relative to, if any.
        monitor: Option<MonitorId>,
        /// The requested rectangle.
        rect: Rect,
    },
}

impl CaptureTarget {
    /// A whole-desktop-relative region.
    pub fn region(rect: Rect) -> (t: CaptureTarget)
        ensures
            t == (CaptureTarget::Region { monitor: None, rect }),
    {
        CaptureTarget::Region { monitor: None, rect }
    }

    /// A region in one monitor's local coordinates.
    pub fn region_on(monitor: MonitorId, rect: Rect) -> (t: CaptureTarget)
        ensures
            t == (CaptureTarget::Region { monitor: Some(monitor), rect }),
    {
        CaptureTarget::Region { monitor: Some(monitor), rect }
    }

    /// What [`CaptureTarget::kind`] gives.
    pub open spec fn kind_text(self) -> Seq<char> {
        match self {
            CaptureTarget::FullDesktop => "full-desktop"@,
            CaptureTarget::Monitor(_) => "monitor"@,
            CaptureTarget::Window(_) => "window"@,
            CaptureTarget::Region { .. } => "region"@,
        }
    }

    /// A short name for logs and error messages.
    pub fn kind(&self) -> (name: &'static str)
        ensures
            name@ == self.kind_text(),
    {
        match self {
            CaptureTarget::FullDesktop => "full-desktop",
            CaptureTarget::Monitor(_) => "monitor",
            CaptureTarget::Window(_) => "window",
            CaptureTarget::Region { .. } => "region",
        }
    }
}

/// Which targets a backend can actually serve.
///
/// A caller uses this to grey out capture modes rather than letting the user
/// pick something that will fail.
#[derive(Debug, Clone, Copy, PartialEq, Eq, Structural)]
pub struct Capabilities {
    /// Can capture the whole virtual desktop.
    pub full_desktop: bool,
    /// Can capture a named monitor.
    pub monitor: bool,
    /// Can capture a named window.
    pub window: bool,
    /// Can capture an arbitrary rectangle.
    pub region: bool,
    /// Enumerating monitors returns real data rather than an error.
    pub monitor_enumeration: bool,
    /// Enumerating windows returns real data rather than an error.
    pub window_enumeration: bool,
    /// Every capture pops a system dialog the user must confirm.
    pub interactive_only: bool,
    /// Capturing may raise a permission prompt, and may fail with
    /// [`CaptureError::PermissionDenied`].
    pub may_prompt_for_permission: bool,
    /// A real cursor bitmap can be had.
    pub cursor: bool,
}

impl Capabilities {
    /// A backend that can do nothing: the starting point for stubs.
    pub fn none() -> (c: Capabilities)
        ensures
            forall|t: CaptureTarget| !c.serves(t),
            !c.monitor_enumeration,
            !c.window_enumeration,
            !c.interactive_only,
            !c.may_prompt_for_permission,
            !c.cursor,
    {
        Capabilities {
            full_desktop: false,
            monitor: false,
            window: false,
            region: false,
            monitor_enumeration: false,
            window_enumeration: false,
            interactive_only: false,
            may_prompt_for_permission: false,
            cursor: false,
        }
    }

    /// A backend with unrestricted direct access to the display server: every
    /// target, no prompts.
    pub fn full() -> (c: Capabilities)
        ensures
            forall|t: CaptureTarget| c.serves(t),
            c.full_desktop && c.monitor && c.window && c.region,
            c.monitor_enumeration,
            c.window_enumeration,
            !c.interactive_only,
            !c.may_prompt_for_permission,
            c.cursor,
    {
        Capabilities {
            full_desktop: true,
            monitor: true,
            window: true,
            region: true,
            monitor_enumeration: true,
            window_enumeration: true,
            interactive_only: false,
            may_prompt_for_permission: false,
            cursor: true,
        }
    }

    /// The backend can serve `target`.
    pub open spec fn serves(self, target: CaptureTarget) -> bool {
        match target {
            CaptureTarget::FullDesktop => self.full_desktop,
            CaptureTarget::Monitor(_) => self.monitor,
            CaptureTarget::Window(_) => self.window,
            CaptureTarget::Region { .. } => self.region,
        }
    }

    /// Can this backend serve `target`?
    pub fn supports(&self, target: &CaptureTarget) -> (yes: bool)
        ensures
            yes == self.serves(*target),
    {
        match target {
            CaptureTarget::FullDesktop => self.full_desktop,
            CaptureTarget::Monitor(_) => self.monitor,
            CaptureTarget::Window(_) => self.window,
            CaptureTarget::Region { .. } => self.region,
        }
    }

    /// [`Capabilities::supports`] as a `Result`, with a message naming the
    /// backend so that the user knows *why* it is refusing.
    pub fn ensure_supports(&self, backend: &str, target: &CaptureTarget) -> (result: Result<
        (),
        CaptureError,
    >)
        ensures
            match result {
                Ok(_) => self.serves(*target),
                Err(e) => !self.serves(*target) && e is Unsupported && e.detail() == "the "@
                    + backend@ + " backend cannot capture a "@ + target.kind_text() + " target"@,
            },
    {
        if self.supports(target) {
            Ok(())
        } else {
            let mut message = joined("the ", backend);
            message.append(" backend cannot capture a ");
            message.append(target.kind());
            message.append(" target");
            Err(CaptureError::Unsupported(message))
        }
    }
}

/// A [`CaptureTarget`] checked against reality: the ids exist, and the rectangle
/// is a non-empty area of the virtual desktop in physical pixels.
#[derive(Debug, Clone, Copy, PartialEq, Eq, Structural)]
pub struct ResolvedTarget {
    /// The target this came from.
    pub target: CaptureTarget,
    /// Area to grab, in virtual-desktop physical pixels.
    pub bounds: Rect,
    /// The monitor whose pixel grid the result belongs to: the target monitor,
    /// the one a window or region mostly sits on, or `None` for a full-desktop
    /// capture spanning several.
    pub monitor: Option<MonitorId>,
    /// Scale factor to stamp on the resulting frame.
    pub scale_factor: ScaleFactor,
}

impl ResolvedTarget {
    /// The area to grab, on the pixel grid.
    pub fn pixel_bounds(&self) -> (result: Result<PixelRect, CaptureError>)
        ensures
            PixelRect::is_from_rect(result, self.bounds),
    {
        PixelRect::from_rect(self.bounds)
    }
}

/// An area of the desktop and the monitor it belongs to.
pub type Area = (Rect, Option<MonitorId>);

/// `owner` is the monitor that `rect` mostly sits on.
pub open spec fn is_home_id(
    owner: Option<MonitorId>,
    ms: Seq<crate::monitor::MonitorInfo>,
    rect: Rect,
) -> bool {
    match owner {
        Some(id) => exists|i: int|
            #[trigger] crate::monitor::is_home(ms, i, rect) && ms[i].id == id,
        None => forall|j: int|
            0 <= j < ms.len() ==> crate::monitor::share(#[trigger] ms[j], rect) <= 0,
    }
}

/// `area` is the part of `rect` on the desktop.
pub open spec fn is_part_on_desktop(
    area: Result<Area, CaptureError>,
    rect: Rect,
    ms: Seq<crate::monitor::MonitorInfo>,
) -> bool {
    exists|extent: Rect| #[trigger]
        crate::monitor::is_extent(extent, ms) && {
            let clipped = rect.in_order().within(extent);
            if clipped.empty() {
                area matches Err(e) && e is EmptyRegion
            } else {
                area matches Ok(a) && a.0 == clipped && is_home_id(a.1, ms, clipped)
            }
        }
}

/// What is said of a minimized window.
pub open spec fn minimized_text(w: WindowInfo) -> Seq<char> {
    "window "@ + w.id.text() + " ("@ + w.label_text()
        + ") is minimized and has no on-screen pixels"@
}

/// `area` is what `target` means on a desktop with monitors `ms` and windows
/// `ws`.
pub open spec fn is_area_of(
    area: Result<Area, CaptureError>,
    target: CaptureTarget,
    ms: Seq<crate::monitor::MonitorInfo>,
    ws: Seq<WindowInfo>,
) -> bool {
    if ms.len() == 0 {
        area matches Err(e) && e is NoDisplay
    } else {
        match target {
            CaptureTarget::FullDesktop => exists|extent: Rect| #[trigger]
                crate::monitor::is_extent(extent, ms) && if extent.empty() {
                    area matches Err(e) && e is EmptyRegion
                } else {
                    area matches Ok(a) && a.0 == extent && a.1 == (if ms.len() == 1 {
                        Some(ms[0].id)
                    } else {
                        None
                    })
                },
            CaptureTarget::Monitor(id) => if crate::monitor::no_monitor(ms, id) {
                area matches Err(e) && e == CaptureError::NoSuchMonitor(id)
            } else {
                exists|i: int| #[trigger]
                    crate::monitor::is_first_with_id(ms, i, id) && if ms[i].bounds.empty() {
                        area matches Err(e) && e is EmptyRegion
                    } else {
                        area matches Ok(a) && a.0 == ms[i].bounds && a.1 == Some(id)
                    }
            },
            CaptureTarget::Window(id) => if crate::window::no_window(ws, id) {
                area matches Err(e) && e == CaptureError::NoSuchWindow(id)
            } else {
                exists|i: int| #[trigger]
                    crate::window::is_first_with_id(ws, i, id) && if ws[i].is_minimized {
                        area matches Err(e) && e is Unsupported && e.detail() == minimized_text(
                            ws[i],
                        )
                    } else if ws[i].bounds.empty() {
                        area matches Err(e) && e is EmptyRegion
                    } else {
                        is_part_on_desktop(area, ws[i].bounds, ms)
                    }
            },
            CaptureTarget::Region { monitor: Some(id), rect } => if crate::monitor::no_monitor(
                ms,
                id,
            ) {
                area matches Err(e) && e == CaptureError::NoSuchMonitor(id)
            } else {
                exists|i: int| #[trigger]
                    crate::monitor::is_first_with_id(ms, i, id) && {
                        let origin = crate::geometry::Vec2D {
                            x: ms[i].bounds.left,
                            y: ms[i].bounds.top,
                        };
                        let clipped = rect.moved(origin).in_order().within(ms[i].bounds);
                        if clipped.empty() {
                            area matches Err(e) && e is EmptyRegion
                        } else {
                            area matches Ok(a) && a.0 == clipped && a.1 == Some(id)
                        }
                    }
            },
            CaptureTarget::Region { monitor: None, rect } => is_part_on_desktop(area, rect, ms),
        }
    }
}

/// The scale of a capture: that of its monitor, or the finest one on the desktop
/// when it belongs to none.
pub open spec fn is_scale_of(
    scale: ScaleFactor,
    monitor: Option<MonitorId>,
    ms: Seq<crate::monitor::MonitorInfo>,
) -> bool {
    match monitor {
        Some(id) => if crate::monitor::no_monitor(ms, id) {
            scale == crate::monitor::finest_grid(ms)
        } else {
            exists|i: int| #[trigger]
                crate::monitor::is_first_with_id(ms, i, id) && scale == ms[i].scale_factor
        },
        None => scale == crate::monitor::finest_grid(ms),
    }
}

/// What resolving `target` gives.
pub open spec fn is_resolved(
    result: Result<ResolvedTarget, CaptureError>,
    target: CaptureTarget,
    ms: Seq<crate::monitor::MonitorInfo>,
    ws: Seq<WindowInfo>,
) -> bool {
    match result {
        Ok(r) => {
            &&& r.target == target
            &&& is_area_of(Ok((r.bounds, r.monitor)), target, ms, ws)
            &&& is_scale_of(r.scale_factor, r.monitor, ms)
        },
        Err(e) => is_area_of(Err(e), target, ms, ws),
    }
}

fn part_on_desktop(rect: Rect, desktop: &VirtualDesktop) -> (area: Result<Area, CaptureError>)
    requires
        desktop@.len() > 0,
    ensures
        is_part_on_desktop(area, rect, desktop@),
        area matches Ok(a) ==> !a.0.empty(),
{
    let extent = desktop.bounds();
    assert(crate::monitor::is_extent(extent, desktop@));
    let clamped = desktop.clamp_region(rect);
    assert(crate::geometry::is_clamped(clamped, rect, extent));
    match clamped {
        Ok(visible) => {
            let owner = match desktop.monitor_for_region(visible) {
                Some(m) => Some(m.id),
                None => None,
            };
            Ok((visible, owner))
        },
        Err(e) => Err(e),
    }
}

fn area_of(target: CaptureTarget, desktop: &VirtualDesktop, windows: &[WindowInfo]) -> (area:
    Result<Area, CaptureError>)
    ensures
        is_area_of(area, target, desktop@, windows@),
        area matches Ok(a) ==> !a.0.empty(),
{
    if desktop.is_empty() {
        return Err(CaptureError::NoDisplay);
    }
    match target {
        CaptureTarget::FullDesktop => {
            let bounds = desktop.bounds();
            if bounds.is_empty() {
                return Err(CaptureError::EmptyRegion);
            }
            // Only claim a single monitor when there literally is only one.

            let single = if desktop.len() == 1 {
                Some(desktop.monitors()[0].id)
            } else {
                None
            };
            Ok((bounds, single))
        },
        CaptureTarget::Monitor(id) => match desktop.require(id) {
            Ok(m) => {
                if m.bounds.is_empty() {
                    Err(CaptureError::EmptyRegion)
                } else {
                    Ok((m.bounds, Some(id)))
                }
            },
            Err(e) => Err(e),
        },
        CaptureTarget::Window(id) => match window::require(windows, id) {
            Ok(w) => {
                if w.is_minimized {
                    let mut message = joined("window ", w.id.describe().as_str());
                    message.append(" (");
                    message.append(w.label());
                    message.append(") is minimized and has no on-screen pixels");
                    return Err(CaptureError::Unsupported(message));
                }
                if w.bounds.is_empty() {
                    return Err(CaptureError::EmptyRegion);
                }
                // A window may hang off the edge of the desktop; capture only
                // the part that exists.

                part_on_desktop(w.bounds, desktop)
            },
            Err(e) => Err(e),
        },
        CaptureTarget::Region { monitor: Some(id), rect } => match desktop.require(id) {
            Ok(m) => match m.clamp_local_region(rect) {
                Ok(r) => Ok((r, Some(id))),
                Err(e) => Err(e),
            },
            Err(e) => Err(e),
        },
        CaptureTarget::Region { monitor: None, rect } => part_on_desktop(rect, desktop),
    }
}

/// Turn a request into concrete pixels on the desktop, or explain why it cannot
/// be served.
///
/// Errors:
/// * [`CaptureError::NoDisplay`]: the desktop has no monitors at all.
/// * [`CaptureError::NoSuchMonitor`] and [`CaptureError::NoSuchWindow`]: the id
///   went stale between enumeration and capture.
/// * [`CaptureError::EmptyRegion`]: the region is degenerate, or misses the
///   monitor or desktop it was clipped against.
/// * [`CaptureError::Unsupported`]: the window is minimized.
pub fn resolve_target(target: CaptureTarget, desktop: &VirtualDesktop, windows: &[WindowInfo]) -> (result:
    Result<ResolvedTarget, CaptureError>)
    ensures
        is_resolved(result, target, desktop@, windows@),
        result matches Ok(r) ==> !r.bounds.empty(),
{
    let (bounds, monitor) = match area_of(target, desktop, windows) {
        Ok(area) => area,
        Err(e) => {
            return Err(e);
        },
    };
    let scale_factor = match monitor {
        Some(id) => match desktop.get(id) {
            Some(m) => m.scale_factor,
            None => desktop.max_scale_factor(),
        },
        None => desktop.max_scale_factor(),
    };
    Ok(ResolvedTarget { target, bounds, monitor, scale_factor })
}

/// A resolved target lies on the desktop: every pixel of it is inside the
/// desktop's extent.
pub proof fn law_resolved_targets_lie_on_the_desktop(
    r: ResolvedTarget,
    target: CaptureTarget,
    ms: Seq<crate::monitor::MonitorInfo>,
    ws: Seq<WindowInfo>,
    extent: Rect,
)
    requires
        is_resolved(Ok(r), target, ms, ws),
        forall|i: int| 0 <= i < ms.len() ==> (#[trigger] ms[i]).wf(),
        crate::monitor::is_extent(extent, ms),
    ensures
        !r.bounds.empty(),
        extent.covers(r.bounds),
{
    let places = crate::monitor::places(ms);
    assert forall|b: Rect| crate::monitor::is_extent(b, ms) implies b == extent by {
        crate::geometry::law_bounding_box_is_unique(b, extent, places, places);
    }
    assert forall|i: int| 0 <= i < ms.len() implies extent.covers((#[trigger] ms[i]).bounds) by {
        assert(ms[i].wf());
        assert(extent.covers(places[i].in_order()));
    }
}

/// Every error of resolution is one of five kinds.
pub proof fn law_resolution_errors(
    e: CaptureError,
    target: CaptureTarget,
    ms: Seq<crate::monitor::MonitorInfo>,
    ws: Seq<WindowInfo>,
)
    requires
        is_resolved(Err(e), target, ms, ws),
    ensures
        e is NoDisplay || e is NoSuchMonitor || e is NoSuchWindow || e is EmptyRegion
            || e is Unsupported,
        e is NoDisplay <==> ms.len() == 0,
        e is Unsupported ==> target is Window,
{
}

/// Each kind of target has a flag of its own.
pub proof fn law_each_target_has_its_flag(
    c: Capabilities,
    monitor: MonitorId,
    window: WindowId,
    on: Option<MonitorId>,
    rect: Rect,
)
    ensures
        c.serves(CaptureTarget::FullDesktop) == c.full_desktop,
        c.serves(CaptureTarget::Monitor(monitor)) == c.monitor,
        c.serves(CaptureTarget::Window(window)) == c.window,
        c.serves(CaptureTarget::Region { monitor: on, rect }) == c.region,
{
}

/// The whole desktop is all of it, and a monitor is all of itself. The desktop
/// belongs to a monitor only if it is the only one.
pub proof fn law_whole_targets_are_whole(
    r: ResolvedTarget,
    ms: Seq<crate::monitor::MonitorInfo>,
    ws: Seq<WindowInfo>,
    extent: Rect,
)
    requires
        is_resolved(Ok(r), r.target, ms, ws),
        crate::monitor::is_extent(extent, ms),
    ensures
        r.target is FullDesktop ==> r.bounds == extent && r.monitor == (if ms.len() == 1 {
            Some(ms[0].id)
        } else {
            None
        }),
        r.target matches CaptureTarget::Monitor(id) ==> r.monitor == Some(id) && exists|i: int|
            0 <= i < ms.len() && (#[trigger] ms[i]).id == id && r.bounds == ms[i].bounds && (
            forall|j: int| 0 <= j < i ==> (#[trigger] ms[j]).id != id),
{
    let places = crate::monitor::places(ms);
    assert forall|b: Rect| crate::monitor::is_extent(b, ms) implies b == extent by {
        if ms.len() > 0 {
            crate::geometry::law_bounding_box_is_unique(b, extent, places, places);
        }
    }
    if let CaptureTarget::Monitor(id) = r.target {
        let i = choose|i: int| #[trigger]
            crate::monitor::is_first_with_id(ms, i, id) && r.bounds == ms[i].bounds;
        assert(ms[i].id == id);
    }
}

/// A region or a window becomes the part of it that is on the desktop: a pixel
/// is in the result exactly when it is in both. A region may name its corners in
/// any order.
pub proof fn law_regions_and_windows_are_cut_to_the_desktop(
    r: ResolvedTarget,
    ms: Seq<crate::monitor::MonitorInfo>,
    ws: Seq<WindowInfo>,
    extent: Rect,
    x: int,
    y: int,
)
    requires
        is_resolved(Ok(r), r.target, ms, ws),
        crate::monitor::is_extent(extent, ms),
    ensures
        ({
            let on_desktop = extent.left <= x < extent.right && extent.top <= y < extent.bottom;
            let inside = r.bounds.left <= x < r.bounds.right && r.bounds.top <= y < r.bounds.bottom;
            &&& r.target matches CaptureTarget::Region { monitor: None, rect } ==> (inside <==> (
            rect.left <= x < rect.right || rect.right <= x < rect.left) && (rect.top <= y
                < rect.bottom || rect.bottom <= y < rect.top) && on_desktop)
            &&& r.target matches CaptureTarget::Window(id) ==> exists|i: int|
                0 <= i < ws.len() && (#[trigger] ws[i]).id == id && !ws[i].is_minimized && (forall|
                    j: int,
                |
                    0 <= j < i ==> (#[trigger] ws[j]).id != id) && (inside <==> ws[i].bounds.left <= x
                    < ws[i].bounds.right && ws[i].bounds.top <= y < ws[i].bounds.bottom
                    && on_desktop)
        }),
{
    let places = crate::monitor::places(ms);
    assert forall|b: Rect| crate::monitor::is_extent(b, ms) implies b == extent by {
        if ms.len() > 0 {
            crate::geometry::law_bounding_box_is_unique(b, extent, places, places);
        }
    }
    if let CaptureTarget::Window(id) = r.target {
        let i = choose|i: int| #[trigger]
            crate::window::is_first_with_id(ws, i, id) && !ws[i].is_minimized
                && !ws[i].bounds.empty() && is_part_on_desktop(
                Ok((r.bounds, r.monitor)),
                ws[i].bounds,
                ms,
            );
        assert(ws[i].id == id);
    }
}

/// A region on a monitor is counted from the monitor's corner and cut to the
/// monitor, and it belongs to that monitor.
pub proof fn law_local_regions_count_from_their_monitor(
    r: ResolvedTarget,
    ms: Seq<crate::monitor::MonitorInfo>,
    ws: Seq<WindowInfo>,
    id: MonitorId,
    rect: Rect,
    i: int,
    x: int,
    y: int,
)
    requires
        r.target == (CaptureTarget::Region { monitor: Some(id), rect }),
        is_resolved(Ok(r), r.target, ms, ws),
        0 <= i < ms.len(),
        ms[i].id == id,
        forall|j: int| 0 <= j < i ==> (#[trigger] ms[j]).id != id,
        rect.left <= rect.right,
        rect.top <= rect.bottom,
        i64::MIN <= rect.left + ms[i].bounds.left,
        rect.right + ms[i].bounds.left <= i64::MAX,
        i64::MIN <= rect.top + ms[i].bounds.top,
        rect.bottom + ms[i].bounds.top <= i64::MAX,
    ensures
        r.monitor == Some(id),
        r.bounds.left <= x < r.bounds.right && r.bounds.top <= y < r.bounds.bottom <==> {
            &&& rect.left <= x - ms[i].bounds.left < rect.right
            &&& rect.top <= y - ms[i].bounds.top < rect.bottom
            &&& ms[i].bounds.left <= x < ms[i].bounds.right
            &&& ms[i].bounds.top <= y < ms[i].bounds.bottom
        },
{
    assert(crate::monitor::is_first_with_id(ms, i, id));
    assert(!crate::monitor::no_monitor(ms, id));
    let k = choose|k: int| #[trigger] crate::monitor::is_first_with_id(ms, k, id) && {
        let origin = crate::geometry::Vec2D { x: ms[k].bounds.left, y: ms[k].bounds.top };
        let clipped = rect.moved(origin).in_order().within(ms[k].bounds);
        !clipped.empty() && r.bounds == clipped
    };
    assert(k == i) by {
        if k < i {
            assert(ms[k].id != id);
        }
        if i < k {
            assert(ms[i].id != id);
        }
    }
}

/// The scale of a capture is that of the monitor it belongs to, and otherwise
/// the finest one there is.
pub proof fn law_captures_take_their_monitors_scale(
    r: ResolvedTarget,
    ms: Seq<crate::monitor::MonitorInfo>,
    ws: Seq<WindowInfo>,
    i: int,
)
    requires
        is_resolved(Ok(r), r.target, ms, ws),
        0 <= i < ms.len(),
    ensures
        r.monitor == Some(ms[i].id) && (forall|j: int|
            0 <= j < i ==> (#[trigger] ms[j]).id != ms[i].id) ==> r.scale_factor
            == ms[i].scale_factor,
        r.monitor is None ==> r.scale_factor == crate::monitor::finest_grid(ms)
            && r.scale_factor.bits >= ms[i].scale_factor.bits,
{
    crate::monitor::law_finest_grid_is_an_upper_bound(ms, i);
    if r.monitor == Some(ms[i].id) && (forall|j: int|
        0 <= j < i ==> (#[trigger] ms[j]).id != ms[i].id) {
        let id = ms[i].id;
        assert(crate::monitor::is_first_with_id(ms, i, id));
        assert(!crate::monitor::no_monitor(ms, id));
        let k = choose|k: int| #[trigger]
            crate::monitor::is_first_with_id(ms, k, id) && r.scale_factor == ms[k].scale_factor;
        assert(k == i) by {
            if k < i {
                assert(ms[k].id != id);
            }
            if i < k {
                assert(ms[i].id != id);
            }
        }
    }
}

/// A window or a region of the desktop belongs to the monitor that has most of
/// it, and to none only where no monitor has any.
pub proof fn law_parts_belong_to_the_monitor_with_most_of_them(
    r: ResolvedTarget,
    ms: Seq<crate::monitor::MonitorInfo>,
    ws: Seq<WindowInfo>,
    j: int,
)
    requires
        is_resolved(Ok(r), r.target, ms, ws),
        r.target is Window || (r.target matches CaptureTarget::Region { monitor: None, .. }),
        0 <= j < ms.len(),
    ensures
        r.monitor matches Some(id) ==> exists|i: int|
            0 <= i < ms.len() && (#[trigger] ms[i]).id == id && 0 < crate::monitor::share(
                ms[i],
                r.bounds,
            ) && crate::monitor::share(ms[j], r.bounds) <= crate::monitor::share(ms[i], r.bounds),
        r.monitor is None ==> crate::monitor::share(ms[j], r.bounds) <= 0,
{
    assert(is_home_id(r.monitor, ms, r.bounds));
    if let Some(id) = r.monitor {
        let i = choose|i: int|
            #[trigger] crate::monitor::is_home(ms, i, r.bounds) && ms[i].id == id;
        crate::monitor::law_the_monitor_of_a_region(ms, i, j, r.bounds);
        assert(ms[i].id == id);
    }
}

} // verus!
