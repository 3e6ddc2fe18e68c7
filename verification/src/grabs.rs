//! Systems that grab one monitor, or one window, at a time: what to grab for a
//! target, and how the grabs become its frame.
//!
//! There is no grab of the whole virtual desktop on such a system. Full-desktop
//! and cross-monitor captures are assembled from one grab of each monitor that
//! they touch, which also fills the gaps of a non-rectangular layout with
//! transparency.

use crate::error::CaptureError;
use crate::frame::{stitch, RawFrame};
use crate::geometry::Vec2D;
use crate::macos::monitors_covering;
use crate::monitor::{MonitorId, MonitorInfo, VirtualDesktop};
use crate::single::ScaleFactor;
use crate::target::{resolve_target, CaptureTarget, ResolvedTarget};
use crate::window::{require, WindowId, WindowInfo};
use vstd::prelude::*;

verus! {

/// What to grab for a target.
#[derive(Debug)]
pub enum GrabPlan {
    /// The window itself, which can show what is covered on the desktop. The
    /// frame belongs where the whole window is, even where that hangs off the
    /// desktop.
    Window {
        /// The window.
        id: WindowId,
        /// Where its frame belongs.
        origin: Vec2D,
        /// The scale of its frame.
        scale_factor: ScaleFactor,
    },
    /// One monitor, in full.
    Monitor {
        /// The monitor.
        id: MonitorId,
        /// Where its frame belongs.
        origin: Vec2D,
        /// The scale of its frame.
        scale_factor: ScaleFactor,
    },
    /// Every monitor that the target touches.
    Covering {
        /// The monitors, in the order in which their frames are drawn.
        monitors: Vec<MonitorId>,
        /// What is cut out of them.
        resolved: ResolvedTarget,
    },
}

/// What is grabbed for a target that resolved to `r`.
pub open spec fn is_plan_for(
    plan: Result<GrabPlan, CaptureError>,
    r: ResolvedTarget,
    ms: Seq<MonitorInfo>,
    ws: Seq<WindowInfo>,
) -> bool {
    match r.target {
        CaptureTarget::Window(id) => exists|i: int| #[trigger]
            crate::window::is_first_with_id(ws, i, id) && plan == Ok::<GrabPlan, CaptureError>(
                GrabPlan::Window {
                    id,
                    origin: Vec2D { x: ws[i].bounds.left, y: ws[i].bounds.top },
                    scale_factor: r.scale_factor,
                },
            ),
        CaptureTarget::Monitor(id) => exists|i: int| #[trigger]
            crate::monitor::is_first_with_id(ms, i, id) && plan == Ok::<GrabPlan, CaptureError>(
                GrabPlan::Monitor {
                    id,
                    origin: Vec2D { x: ms[i].bounds.left, y: ms[i].bounds.top },
                    scale_factor: ms[i].scale_factor,
                },
            ),
        _ => if crate::macos::covering(ms, r.bounds).len() == 0 {
            plan matches Err(e) && e is EmptyRegion
        } else {
            &&& plan matches Ok(GrabPlan::Covering { monitors, resolved })
            &&& monitors@ == crate::macos::covering(ms, r.bounds)
            &&& resolved == r
        },
    }
}

/// What is grabbed for `target` on a desktop with monitors `ms` and windows
/// `ws`.
pub open spec fn is_grab_plan(
    plan: Result<GrabPlan, CaptureError>,
    target: CaptureTarget,
    ms: Seq<MonitorInfo>,
    ws: Seq<WindowInfo>,
) -> bool {
    exists|resolved: Result<ResolvedTarget, CaptureError>| #[trigger]
        crate::target::is_resolved(resolved, target, ms, ws) && match resolved {
            Ok(r) => is_plan_for(plan, r, ms, ws),
            Err(e) => plan == Err::<GrabPlan, CaptureError>(e),
        }
}

/// What to grab for a target.
pub fn plan_grabs(target: CaptureTarget, desktop: &VirtualDesktop, windows: &[WindowInfo]) -> (plan:
    Result<GrabPlan, CaptureError>)
    ensures
        is_grab_plan(plan, target, desktop@, windows@),
{
    let resolution = resolve_target(target, desktop, windows);
    assert(crate::target::is_resolved(resolution, target, desktop@, windows@));
    let resolved = match resolution {
        Ok(r) => r,
        Err(e) => {
            return Err(e);
        },
    };
    match target {
        CaptureTarget::Window(id) => match require(windows, id) {
            Ok(w) => Ok(
                GrabPlan::Window {
                    id,
                    origin: w.bounds.pos(),
                    scale_factor: resolved.scale_factor,
                },
            ),
            Err(e) => Err(e),
        },
        CaptureTarget::Monitor(id) => match desktop.require(id) {
            Ok(m) => Ok(
                GrabPlan::Monitor { id, origin: m.origin(), scale_factor: m.scale_factor },
            ),
            Err(e) => Err(e),
        },
        _ => {
            let monitors = monitors_covering(desktop, resolved.bounds);
            if monitors.len() == 0 {
                return Err(CaptureError::EmptyRegion);
            }
            Ok(GrabPlan::Covering { monitors, resolved })
        },
    }
}

/// What cutting a resolved target out of a grab that covers it gives: the grab
/// itself when it is exactly the target, else the part of it, at the target's
/// scale.
pub open spec fn is_fitted(
    result: Result<RawFrame, CaptureError>,
    covering: RawFrame,
    resolved: ResolvedTarget,
) -> bool {
    if covering.area() == resolved.bounds {
        result == Ok::<RawFrame, CaptureError>(covering)
    } else {
        exists|cropped: Result<RawFrame, CaptureError>| #[trigger]
            crate::frame::is_cropped(cropped, covering, resolved.bounds) && match cropped {
                Ok(c) => result matches Ok(f) && f.width == c.width && f.height == c.height
                    && f.origin == c.origin && f.data == c.data && f.scale_factor
                    == resolved.scale_factor,
                Err(e) => result == Err::<RawFrame, CaptureError>(e),
            }
    }
}

/// Cut a resolved target out of a grab of the monitors that it touches.
pub fn fit_to_target(covering: RawFrame, resolved: &ResolvedTarget) -> (result: Result<
    RawFrame,
    CaptureError,
>)
    requires
        covering.wf(),
    ensures
        is_fitted(result, covering, *resolved),
{
    let bounds = covering.bounds();
    if bounds == resolved.bounds {
        return Ok(covering);
    }
    let cropped = covering.crop(resolved.bounds);
    assert(crate::frame::is_cropped(cropped, covering, resolved.bounds));
    match cropped {
        Ok(c) => Ok(
            RawFrame {
                width: c.width,
                height: c.height,
                data: c.data,
                origin: c.origin,
                scale_factor: resolved.scale_factor,
            },
        ),
        Err(e) => Err(e),
    }
}

/// What the grabs of the monitors that a target touches come to.
pub open spec fn is_assembled(
    result: Result<RawFrame, CaptureError>,
    frames: Seq<RawFrame>,
    resolved: ResolvedTarget,
) -> bool {
    exists|stitched: Result<RawFrame, CaptureError>| #[trigger]
        crate::frame::is_stitched(stitched, frames) && match stitched {
            Ok(covering) => is_fitted(result, covering, resolved),
            Err(e) => result == Err::<RawFrame, CaptureError>(e),
        }
}

/// Put the grabs of the monitors that a target touches together, and cut the
/// target out of them.
pub fn assemble(frames: &[RawFrame], resolved: &ResolvedTarget) -> (result: Result<
    RawFrame,
    CaptureError,
>)
    requires
        forall|k: int|
            0 <= k < frames@.len() ==> (#[trigger] frames@[k]).wf() && (frames@[k].blank()
                || frames@[k].placed()),
    ensures
        is_assembled(result, frames@, *resolved),
{
    let stitched = stitch(frames);
    assert(crate::frame::is_stitched(stitched, frames@));
    match stitched {
        Ok(covering) => fit_to_target(covering, resolved),
        Err(e) => Err(e),
    }
}

/// An assembled capture shows at each of its places what the grabs show there
/// together.
pub proof fn law_an_assembled_capture_shows_the_grabs(
    result: Result<RawFrame, CaptureError>,
    frames: Seq<RawFrame>,
    resolved: ResolvedTarget,
    x: int,
    y: int,
)
    requires
        crate::frame::drawn(frames).len() > 0,
        is_assembled(result, frames, resolved),
        result matches Ok(f) && f.shows(x, y),
    ensures
        result->Ok_0.seen_at(x, y) == crate::frame::composed(frames, x, y),
{
    let f = result->Ok_0;
    let stitched = choose|stitched: Result<RawFrame, CaptureError>|
        #[trigger] crate::frame::is_stitched(stitched, frames) && match stitched {
            Ok(covering) => is_fitted(result, covering, resolved),
            Err(e) => result == Err::<RawFrame, CaptureError>(e),
        };
    let covering = stitched->Ok_0;
    if covering.area() != resolved.bounds {
        let cropped = choose|cropped: Result<RawFrame, CaptureError>|
            #[trigger] crate::frame::is_cropped(cropped, covering, resolved.bounds)
                && match cropped {
                Ok(c) => result matches Ok(f) && f.width == c.width && f.height == c.height
                    && f.origin == c.origin && f.data == c.data && f.scale_factor
                    == resolved.scale_factor,
                Err(e) => result == Err::<RawFrame, CaptureError>(e),
            };
        let c = cropped->Ok_0;
        assert(f.seen_at(x, y) == c.seen_at(x, y));
        let clipped = resolved.bounds.in_order().within(covering.area());
        let r = crate::frame::grid_rect(clipped);
        assert(r.owns(x, y));
        assert(covering.shows(x, y));
        assert(c.seen_at(x, y) == covering.seen_at(x, y));
    }
}

/// A window is grabbed by itself and belongs at its own corner; a monitor is
/// grabbed in full, belongs at its own corner and keeps its own scale; anything
/// else is put together from the monitors that it touches.
pub proof fn law_what_is_grabbed(
    plan: GrabPlan,
    target: CaptureTarget,
    ms: Seq<MonitorInfo>,
    ws: Seq<WindowInfo>,
)
    requires
        is_grab_plan(Ok(plan), target, ms, ws),
    ensures
        target matches CaptureTarget::Window(id) ==> exists|i: int|
            0 <= i < ws.len() && (#[trigger] ws[i]).id == id && (forall|j: int|
                0 <= j < i ==> (#[trigger] ws[j]).id != id) && (plan matches GrabPlan::Window {
                id: grabbed,
                origin,
                ..
            } && grabbed == id && origin.x == ws[i].bounds.left && origin.y == ws[i].bounds.top),
        target matches CaptureTarget::Monitor(id) ==> exists|i: int|
            0 <= i < ms.len() && (#[trigger] ms[i]).id == id && (forall|j: int|
                0 <= j < i ==> (#[trigger] ms[j]).id != id) && (plan matches GrabPlan::Monitor {
                id: grabbed,
                origin,
                scale_factor,
            } && grabbed == id && origin.x == ms[i].bounds.left && origin.y == ms[i].bounds.top
                && scale_factor == ms[i].scale_factor),
        target is FullDesktop || target is Region ==> (plan matches GrabPlan::Covering {
            monitors,
            resolved,
        } && monitors@.len() > 0 && resolved.target == target),
{
    let resolved = choose|resolved: Result<ResolvedTarget, CaptureError>|
        #[trigger] crate::target::is_resolved(resolved, target, ms, ws) && match resolved {
            Ok(r) => is_plan_for(Ok(plan), r, ms, ws),
            Err(e) => Ok::<GrabPlan, CaptureError>(plan) == Err::<GrabPlan, CaptureError>(e),
        };
    let r = resolved->Ok_0;
    if let CaptureTarget::Window(id) = target {
        let i = choose|i: int| #[trigger]
            crate::window::is_first_with_id(ws, i, id) && Ok::<GrabPlan, CaptureError>(plan)
                == Ok::<GrabPlan, CaptureError>(
                GrabPlan::Window {
                    id,
                    origin: Vec2D { x: ws[i].bounds.left, y: ws[i].bounds.top },
                    scale_factor: r.scale_factor,
                },
            );
        assert(ws[i].id == id);
    }
    if let CaptureTarget::Monitor(id) = target {
        let i = choose|i: int| #[trigger]
            crate::monitor::is_first_with_id(ms, i, id) && Ok::<GrabPlan, CaptureError>(plan)
                == Ok::<GrabPlan, CaptureError>(
                GrabPlan::Monitor {
                    id,
                    origin: Vec2D { x: ms[i].bounds.left, y: ms[i].bounds.top },
                    scale_factor: ms[i].scale_factor,
                },
            );
        assert(ms[i].id == id);
    }
}

/// Cutting a target out of a grab copies bytes: every byte of the result is the
/// byte that the grab has for the same pixel of the desktop, and the result
/// covers what the target and the grab share.
pub proof fn law_fitting_copies_bytes(
    covering: RawFrame,
    resolved: ResolvedTarget,
    result: Result<RawFrame, CaptureError>,
    x: int,
    y: int,
    c: int,
)
    requires
        covering.wf(),
        covering.placed(),
        covering.measurable(),
        resolved.bounds.left <= resolved.bounds.right,
        resolved.bounds.top <= resolved.bounds.bottom,
        is_fitted(result, covering, resolved),
        0 <= c < 4,
    ensures
        ({
            let shared = resolved.bounds.left <= x < resolved.bounds.right && resolved.bounds.top
                <= y < resolved.bounds.bottom && covering.origin.x <= x < covering.origin.x
                + covering.width && covering.origin.y <= y < covering.origin.y + covering.height;
            &&& shared ==> result is Ok
            &&& result matches Ok(f) ==> {
                &&& shared <==> f.origin.x <= x < f.origin.x + f.width && f.origin.y <= y
                    < f.origin.y + f.height
                &&& shared ==> f.data@[4 * ((y - f.origin.y) * f.width + (x - f.origin.x)) + c]
                    == covering.data@[4 * ((y - covering.origin.y) * covering.width + (x
                    - covering.origin.x)) + c]
            }
        }),
{
    if covering.area() != resolved.bounds {
        let cropped = choose|cropped: Result<RawFrame, CaptureError>|
            #[trigger] crate::frame::is_cropped(cropped, covering, resolved.bounds)
                && match cropped {
                Ok(c) => result matches Ok(f) && f.width == c.width && f.height == c.height
                    && f.origin == c.origin && f.data == c.data && f.scale_factor
                    == resolved.scale_factor,
                Err(e) => result == Err::<RawFrame, CaptureError>(e),
            };
        crate::frame::law_cropping_keeps_what_is_shared(covering, resolved.bounds, cropped, x, y);
        if let Ok(cut) = cropped {
            let i = x - cut.origin.x;
            let j = y - cut.origin.y;
            if 0 <= i < cut.width && 0 <= j < cut.height {
                crate::frame::law_cropping_copies_bytes(
                    covering,
                    resolved.bounds,
                    cropped,
                    i,
                    j,
                    c,
                );
            }
        }
    }
}

/// A part that was cut out carries the target's scale; a grab that is the target
/// already keeps its own.
pub proof fn law_parts_carry_the_targets_scale(
    covering: RawFrame,
    resolved: ResolvedTarget,
    result: Result<RawFrame, CaptureError>,
)
    requires
        is_fitted(result, covering, resolved),
        result is Ok,
    ensures
        covering.area() == resolved.bounds ==> result->Ok_0 == covering,
        covering.area() != resolved.bounds ==> result->Ok_0.scale_factor == resolved.scale_factor,
{
}

} // verus!
