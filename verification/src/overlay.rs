//! The region-selection overlay.
//!
//! Selection runs against a **frozen frame**: the screen is captured first and
//! the overlay draws that image, so the overlay can never appear in its own
//! screenshot and nothing moves under the pointer mid-drag.
//!
//! What is selected right now is decided by [`RegionSelection`]; [`Overlay`]
//! adds the frame and what the user did with it. Drawing is left to the caller,
//! which hands over pointer positions in pixels of the frame.

use crate::capture::CaptureMode;
use crate::geometry::{Rect, Vec2D};
use crate::picture::{crop_image, RgbaImage};
use crate::text::{decimal, joined};
use crate::window::WindowInfo;
use vstd::prelude::*;
use vstd::string::*;

verus! {

/// Smallest selection worth keeping; below this a drag is treated as a click.
pub const MIN_SELECTION: i128 = 4;

/// What the user did with the overlay.
#[derive(Debug, Clone, Copy, PartialEq, Eq, Structural)]
pub enum Selection {
    /// Still choosing.
    Pending,
    /// Confirmed this region, in pixels of the frame.
    Confirmed(Rect),
    /// Backed out; nothing is to be annotated.
    Cancelled,
}

/// The point lies in the rectangle or on one of its edges.
pub open spec fn touches(r: Rect, point: Vec2D) -> bool {
    r.left <= point.x <= r.right && r.top <= point.y <= r.bottom
}

/// The first rectangle that a point touches.
pub open spec fn first_at(rects: Seq<Rect>, point: Vec2D) -> Option<Rect>
    decreases rects.len(),
{
    if rects.len() == 0 {
        None
    } else if touches(rects[0], point) {
        Some(rects[0])
    } else {
        first_at(rects.subrange(1, rects.len() as int), point)
    }
}

/// The smallest rectangle that a point touches; the first of them where several
/// are as small.
pub open spec fn smallest_at(rects: Seq<Rect>, point: Vec2D) -> Option<Rect>
    decreases rects.len(),
{
    if rects.len() == 0 {
        None
    } else {
        let before = smallest_at(rects.drop_last(), point);
        if !touches(rects.last(), point) {
            before
        } else {
            match before {
                Some(best) if best.pixels() <= rects.last().pixels() => before,
                _ => Some(rects.last()),
            }
        }
    }
}

/// The rectangle is large enough to have been dragged out on purpose.
pub open spec fn deliberate(r: Rect) -> bool {
    r.right - r.left >= MIN_SELECTION && r.bottom - r.top >= MIN_SELECTION
}

fn is_deliberate(r: Rect) -> (yes: bool)
    ensures
        yes == deliberate(r),
{
    r.width() >= MIN_SELECTION && r.height() >= MIN_SELECTION
}

fn is_touched(r: Rect, point: Vec2D) -> (yes: bool)
    ensures
        yes == touches(r, point),
{
    r.left <= point.x && point.x <= r.right && r.top <= point.y && point.y <= r.bottom
}

/// The selection state machine.
#[derive(Debug)]
pub struct RegionSelection {
    /// The whole frozen frame.
    pub bounds: Rect,
    /// Candidate window rectangles, in frame coordinates, topmost first.
    pub windows: Vec<Rect>,
    /// Monitor rectangles, in frame coordinates.
    pub monitors: Vec<Rect>,
    /// What a click selects.
    pub mode: CaptureMode,
    /// Whether windows are hinted at before a drag.
    pub snap: bool,
    /// The start and the latest point of the drag in progress.
    pub drag: Option<(Vec2D, Vec2D)>,
    /// Where the pointer is, if it is over the frame.
    pub hover: Option<Vec2D>,
}

impl RegionSelection {
    /// Nothing but the state of the gesture differs.
    pub open spec fn same_scene(self, other: RegionSelection) -> bool {
        &&& self.bounds == other.bounds
        &&& self.windows == other.windows
        &&& self.monitors == other.monitors
        &&& self.snap == other.snap
    }

    /// What a click selects in the current mode, ignoring drags. Region mode
    /// takes the window under the pointer, which is how "click a window to grab
    /// it" works.
    pub open spec fn clicked(self, at: Vec2D) -> Option<Rect> {
        match self.mode {
            CaptureMode::Monitor => first_at(self.monitors@, at),
            _ => smallest_at(self.windows@, at),
        }
    }

    /// What a click selects, clipped to the frame.
    pub open spec fn clicked_inside(self, at: Vec2D) -> Option<Rect> {
        match self.clicked(at) {
            Some(r) => Some(r.within(self.bounds)),
            None => None,
        }
    }

    /// The rectangle dragged out between two points, clipped to the frame.
    pub open spec fn dragged(self, start: Vec2D, to: Vec2D) -> Rect {
        (Rect { left: start.x, top: start.y, right: to.x, bottom: to.y }).in_order().within(
            self.bounds,
        )
    }

    /// What releasing at `at` selects. A drag that is too small is a click.
    pub open spec fn released(self, at: Vec2D) -> Option<Rect> {
        match self.drag {
            None => None,
            Some((start, _)) => if deliberate(self.dragged(start, at)) {
                Some(self.dragged(start, at))
            } else {
                self.clicked_inside(at)
            },
        }
    }

    /// What would be captured if the user released right now.
    pub open spec fn preview(self) -> Option<Rect> {
        if self.drag matches Some((start, to)) && deliberate(self.dragged(start, to)) {
            Some(self.dragged(self.drag->Some_0.0, self.drag->Some_0.1))
        } else if self.mode == CaptureMode::Window || self.mode == CaptureMode::Monitor || (
        self.snap && self.drag is None) {
            match self.hover {
                Some(pos) => self.clicked_inside(pos),
                None => None,
            }
        } else {
            None
        }
    }

    /// The mode after asking for `mode`, and the drag that survives it.
    pub open spec fn switched(self, mode: CaptureMode) -> (CaptureMode, Option<(Vec2D, Vec2D)>) {
        if self.mode == mode {
            (self.mode, self.drag)
        } else {
            (mode, None)
        }
    }

    /// A selection on a frame, with nothing dragged or hovered yet.
    pub fn new(
        bounds: Rect,
        windows: Vec<Rect>,
        monitors: Vec<Rect>,
        mode: CaptureMode,
        snap: bool,
    ) -> (s: RegionSelection)
        ensures
            s == (RegionSelection {
                bounds,
                windows,
                monitors,
                mode,
                snap,
                drag: None,
                hover: None,
            }),
    {
        RegionSelection { bounds, windows, monitors, mode, snap, drag: None, hover: None }
    }

    /// The whole frozen frame.
    pub fn bounds(&self) -> (r: Rect)
        ensures
            r == self.bounds,
    {
        self.bounds
    }

    /// Is a drag in progress?
    pub fn is_dragging(&self) -> (yes: bool)
        ensures
            yes == (self.drag is Some),
    {
        self.drag.is_some()
    }

    /// What a click selects.
    pub fn mode(&self) -> (mode: CaptureMode)
        ensures
            mode == self.mode,
    {
        self.mode
    }

    /// Switch what a click selects, mid-selection.
    ///
    /// Abandons any drag in progress: the gesture was started with a different
    /// intent, and carrying it across would let a half-dragged rectangle survive
    /// into a mode where dragging is not what the user is doing. Asking for the
    /// current mode changes nothing.
    pub fn set_mode(&mut self, mode: CaptureMode)
        ensures
            final(self).same_scene(*old(self)),
            final(self).hover == old(self).hover,
            (final(self).mode, final(self).drag) == old(self).switched(mode),
    {
        if self.mode != mode {
            self.mode = mode;
            self.drag = None;
        }
    }

    /// The monitor under `point`.
    pub fn monitor_at(&self, point: Vec2D) -> (found: Option<Rect>)
        ensures
            found == first_at(self.monitors@, point),
    {
        let ghost all = self.monitors@;
        assert(all.subrange(0, all.len() as int) =~= all);
        let mut i: usize = 0;
        while i < self.monitors.len()
            invariant
                i <= all.len(),
                all == self.monitors@,
                first_at(all, point) == first_at(all.subrange(i as int, all.len() as int), point),
            decreases all.len() - i,
        {
            let ghost rest = all.subrange(i as int, all.len() as int);
            assert(rest[0] == all[i as int]);
            assert(rest.subrange(1, rest.len() as int) =~= all.subrange(i + 1, all.len() as int));
            if is_touched(self.monitors[i], point) {
                return Some(self.monitors[i]);
            }
            i = i + 1;
        }
        None
    }

    /// The window under `point`.
    ///
    /// Windows arrive topmost first. Where several are hit the smallest wins, so
    /// that a small dialog inside a large parent can be selected.
    pub fn window_at(&self, point: Vec2D) -> (found: Option<Rect>)
        ensures
            found == smallest_at(self.windows@, point),
    {
        let ghost all = self.windows@;
        let mut best: Option<Rect> = None;
        let mut i: usize = 0;
        while i < self.windows.len()
            invariant
                i <= all.len(),
                all == self.windows@,
                best == smallest_at(all.take(i as int), point),
            decreases all.len() - i,
        {
            let window = self.windows[i];
            assert(all.take(i + 1).drop_last() =~= all.take(i as int));
            assert(all.take(i + 1).last() == window);
            if is_touched(window, point) {
                best = match best {
                    None => Some(window),
                    Some(current) => {
                        if window.area() < current.area() {
                            Some(window)
                        } else {
                            Some(current)
                        }
                    },
                };
            }
            i = i + 1;
        }
        assert(all.take(i as int) =~= all);
        best
    }

    fn click_target(&self, at: Vec2D) -> (found: Option<Rect>)
        ensures
            found == self.clicked_inside(at),
    {
        let target = match self.mode {
            CaptureMode::Monitor => self.monitor_at(at),
            _ => self.window_at(at),
        };
        match target {
            Some(r) => Some(r.clamped_to(self.bounds)),
            None => None,
        }
    }

    /// Where the pointer is, if it is over the frame.
    pub fn hover(&self) -> (pos: Option<Vec2D>)
        ensures
            pos == self.hover,
    {
        self.hover
    }

    /// Record where the pointer is.
    pub fn set_hover(&mut self, pos: Option<Vec2D>)
        ensures
            final(self).same_scene(*old(self)),
            final(self).mode == old(self).mode,
            final(self).drag == old(self).drag,
            final(self).hover == pos,
    {
        self.hover = pos;
    }

    /// Start a drag.
    pub fn begin_drag(&mut self, at: Vec2D)
        ensures
            final(self).same_scene(*old(self)),
            final(self).mode == old(self).mode,
            final(self).hover == old(self).hover,
            final(self).drag == Some((at, at)),
    {
        self.drag = Some((at, at));
    }

    /// Follow a drag, if there is one.
    pub fn update_drag(&mut self, to: Vec2D)
        ensures
            final(self).same_scene(*old(self)),
            final(self).mode == old(self).mode,
            final(self).hover == old(self).hover,
            final(self).drag == (match old(self).drag {
                Some((start, _)) => Some((start, to)),
                None => None,
            }),
    {
        match self.drag {
            Some((start, _)) => {
                self.drag = Some((start, to));
            },
            None => {},
        }
    }

    /// Finish the gesture. Gives the selection, or `None` if the drag was too
    /// small and there was nothing to fall back to.
    pub fn end_drag(&mut self, at: Vec2D) -> (selected: Option<Rect>)
        ensures
            final(self).same_scene(*old(self)),
            final(self).mode == old(self).mode,
            final(self).hover == old(self).hover,
            final(self).drag is None,
            selected == old(self).released(at),
    {
        let start = match self.drag {
            Some((start, _)) => start,
            None => {
                return None;
            },
        };
        self.drag = None;
        let dragged = Rect::from_corners(start, at).clamped_to(self.bounds);
        if is_deliberate(dragged) {
            return Some(dragged);
        }
        self.click_target(at)
    }

    /// What would be captured if the user released right now.
    ///
    /// Window and monitor modes always preview what is under the pointer; region
    /// mode only does so when snapping is enabled and nothing is being dragged.
    pub fn current(&self) -> (rect: Option<Rect>)
        ensures
            rect == self.preview(),
    {
        match self.drag {
            Some((start, to)) => {
                let rect = Rect::from_corners(start, to).clamped_to(self.bounds);
                if is_deliberate(rect) {
                    return Some(rect);
                }
            },
            None => {},
        }
        let always_hints = match self.mode {
            CaptureMode::Window | CaptureMode::Monitor => true,
            _ => false,
        };
        if always_hints || (self.snap && self.drag.is_none()) {
            match self.hover {
                Some(pos) => {
                    return self.click_target(pos);
                },
                None => {},
            }
        }
        None
    }
}

/// The window that a click picks is one of those under the pointer, none of
/// them is smaller, and those before it are all larger.
pub proof fn law_the_smallest_window_wins(windows: Seq<Rect>, point: Vec2D)
    ensures
        match smallest_at(windows, point) {
            Some(w) => exists|i: int|
                0 <= i < windows.len() && #[trigger] windows[i] == w && touches(w, point) && (
                forall|j: int|
                    0 <= j < windows.len() && touches(#[trigger] windows[j], point) ==> w.pixels()
                        <= windows[j].pixels()) && (forall|j: int|
                    0 <= j < i && touches(#[trigger] windows[j], point) ==> w.pixels()
                        < windows[j].pixels()),
            None => forall|j: int|
                0 <= j < windows.len() ==> !touches(#[trigger] windows[j], point),
        },
    decreases windows.len(),
{
    if windows.len() > 0 {
        let rest = windows.drop_last();
        law_the_smallest_window_wins(rest, point);
        let last = windows.len() - 1;
        assert forall|j: int| 0 <= j < windows.len() implies windows[j] == (if j < last {
            rest[j]
        } else {
            windows.last()
        }) by {}
        match smallest_at(windows, point) {
            Some(w) => {
                let before = smallest_at(rest, point);
                if before == Some(w) && !(touches(windows.last(), point) && before is None) {
                    let i = choose|i: int|
                        0 <= i < rest.len() && #[trigger] rest[i] == w && touches(w, point) && (
                        forall|j: int|
                            0 <= j < rest.len() && touches(#[trigger] rest[j], point) ==> w.pixels()
                                <= rest[j].pixels()) && (forall|j: int|
                            0 <= j < i && touches(#[trigger] rest[j], point) ==> w.pixels()
                                < rest[j].pixels());
                    assert(windows[i] == w);
                    assert forall|j: int|
                        0 <= j < windows.len() && touches(
                            #[trigger] windows[j],
                            point,
                        ) implies w.pixels() <= windows[j].pixels() by {
                        if j < last {
                            assert(touches(rest[j], point));
                        }
                    }
                    assert forall|j: int|
                        0 <= j < i && touches(#[trigger] windows[j], point) implies w.pixels()
                        < windows[j].pixels() by {
                        assert(touches(rest[j], point));
                    }
                } else {
                    assert(windows[last] == w);
                    assert forall|j: int|
                        0 <= j < last && touches(#[trigger] windows[j], point) implies w.pixels()
                        < windows[j].pixels() by {
                        assert(touches(rest[j], point));
                    }
                }
            },
            None => {
                assert forall|j: int| 0 <= j < windows.len() implies !touches(
                    #[trigger] windows[j],
                    point,
                ) by {
                    if j < last {
                        assert(!touches(rest[j], point));
                    }
                }
            },
        }
    }
}

/// Whatever a gesture selects lies on the frame, as far as it has pixels.
pub proof fn law_selections_lie_on_the_frame(s: RegionSelection, at: Vec2D)
    requires
        s.bounds.ordered(),
    ensures
        s.released(at) matches Some(r) ==> r.empty() || s.bounds.covers(r),
        s.preview() matches Some(r) ==> r.empty() || s.bounds.covers(r),
{
}

/// A rectangle dragged out on purpose is selected in every mode, whatever lies
/// under the pointer.
pub proof fn law_a_deliberate_drag_wins_in_every_mode(
    s: RegionSelection,
    t: RegionSelection,
    at: Vec2D,
)
    requires
        s.drag == t.drag,
        s.bounds == t.bounds,
        s.drag matches Some((start, _)) && deliberate(s.dragged(start, at)),
    ensures
        s.released(at) == t.released(at),
        s.released(at) == Some(s.dragged(s.drag->Some_0.0, at)),
{
}

/// While a drag is large enough, the preview is what releasing there selects.
pub proof fn law_the_preview_is_what_releasing_selects(s: RegionSelection)
    requires
        s.drag matches Some((start, to)) && deliberate(s.dragged(start, to)),
    ensures
        s.preview() == s.released(s.drag->Some_0.1),
{
}

/// A rectangle seen from `origin`.
pub open spec fn rebased(r: Rect, origin: Vec2D) -> Rect {
    Rect {
        left: crate::geometry::clip_i64(r.left - origin.x) as i64,
        top: crate::geometry::clip_i64(r.top - origin.y) as i64,
        right: crate::geometry::clip_i64(r.right - origin.x) as i64,
        bottom: crate::geometry::clip_i64(r.bottom - origin.y) as i64,
    }
}

fn rebase(r: Rect, origin: Vec2D) -> (seen: Rect)
    ensures
        seen == rebased(r, origin),
{
    let near = Vec2D::new(r.left, r.top).minus(origin);
    let far = Vec2D::new(r.right, r.bottom).minus(origin);
    Rect { left: near.x, top: near.y, right: far.x, bottom: far.y }
}

/// Two rectangles overlap; sharing an edge is not enough.
pub open spec fn overlapping(a: Rect, b: Rect) -> bool {
    a.left < b.right && b.left < a.right && a.top < b.bottom && b.top < a.bottom
}

fn overlaps(a: Rect, b: Rect) -> (yes: bool)
    ensures
        yes == overlapping(a, b),
{
    a.left < b.right && b.left < a.right && a.top < b.bottom && b.top < a.bottom
}

/// The rectangles that overlap the frame, seen from its origin.
pub open spec fn on_frame(rects: Seq<Rect>, origin: Vec2D, bounds: Rect) -> Seq<Rect>
    decreases rects.len(),
{
    if rects.len() == 0 {
        seq![]
    } else {
        let before = on_frame(rects.drop_last(), origin, bounds);
        let r = rebased(rects.last(), origin);
        if overlapping(r, bounds) {
            before.push(r)
        } else {
            before
        }
    }
}

/// The places of the windows that are not minimised.
pub open spec fn open_windows(windows: Seq<WindowInfo>) -> Seq<Rect>
    decreases windows.len(),
{
    if windows.len() == 0 {
        seq![]
    } else {
        let before = open_windows(windows.drop_last());
        if windows.last().is_minimized {
            before
        } else {
            before.push(windows.last().bounds)
        }
    }
}

fn keep_on_frame(rects: &[Rect], origin: Vec2D, bounds: Rect) -> (kept: Vec<Rect>)
    ensures
        kept@ == on_frame(rects@, origin, bounds),
{
    let mut kept: Vec<Rect> = Vec::new();
    let mut i: usize = 0;
    while i < rects.len()
        invariant
            i <= rects@.len(),
            kept@ == on_frame(rects@.take(i as int), origin, bounds),
        decreases rects@.len() - i,
    {
        assert(rects@.take(i + 1).drop_last() =~= rects@.take(i as int));
        let r = rebase(rects[i], origin);
        if overlaps(r, bounds) {
            kept.push(r);
        }
        i = i + 1;
    }
    assert(rects@.take(i as int) =~= rects@);
    kept
}

fn places_of(windows: &[WindowInfo]) -> (places: Vec<Rect>)
    ensures
        places@ == open_windows(windows@),
{
    let mut places: Vec<Rect> = Vec::new();
    let mut i: usize = 0;
    while i < windows.len()
        invariant
            i <= windows@.len(),
            places@ == open_windows(windows@.take(i as int)),
        decreases windows@.len() - i,
    {
        assert(windows@.take(i + 1).drop_last() =~= windows@.take(i as int));
        if !windows[i].is_minimized {
            places.push(windows[i].bounds);
        }
        i = i + 1;
    }
    assert(windows@.take(i as int) =~= windows@);
    places
}

/// What lies on the frame, with the places of the rectangles it came from.
proof fn lemma_on_frame(rects: Seq<Rect>, origin: Vec2D, bounds: Rect) -> (picked: Seq<int>)
    ensures
        picked.len() == on_frame(rects, origin, bounds).len(),
        forall|j: int, k: int|
            0 <= j < k < picked.len() ==> #[trigger] picked[j] < #[trigger] picked[k],
        forall|k: int|
            0 <= k < picked.len() ==> 0 <= #[trigger] picked[k] < rects.len() && on_frame(
                rects,
                origin,
                bounds,
            )[k] == rebased(rects[picked[k]], origin) && overlapping(
                rebased(rects[picked[k]], origin),
                bounds,
            ),
        forall|i: int|
            0 <= i < rects.len() && overlapping(rebased(#[trigger] rects[i], origin), bounds)
                ==> picked.contains(i),
    decreases rects.len(),
{
    if rects.len() == 0 {
        Seq::empty()
    } else {
        let rest = rects.drop_last();
        let before = lemma_on_frame(rest, origin, bounds);
        let last = rects.len() - 1;
        let r = rebased(rects.last(), origin);
        let picked = if overlapping(r, bounds) {
            before.push(last)
        } else {
            before
        };
        assert forall|k: int| 0 <= k < picked.len() implies 0 <= #[trigger] picked[k] < rects.len()
            && on_frame(rects, origin, bounds)[k] == rebased(rects[picked[k]], origin)
            && overlapping(rebased(rects[picked[k]], origin), bounds) by {
            if k < before.len() {
                assert(picked[k] == before[k]);
                assert(rects[before[k]] == rest[before[k]]);
            }
        }
        assert forall|i: int|
            0 <= i < rects.len() && overlapping(
                rebased(#[trigger] rects[i], origin),
                bounds,
            ) implies picked.contains(i) by {
            if i < last {
                assert(rest[i] == rects[i]);
                assert(before.contains(i));
                let k = choose|k: int| 0 <= k < before.len() && before[k] == i;
                assert(picked[k] == i);
            } else {
                assert(picked[before.len() as int] == i);
            }
        }
        picked
    }
}

/// The windows that are not minimised, with their places in the list.
proof fn lemma_open_windows(windows: Seq<WindowInfo>) -> (picked: Seq<int>)
    ensures
        picked.len() == open_windows(windows).len(),
        forall|j: int, k: int|
            0 <= j < k < picked.len() ==> #[trigger] picked[j] < #[trigger] picked[k],
        forall|k: int|
            0 <= k < picked.len() ==> 0 <= #[trigger] picked[k] < windows.len()
                && !windows[picked[k]].is_minimized && open_windows(windows)[k]
                == windows[picked[k]].bounds,
        forall|i: int|
            0 <= i < windows.len() && !(#[trigger] windows[i]).is_minimized ==> picked.contains(i),
    decreases windows.len(),
{
    if windows.len() == 0 {
        Seq::empty()
    } else {
        let rest = windows.drop_last();
        let before = lemma_open_windows(rest);
        let last = windows.len() - 1;
        let picked = if windows.last().is_minimized {
            before
        } else {
            before.push(last)
        };
        assert forall|k: int| 0 <= k < picked.len() implies 0 <= #[trigger] picked[k]
            < windows.len() && !windows[picked[k]].is_minimized && open_windows(windows)[k]
            == windows[picked[k]].bounds by {
            if k < before.len() {
                assert(picked[k] == before[k]);
                assert(windows[before[k]] == rest[before[k]]);
            }
        }
        assert forall|i: int|
            0 <= i < windows.len() && !(#[trigger] windows[i]).is_minimized implies picked.contains(
            i,
        ) by {
            if i < last {
                assert(rest[i] == windows[i]);
                assert(before.contains(i));
                let k = choose|k: int| 0 <= k < before.len() && before[k] == i;
                assert(picked[k] == i);
            } else {
                assert(picked[before.len() as int] == i);
            }
        }
        picked
    }
}

/// The difference between two coordinates is a coordinate.
pub open spec fn measurable(a: int, b: int) -> bool {
    i64::MIN <= a - b <= i64::MAX
}

/// Every edge of the rectangle can be measured from `origin`.
pub open spec fn measurable_from(r: Rect, origin: Vec2D) -> bool {
    &&& measurable(r.left as int, origin.x as int)
    &&& measurable(r.right as int, origin.x as int)
    &&& measurable(r.top as int, origin.y as int)
    &&& measurable(r.bottom as int, origin.y as int)
}

/// The windows of a new overlay are the desktop's, moved so that the frame's
/// corner is at the origin: adding that corner to any of the four edges gives
/// the edge back. The result tells which windows those are. They come in the
/// desktop's order, and they are exactly the windows that are not minimised and
/// have a part of the frame under them.
pub proof fn law_windows_keep_their_places(
    overlay: Overlay,
    windows: Seq<WindowInfo>,
    origin: Vec2D,
) -> (picked: Seq<int>)
    requires
        overlay.selection.windows@ == on_frame(
            open_windows(windows),
            origin,
            overlay.image.area(),
        ),
        forall|i: int|
            0 <= i < windows.len() ==> measurable_from((#[trigger] windows[i]).bounds, origin),
    ensures
        picked.len() == overlay.selection.windows@.len(),
        forall|j: int, k: int|
            0 <= j < k < picked.len() ==> #[trigger] picked[j] < #[trigger] picked[k],
        forall|k: int|
            #![trigger picked[k]]
            0 <= k < picked.len() ==> {
                let kept = overlay.selection.windows@[k];
                let bounds = windows[picked[k]].bounds;
                &&& 0 <= picked[k] < windows.len()
                &&& kept.left + origin.x == bounds.left
                &&& kept.top + origin.y == bounds.top
                &&& kept.right + origin.x == bounds.right
                &&& kept.bottom + origin.y == bounds.bottom
            },
        forall|i: int|
            #![trigger windows[i]]
            0 <= i < windows.len() ==> (picked.contains(i) <==> {
                let bounds = windows[i].bounds;
                &&& !windows[i].is_minimized
                &&& bounds.left < origin.x + overlay.image.width
                &&& bounds.top < origin.y + overlay.image.height
                &&& origin.x < bounds.right
                &&& origin.y < bounds.bottom
            }),
{
    let open = lemma_open_windows(windows);
    let places = open_windows(windows);
    let seen = lemma_on_frame(places, origin, overlay.image.area());
    let picked = Seq::new(seen.len(), |k: int| open[seen[k]]);
    assert forall|j: int, k: int| 0 <= j < k < picked.len() implies #[trigger] picked[j]
        < #[trigger] picked[k] by {
        assert(seen[j] < seen[k]);
        assert(open[seen[j]] < open[seen[k]]);
    }
    assert forall|k: int| #![trigger picked[k]] 0 <= k < picked.len() implies {
        let kept = overlay.selection.windows@[k];
        let bounds = windows[picked[k]].bounds;
        &&& 0 <= picked[k] < windows.len()
        &&& kept.left + origin.x == bounds.left
        &&& kept.top + origin.y == bounds.top
        &&& kept.right + origin.x == bounds.right
        &&& kept.bottom + origin.y == bounds.bottom
    } by {
        assert(picked[k] == open[seen[k]]);
        assert(places[seen[k]] == windows[open[seen[k]]].bounds);
        assert(measurable_from(windows[picked[k]].bounds, origin));
    }
    assert forall|i: int| #![trigger windows[i]] 0 <= i < windows.len() implies (picked.contains(i)
        <==> {
        let bounds = windows[i].bounds;
        &&& !windows[i].is_minimized
        &&& bounds.left < origin.x + overlay.image.width
        &&& bounds.top < origin.y + overlay.image.height
        &&& origin.x < bounds.right
        &&& origin.y < bounds.bottom
    }) by {
        assert(measurable_from(windows[i].bounds, origin));
        if picked.contains(i) {
            let k = choose|k: int| 0 <= k < picked.len() && picked[k] == i;
            assert(open[seen[k]] == i);
            assert(places[seen[k]] == windows[open[seen[k]]].bounds);
            assert(overlapping(rebased(places[seen[k]], origin), overlay.image.area()));
        } else if !windows[i].is_minimized {
            assert(open.contains(i));
            let m = choose|m: int| 0 <= m < open.len() && open[m] == i;
            assert(places[m] == windows[open[m]].bounds);
            if overlapping(rebased(places[m], origin), overlay.image.area()) {
                assert(seen.contains(m));
                let k = choose|k: int| 0 <= k < seen.len() && seen[k] == m;
                assert(picked[k] == i);
            }
        }
    }
    picked
}

/// The monitors of a new overlay are the desktop's, moved so that the frame's
/// corner is at the origin. They come in the desktop's order, and they are
/// exactly those that show a part of the frame.
pub proof fn law_monitors_keep_their_places(
    overlay: Overlay,
    monitors: Seq<Rect>,
    origin: Vec2D,
) -> (picked: Seq<int>)
    requires
        overlay.selection.monitors@ == on_frame(monitors, origin, overlay.image.area()),
        forall|i: int| 0 <= i < monitors.len() ==> measurable_from(#[trigger] monitors[i], origin),
    ensures
        picked.len() == overlay.selection.monitors@.len(),
        forall|j: int, k: int|
            0 <= j < k < picked.len() ==> #[trigger] picked[j] < #[trigger] picked[k],
        forall|k: int|
            #![trigger picked[k]]
            0 <= k < picked.len() ==> {
                let kept = overlay.selection.monitors@[k];
                let bounds = monitors[picked[k]];
                &&& 0 <= picked[k] < monitors.len()
                &&& kept.left + origin.x == bounds.left
                &&& kept.top + origin.y == bounds.top
                &&& kept.right + origin.x == bounds.right
                &&& kept.bottom + origin.y == bounds.bottom
            },
        forall|i: int|
            #![trigger monitors[i]]
            0 <= i < monitors.len() ==> (picked.contains(i) <==> {
                &&& monitors[i].left < origin.x + overlay.image.width
                &&& monitors[i].top < origin.y + overlay.image.height
                &&& origin.x < monitors[i].right
                &&& origin.y < monitors[i].bottom
            }),
{
    let picked = lemma_on_frame(monitors, origin, overlay.image.area());
    assert forall|i: int| #![trigger monitors[i]] 0 <= i < monitors.len() implies (picked.contains(i)
        <==> {
        &&& monitors[i].left < origin.x + overlay.image.width
        &&& monitors[i].top < origin.y + overlay.image.height
        &&& origin.x < monitors[i].right
        &&& origin.y < monitors[i].bottom
    }) by {
        assert(measurable_from(monitors[i], origin));
        if picked.contains(i) {
            let k = choose|k: int| 0 <= k < picked.len() && picked[k] == i;
            assert(overlapping(rebased(monitors[picked[k]], origin), overlay.image.area()));
        }
    }
    picked
}

/// A point touches a window on the frame exactly where the point, moved by the
/// frame's corner, touches the window on the desktop.
pub proof fn law_touching_is_the_same_on_the_desktop(r: Rect, origin: Vec2D, point: Vec2D)
    requires
        measurable_from(r, origin),
    ensures
        touches(rebased(r, origin), point) <==> {
            &&& r.left <= point.x + origin.x <= r.right
            &&& r.top <= point.y + origin.y <= r.bottom
        },
{
}

/// The window that a click finds, in plain numbers: it has the pointer inside it
/// or on its edge, no other window under the pointer has a smaller area, and
/// those before it in the list are larger. It is one of the list, and there is
/// none only where no window is under the pointer.
pub proof fn law_a_click_finds_the_smallest_window(
    windows: Seq<Rect>,
    point: Vec2D,
    found: Option<Rect>,
) -> (place: int)
    requires
        found == smallest_at(windows, point),
        forall|i: int|
            0 <= i < windows.len() ==> (#[trigger] windows[i]).left <= windows[i].right
                && windows[i].top <= windows[i].bottom,
    ensures
        found matches Some(r) ==> {
            &&& 0 <= place < windows.len()
            &&& windows[place] == r
            &&& r.left <= point.x <= r.right
            &&& r.top <= point.y <= r.bottom
        },
        forall|j: int|
            #![trigger windows[j]]
            0 <= j < windows.len() && windows[j].left <= point.x <= windows[j].right
                && windows[j].top <= point.y <= windows[j].bottom ==> {
                let area = (windows[j].right - windows[j].left) * (windows[j].bottom
                    - windows[j].top);
                &&& found matches Some(r)
                &&& (r.right - r.left) * (r.bottom - r.top) <= area
                &&& j < place ==> (r.right - r.left) * (r.bottom - r.top) < area
            },
{
    law_the_smallest_window_wins(windows, point);
    assert forall|i: int| 0 <= i < windows.len() implies windows[i].pixels() == (windows[i].right
        - windows[i].left) * (#[trigger] windows[i].bottom - windows[i].top) by {
        lemma_plain_area(windows[i]);
    }
    match found {
        Some(r) => {
            let place = choose|i: int|
                0 <= i < windows.len() && #[trigger] windows[i] == r && touches(r, point) && (
                forall|j: int|
                    0 <= j < windows.len() && touches(#[trigger] windows[j], point) ==> r.pixels()
                        <= windows[j].pixels()) && (forall|j: int|
                    0 <= j < i && touches(#[trigger] windows[j], point) ==> r.pixels()
                        < windows[j].pixels());
            assert forall|j: int|
                #![trigger windows[j]]
                0 <= j < windows.len() && windows[j].left <= point.x <= windows[j].right
                    && windows[j].top <= point.y <= windows[j].bottom implies {
                let area = (windows[j].right - windows[j].left) * (windows[j].bottom
                    - windows[j].top);
                &&& (r.right - r.left) * (r.bottom - r.top) <= area
                &&& j < place ==> (r.right - r.left) * (r.bottom - r.top) < area
            } by {
                assert(touches(windows[j], point));
                lemma_plain_area(windows[j]);
                lemma_plain_area(windows[place]);
            }
            place
        },
        None => {
            assert forall|j: int| 0 <= j < windows.len() implies !touches(
                #[trigger] windows[j],
                point,
            ) by {}
            0
        },
    }
}

proof fn lemma_plain_area(r: Rect)
    requires
        r.ordered(),
    ensures
        r.pixels() == (r.right - r.left) * (r.bottom - r.top),
{
    let w = r.right - r.left;
    let h = r.bottom - r.top;
    if r.empty() {
        assert(w * h == 0) by (nonlinear_arith)
            requires
                w == 0 || h == 0,
        ;
    }
}

/// The monitor that a click finds is the first that has the pointer inside it or
/// on its edge.
pub proof fn law_a_click_finds_the_first_monitor(
    monitors: Seq<Rect>,
    point: Vec2D,
    found: Option<Rect>,
) -> (place: int)
    requires
        found == first_at(monitors, point),
    ensures
        found matches Some(r) ==> {
            &&& 0 <= place < monitors.len()
            &&& monitors[place] == r
            &&& r.left <= point.x <= r.right
            &&& r.top <= point.y <= r.bottom
        },
        forall|j: int|
            #![trigger monitors[j]]
            0 <= j < monitors.len() && monitors[j].left <= point.x <= monitors[j].right
                && monitors[j].top <= point.y <= monitors[j].bottom ==> found is Some && place <= j,
    decreases monitors.len(),
{
    if monitors.len() == 0 {
        0
    } else if touches(monitors[0], point) {
        0
    } else {
        let rest = monitors.subrange(1, monitors.len() as int);
        let below = law_a_click_finds_the_first_monitor(rest, point, found);
        assert forall|j: int|
            #![trigger monitors[j]]
            0 <= j < monitors.len() && monitors[j].left <= point.x <= monitors[j].right
                && monitors[j].top <= point.y <= monitors[j].bottom implies found is Some && below
            + 1 <= j by {
            assert(j != 0);
            assert(rest[j - 1] == monitors[j]);
        }
        below + 1
    }
}

/// A click takes a monitor in monitor mode and a window in every other mode, and
/// what it takes is cut to the frame.
pub proof fn law_the_mode_decides_what_a_click_takes(s: RegionSelection, at: Vec2D)
    ensures
        ({
            let found = if s.mode == CaptureMode::Monitor {
                first_at(s.monitors@, at)
            } else {
                smallest_at(s.windows@, at)
            };
            match found {
                None => s.clicked_inside(at) is None,
                Some(r) => s.clicked_inside(at) matches Some(cut) && forall|x: int, y: int|
                    (#[trigger] cut.owns(x, y)) <==> r.owns(x, y) && s.bounds.owns(x, y),
            }
        }),
{
}

/// A drag selects what it spans, cut to the frame, as long as four pixels are
/// left of it in both directions. Which corner it started from does not matter.
/// A shorter drag is a click where it ended.
pub proof fn law_a_drag_selects_what_it_spans(s: RegionSelection, start: Vec2D, at: Vec2D)
    requires
        s.drag matches Some((from, _)) && from == start,
    ensures
        ({
            let left = if start.x <= at.x {
                start.x
            } else {
                at.x
            };
            let right = if start.x <= at.x {
                at.x
            } else {
                start.x
            };
            let top = if start.y <= at.y {
                start.y
            } else {
                at.y
            };
            let bottom = if start.y <= at.y {
                at.y
            } else {
                start.y
            };
            let l = if left < s.bounds.left {
                s.bounds.left
            } else {
                left
            };
            let t = if top < s.bounds.top {
                s.bounds.top
            } else {
                top
            };
            let r = if right > s.bounds.right {
                s.bounds.right
            } else {
                right
            };
            let b = if bottom > s.bounds.bottom {
                s.bounds.bottom
            } else {
                bottom
            };
            if r - l >= 4 && b - t >= 4 {
                s.released(at) == Some(Rect { left: l, top: t, right: r, bottom: b })
            } else {
                s.released(at) == s.clicked_inside(at)
            }
        }),
{
}

/// Releasing without a drag selects nothing.
pub proof fn law_nothing_is_released_without_a_drag(s: RegionSelection, at: Vec2D)
    requires
        s.drag is None,
    ensures
        s.released(at) is None,
{
}

/// Before a drag is long enough there is a preview of what a click would take,
/// as long as the pointer is over the frame. Region and full-screen mode show
/// one only while nothing is dragged, and only when they are to snap.
pub proof fn law_the_preview_follows_the_pointer(s: RegionSelection)
    requires
        s.drag matches Some((start, to)) ==> start == to,
    ensures
        s.hover is None ==> s.preview() is None,
        s.hover matches Some(at) ==> s.preview() == (if s.mode == CaptureMode::Window || s.mode
            == CaptureMode::Monitor || (s.snap && s.drag is None) {
            s.clicked_inside(at)
        } else {
            None
        }),
{
}

/// A click on one of the overlay's buttons.
#[derive(Debug, Clone, Copy, PartialEq, Eq, Structural)]
pub enum Button {
    /// What a click selects from now on.
    Mode(CaptureMode),
    /// Capture everything, right now.
    FullScreen,
    /// Back out.
    Cancel,
}

/// The keys of the overlay that went down in one frame.
#[derive(Debug, Clone, Copy, PartialEq, Eq, Structural)]
pub struct Keys {
    /// Back out.
    pub escape: bool,
    /// Region mode.
    pub one: bool,
    /// Window mode.
    pub two: bool,
    /// Monitor mode.
    pub three: bool,
    /// Capture everything.
    pub four: bool,
}

/// What the pointer did in one frame.
#[derive(Debug, Clone, Copy, PartialEq, Eq, Structural)]
pub struct PointerFrame {
    /// Where it is, in pixels of the frame, if anywhere.
    pub position: Option<Vec2D>,
    /// It is over the overlay's buttons, and not over the screenshot.
    pub on_toolbar: bool,
    /// A drag started.
    pub drag_started: bool,
    /// A drag went on.
    pub dragged: bool,
    /// A drag ended, or there was a click.
    pub finished: bool,
}

/// The overlay: a frozen frame, and what the user did with it.
#[derive(Debug)]
pub struct Overlay {
    /// What is selected right now.
    pub selection: RegionSelection,
    /// The frozen frame.
    pub image: RgbaImage,
    /// What the user did.
    pub outcome: Selection,
}

impl Overlay {
    /// The frame, the windows and the monitors stay; only the mode and the drag
    /// may change.
    pub open spec fn same_frame(self, other: Overlay) -> bool {
        &&& self.selection.same_scene(other.selection)
        &&& self.image == other.image
    }

    /// An overlay over a frozen frame. Window and monitor places are on the
    /// virtual desktop, and the frame starts at `frame_origin`, so they are
    /// rebased onto the frame. Minimised windows cannot be selected.
    pub fn new(
        image: RgbaImage,
        windows: &[WindowInfo],
        monitors: &[Rect],
        frame_origin: Vec2D,
        mode: CaptureMode,
        snap: bool,
    ) -> (overlay: Overlay)
        ensures
            overlay.image == image,
            overlay.outcome == Selection::Pending,
            overlay.selection.bounds == image.area(),
            overlay.selection.windows@ == on_frame(
                open_windows(windows@),
                frame_origin,
                image.area(),
            ),
            overlay.selection.monitors@ == on_frame(monitors@, frame_origin, image.area()),
            overlay.selection.mode == mode,
            overlay.selection.snap == snap,
            overlay.selection.drag is None,
            overlay.selection.hover is None,
    {
        let bounds = Rect::from_xywh(0, 0, image.width as i64, image.height as i64);
        let places = places_of(windows);
        let windows = keep_on_frame(places.as_slice(), frame_origin, bounds);
        let monitors = keep_on_frame(monitors, frame_origin, bounds);
        Overlay {
            selection: RegionSelection::new(bounds, windows, monitors, mode, snap),
            image,
            outcome: Selection::Pending,
        }
    }

    /// What the user did.
    pub fn outcome(&self) -> (outcome: Selection)
        ensures
            outcome == self.outcome,
    {
        self.outcome
    }

    /// The frozen frame.
    pub fn image(&self) -> (image: &RgbaImage)
        ensures
            *image == self.image,
    {
        &self.image
    }

    /// The outcome after keys: the fourth digit confirms the whole frame, and
    /// Escape backs out.
    pub open spec fn outcome_after(self, keys: Keys) -> Selection {
        if keys.four {
            Selection::Confirmed(self.selection.bounds)
        } else if keys.escape {
            Selection::Cancelled
        } else {
            self.outcome
        }
    }

    /// The mode after keys: the last digit that went down counts.
    pub open spec fn mode_after(self, keys: Keys) -> CaptureMode {
        if keys.three {
            CaptureMode::Monitor
        } else if keys.two {
            CaptureMode::Window
        } else if keys.one {
            CaptureMode::Region
        } else {
            self.selection.mode
        }
    }

    /// A digit asked for another mode than the one before it.
    pub open spec fn switches(self, keys: Keys) -> bool {
        let mode = self.selection.mode;
        let after_one = if keys.one {
            CaptureMode::Region
        } else {
            mode
        };
        let after_two = if keys.two {
            CaptureMode::Window
        } else {
            after_one
        };
        after_one != mode || after_two != after_one || self.mode_after(keys) != after_two
    }

    /// The overlay after keys went down.
    pub open spec fn pressed(self, keys: Keys) -> Overlay {
        Overlay {
            outcome: self.outcome_after(keys),
            selection: RegionSelection {
                mode: self.mode_after(keys),
                drag: if self.switches(keys) {
                    None
                } else {
                    self.selection.drag
                },
                ..self.selection
            },
            ..self
        }
    }

    /// Escape backs out entirely; digits choose a mode, or everything.
    pub fn press(&mut self, keys: Keys)
        ensures
            *final(self) == old(self).pressed(keys),
    {
        if keys.escape {
            self.outcome = Selection::Cancelled;
        }
        if keys.one {
            self.selection.set_mode(CaptureMode::Region);
        }
        if keys.two {
            self.selection.set_mode(CaptureMode::Window);
        }
        if keys.three {
            self.selection.set_mode(CaptureMode::Monitor);
        }
        if keys.four {
            self.outcome = Selection::Confirmed(self.selection.bounds());
        }
    }

    /// The overlay after a click on one of the buttons.
    pub open spec fn clicked(self, button: Button) -> Overlay {
        match button {
            Button::Mode(asked) => {
                let (mode, drag) = self.selection.switched(asked);
                Overlay { selection: RegionSelection { mode, drag, ..self.selection }, ..self }
            },
            Button::FullScreen => Overlay {
                outcome: Selection::Confirmed(self.selection.bounds),
                ..self
            },
            Button::Cancel => Overlay { outcome: Selection::Cancelled, ..self },
        }
    }

    /// A click on one of the buttons.
    pub fn click(&mut self, button: Button)
        ensures
            *final(self) == old(self).clicked(button),
    {
        match button {
            Button::Mode(mode) => self.selection.set_mode(mode),
            Button::FullScreen => {
                self.outcome = Selection::Confirmed(self.selection.bounds());
            },
            Button::Cancel => {
                self.outcome = Selection::Cancelled;
            },
        }
    }

    /// The drag once a frame's start and movement have been taken in.
    pub open spec fn drag_during(self, pointer: PointerFrame) -> Option<(Vec2D, Vec2D)> {
        match pointer.position {
            Some(p) => {
                let started = if pointer.drag_started {
                    Some((p, p))
                } else {
                    self.selection.drag
                };
                match started {
                    Some((start, to)) => Some((start, if pointer.dragged {
                        p
                    } else {
                        to
                    })),
                    None => None,
                }
            },
            None => self.selection.drag,
        }
    }

    /// What finishing the gesture at `at` selects. A click is a drag that
    /// starts where it ends.
    pub open spec fn finished_at(self, drag: Option<(Vec2D, Vec2D)>, at: Vec2D) -> Option<Rect> {
        let held = match drag {
            Some(d) => d,
            None => (at, at),
        };
        (RegionSelection { drag: Some(held), ..self.selection }).released(at)
    }

    /// The overlay after what the pointer did in one frame. Over the buttons
    /// there is no preview, no crosshair and no drag.
    pub open spec fn pointed(self, pointer: PointerFrame) -> Overlay {
        let drag = self.drag_during(pointer);
        if pointer.on_toolbar {
            Overlay { selection: RegionSelection { hover: None, ..self.selection }, ..self }
        } else {
            match pointer.position {
                Some(at) if pointer.finished => Overlay {
                    outcome: match self.finished_at(drag, at) {
                        Some(r) => Selection::Confirmed(r),
                        None => self.outcome,
                    },
                    selection: RegionSelection {
                        hover: pointer.position,
                        drag: None,
                        ..self.selection
                    },
                    ..self
                },
                _ => Overlay {
                    selection: RegionSelection { hover: pointer.position, drag, ..self.selection },
                    ..self
                },
            }
        }
    }

    /// Take in what the pointer did in one frame.
    ///
    /// A pointer over the buttons is over the buttons, not over the screenshot.
    pub fn point(&mut self, pointer: PointerFrame)
        ensures
            *final(self) == old(self).pointed(pointer),
    {
        if pointer.on_toolbar {
            self.selection.set_hover(None);
            return;
        }
        self.selection.set_hover(pointer.position);
        let p = match pointer.position {
            Some(p) => p,
            None => {
                return;
            },
        };
        if pointer.drag_started {
            self.selection.begin_drag(p);
        }
        if pointer.dragged {
            self.selection.update_drag(p);
        }
        if pointer.finished {
            if !self.selection.is_dragging() {
                self.selection.begin_drag(p);
            }
            let ghost held = self.selection;
            match self.selection.end_drag(p) {
                Some(rect) => {
                    self.outcome = Selection::Confirmed(rect);
                },
                None => {},
            }
            proof {
                let drag = old(self).drag_during(pointer);
                let modelled = RegionSelection {
                    drag: Some(
                        match drag {
                            Some(d) => d,
                            None => (p, p),
                        },
                    ),
                    ..old(self).selection
                };
                assert(modelled.released(p) == held.released(p));
            }
        }
    }

    /// The overlay after one frame. What the keys decided is not undone by a
    /// button, and what a button decided is not undone by the pointer.
    pub open spec fn after_frame(
        self,
        keys: Keys,
        button: Option<Button>,
        pointer: PointerFrame,
    ) -> Overlay {
        let typed = self.pressed(keys);
        if typed.outcome != Selection::Pending {
            typed
        } else {
            let chosen = match button {
                Some(b) => typed.clicked(b),
                None => typed,
            };
            if chosen.outcome != Selection::Pending {
                chosen
            } else {
                chosen.pointed(pointer)
            }
        }
    }

    /// Take in one frame: the keys that went down, the button that was clicked,
    /// and what the pointer did.
    pub fn draw(&mut self, keys: Keys, button: Option<Button>, pointer: PointerFrame)
        ensures
            *final(self) == old(self).after_frame(keys, button, pointer),
    {
        self.press(keys);
        if self.outcome != Selection::Pending {
            return;
        }
        match button {
            Some(b) => self.click(b),
            None => {},
        }
        if self.outcome != Selection::Pending {
            return;
        }
        self.point(pointer);
    }

    /// What is drawn over the frozen frame: everything but the selection is
    /// dimmed, or all of it, with a hint, while nothing is selected.
    pub fn paint_selection(&self) -> (shown: Shown)
        ensures
            match self.selection.preview() {
                Some(r) => {
                    &&& shown matches Shown::Selected { dimmed, outline, label }
                    &&& dimmed@ == bands(self.selection.bounds, r)
                    &&& outline == r
                    &&& label@ == size_text(r)
                },
                None => {
                    &&& shown matches Shown::Waiting { dimmed, hint }
                    &&& dimmed == self.selection.bounds
                    &&& hint@ == hint_text(self.selection.mode)
                },
            },
    {
        match self.selection.current() {
            Some(rect) => Shown::Selected {
                dimmed: surrounding_bands(self.selection.bounds(), rect),
                outline: rect,
                label: size_label(rect),
            },
            None => Shown::Waiting {
                dimmed: self.selection.bounds(),
                hint: hint(self.selection.mode()),
            },
        }
    }
}

/// What is drawn over the frozen frame.
#[derive(Debug)]
pub enum Shown {
    /// Something is selected.
    Selected {
        /// The parts of the frame that are dimmed.
        dimmed: Vec<Rect>,
        /// The selection, which is outlined.
        outline: Rect,
        /// Its size, written beside it.
        label: String,
    },
    /// Nothing is selected.
    Waiting {
        /// The frame, which is dimmed.
        dimmed: Rect,
        /// What to do.
        hint: &'static str,
    },
}

/// The keys do what the buttons do that name them.
pub proof fn law_keys_do_what_their_buttons_do(overlay: Overlay)
    ensures
        ({
            let none = Keys { escape: false, one: false, two: false, three: false, four: false };
            &&& overlay.pressed(none) == overlay
            &&& overlay.pressed(Keys { one: true, ..none }) == overlay.clicked(
                Button::Mode(CaptureMode::Region),
            )
            &&& overlay.pressed(Keys { two: true, ..none }) == overlay.clicked(
                Button::Mode(CaptureMode::Window),
            )
            &&& overlay.pressed(Keys { three: true, ..none }) == overlay.clicked(
                Button::Mode(CaptureMode::Monitor),
            )
            &&& overlay.pressed(Keys { four: true, ..none }) == overlay.clicked(Button::FullScreen)
            &&& overlay.pressed(Keys { escape: true, ..none }) == overlay.clicked(Button::Cancel)
        }),
{
}

/// Escape backs out entirely, whatever else happens in the frame, unless the key
/// for the whole frame went down with it.
pub proof fn law_escape_backs_out(
    overlay: Overlay,
    keys: Keys,
    button: Option<Button>,
    pointer: PointerFrame,
)
    requires
        keys.escape,
        !keys.four,
    ensures
        overlay.after_frame(keys, button, pointer).outcome == Selection::Cancelled,
{
}

/// The frame, the windows and the monitors never change under the user's hands.
pub proof fn law_the_scene_stays_frozen(
    overlay: Overlay,
    keys: Keys,
    button: Option<Button>,
    pointer: PointerFrame,
)
    ensures
        overlay.after_frame(keys, button, pointer).same_frame(overlay),
{
}

/// The buttons of the overlay: what each does, what is written on it, and what
/// it says when the pointer rests on it. "Full screen" is no mode but an action:
/// it fires at once rather than asking for a second click.
pub open spec fn button_table() -> Seq<(Button, Seq<char>, Seq<char>)> {
    seq![
        (Button::Mode(CaptureMode::Region), "Region"@, "Drag out a rectangle  (1)"@),
        (Button::Mode(CaptureMode::Window), "Window"@, "Click the window under the pointer  (2)"@),
        (
            Button::Mode(CaptureMode::Monitor),
            "Monitor"@,
            "Click the monitor under the pointer  (3)"@,
        ),
        (Button::FullScreen, "Full screen"@, "Capture everything, right now  (4)"@),
        (Button::Cancel, "✕"@, "Cancel  (Esc)"@),
    ]
}

/// The buttons of the overlay, with their labels and hints.
pub fn draw_toolbar() -> (buttons: Vec<(Button, &'static str, &'static str)>)
    ensures
        Seq::new(
            buttons@.len(),
            |i: int| (buttons@[i].0, buttons@[i].1@, buttons@[i].2@),
        ) == button_table(),
{
    let mut buttons: Vec<(Button, &'static str, &'static str)> = Vec::new();
    buttons.push((Button::Mode(CaptureMode::Region), "Region", "Drag out a rectangle  (1)"));
    buttons.push(
        (Button::Mode(CaptureMode::Window), "Window", "Click the window under the pointer  (2)"),
    );
    buttons.push(
        (Button::Mode(CaptureMode::Monitor), "Monitor", "Click the monitor under the pointer  (3)"),
    );
    buttons.push((Button::FullScreen, "Full screen", "Capture everything, right now  (4)"));
    buttons.push((Button::Cancel, "✕", "Cancel  (Esc)"));
    assert(Seq::new(
        buttons@.len(),
        |i: int| (buttons@[i].0, buttons@[i].1@, buttons@[i].2@),
    ) =~= button_table());
    buttons
}

impl Overlay {
    /// Is a button shown as the one in use? It is when it stands for the mode.
    pub fn is_current(&self, button: Button) -> (yes: bool)
        ensures
            yes == (button == Button::Mode(self.selection.mode)),
    {
        match button {
            Button::Mode(mode) => mode == self.selection.mode(),
            _ => false,
        }
    }
}

/// The line shown while nothing is selected.
pub open spec fn hint_text(mode: CaptureMode) -> Seq<char> {
    match mode {
        CaptureMode::Window => "Click a window · or drag out a region · Esc to cancel"@,
        CaptureMode::Monitor => "Click a monitor · or drag out a region · Esc to cancel"@,
        _ => "Drag to select a region · click a window · Esc to cancel"@,
    }
}

/// The line shown while nothing is selected. It follows the mode: a fixed line
/// would tell the user to do the wrong thing two thirds of the time.
pub fn hint(mode: CaptureMode) -> (text: &'static str)
    ensures
        text@ == hint_text(mode),
{
    match mode {
        CaptureMode::Window => "Click a window · or drag out a region · Esc to cancel",
        CaptureMode::Monitor => "Click a monitor · or drag out a region · Esc to cancel",
        _ => "Drag to select a region · click a window · Esc to cancel",
    }
}

/// An extent as the overlay shows it: never below zero, and at most what 32 bits
/// hold.
pub open spec fn shown_extent(n: int) -> nat {
    if n < 0 {
        0
    } else if n > u32::MAX {
        u32::MAX as nat
    } else {
        n as nat
    }
}

fn extent_to_show(n: i128) -> (shown: u64)
    ensures
        shown == shown_extent(n as int),
{
    if n < 0 {
        0
    } else if n > u32::MAX as i128 {
        u32::MAX as u64
    } else {
        n as u64
    }
}

/// The size of a selection, as the overlay shows it.
pub open spec fn size_text(rect: Rect) -> Seq<char> {
    crate::text::decimal_text(shown_extent(rect.right - rect.left)) + " × "@
        + crate::text::decimal_text(shown_extent(rect.bottom - rect.top))
}

/// The size of a selection, as the overlay shows it.
pub fn size_label(rect: Rect) -> (text: String)
    ensures
        text@ == size_text(rect),
{
    let width = decimal(extent_to_show(rect.width()));
    let height = decimal(extent_to_show(rect.height()));
    joined(joined(width.as_str(), " × ").as_str(), height.as_str())
}

/// The band between two columns and two rows, if there are any.
pub open spec fn band(left: i64, top: i64, right: i64, bottom: i64) -> Seq<Rect> {
    let r = Rect { left, top, right, bottom };
    if r.empty() {
        seq![]
    } else {
        seq![r]
    }
}

/// The rectangles that cover `outer` but not `hole`: above it, below it, to its
/// left and to its right, as far as they have pixels.
pub open spec fn bands(outer: Rect, hole: Rect) -> Seq<Rect> {
    let h = hole.in_order().within(outer);
    if h.empty() {
        seq![outer]
    } else {
        band(outer.left, outer.top, outer.right, h.top) + band(
            outer.left,
            h.bottom,
            outer.right,
            outer.bottom,
        ) + band(outer.left, h.top, h.left, h.bottom) + band(h.right, h.top, outer.right, h.bottom)
    }
}

fn push_band(found: &mut Vec<Rect>, left: i64, top: i64, right: i64, bottom: i64)
    ensures
        final(found)@ == old(found)@ + band(left, top, right, bottom),
{
    let r = Rect { left, top, right, bottom };
    if !r.is_empty() {
        found.push(r);
    }
    assert(found@ =~= old(found)@ + band(left, top, right, bottom));
}

/// The rectangles that cover `outer` but not `hole`.
pub fn surrounding_bands(outer: Rect, hole: Rect) -> (found: Vec<Rect>)
    ensures
        found@ == bands(outer, hole),
{
    let h = hole.normalized().clamped_to(outer);
    let mut found: Vec<Rect> = Vec::new();
    if h.is_empty() {
        found.push(outer);
        assert(found@ =~= seq![outer]);
        return found;
    }
    push_band(&mut found, outer.left, outer.top, outer.right, h.top);
    push_band(&mut found, outer.left, h.bottom, outer.right, outer.bottom);
    push_band(&mut found, outer.left, h.top, h.left, h.bottom);
    push_band(&mut found, h.right, h.top, outer.right, h.bottom);
    assert(found@ =~= bands(outer, hole));
    found
}

/// How many of the rectangles own a pixel.
pub open spec fn owners(rects: Seq<Rect>, x: int, y: int) -> nat
    decreases rects.len(),
{
    if rects.len() == 0 {
        0
    } else {
        owners(rects.drop_last(), x, y) + (if rects.last().owns(x, y) {
            1nat
        } else {
            0nat
        })
    }
}

proof fn lemma_owners_add(a: Seq<Rect>, b: Seq<Rect>, x: int, y: int)
    ensures
        owners(a + b, x, y) == owners(a, x, y) + owners(b, x, y),
    decreases b.len(),
{
    if b.len() == 0 {
        assert(a + b =~= a);
    } else {
        assert((a + b).drop_last() =~= a + b.drop_last());
        assert((a + b).last() == b.last());
        lemma_owners_add(a, b.drop_last(), x, y);
    }
}

proof fn lemma_owners_of_band(left: i64, top: i64, right: i64, bottom: i64, x: int, y: int)
    ensures
        owners(band(left, top, right, bottom), x, y) == (if left <= x < right && top <= y < bottom {
            1nat
        } else {
            0nat
        }),
{
    reveal_with_fuel(owners, 2);
}

/// The bands dim every pixel of the frame outside the hole exactly once, and no
/// pixel inside it: seams are not darkened twice, and the selection stays clear.
pub proof fn law_bands_cover_everything_but_the_hole_once(outer: Rect, hole: Rect, x: int, y: int)
    requires
        outer.ordered(),
    ensures
        owners(bands(outer, hole), x, y) == (if outer.owns(x, y) && !hole.in_order().owns(x, y) {
            1nat
        } else {
            0nat
        }),
{
    let h = hole.in_order().within(outer);
    if h.empty() {
        reveal_with_fuel(owners, 2);
        assert(bands(outer, hole).drop_last() =~= seq![]);
    } else {
        let a = band(outer.left, outer.top, outer.right, h.top);
        let b = band(outer.left, h.bottom, outer.right, outer.bottom);
        let c = band(outer.left, h.top, h.left, h.bottom);
        let d = band(h.right, h.top, outer.right, h.bottom);
        lemma_owners_add(a, b, x, y);
        lemma_owners_add(a + b, c, x, y);
        lemma_owners_add(a + b + c, d, x, y);
        lemma_owners_of_band(outer.left, outer.top, outer.right, h.top, x, y);
        lemma_owners_of_band(outer.left, h.bottom, outer.right, outer.bottom, x, y);
        lemma_owners_of_band(outer.left, h.top, h.left, h.bottom, x, y);
        lemma_owners_of_band(h.right, h.top, outer.right, h.bottom, x, y);
    }
}

/// What the keys of one frame decide. The fourth digit confirms the whole frame,
/// Escape backs out, and without either the outcome stays. The highest of the
/// first three digits is the mode. The drag goes when a digit asks for another
/// mode than the one in force when it is read, and stays otherwise.
pub proof fn law_what_keys_decide(overlay: Overlay, keys: Keys)
    ensures
        ({
            let after = overlay.pressed(keys);
            let mode = overlay.selection.mode;
            let kept = !(keys.one && mode != CaptureMode::Region) && !(keys.two && (keys.one || mode
                != CaptureMode::Window)) && !(keys.three && (keys.two || keys.one || mode
                != CaptureMode::Monitor));
            &&& keys.four ==> after.outcome == Selection::Confirmed(overlay.selection.bounds)
            &&& keys.escape && !keys.four ==> after.outcome == Selection::Cancelled
            &&& !keys.escape && !keys.four ==> after.outcome == overlay.outcome
            &&& keys.three ==> after.selection.mode == CaptureMode::Monitor
            &&& keys.two && !keys.three ==> after.selection.mode == CaptureMode::Window
            &&& keys.one && !keys.two && !keys.three ==> after.selection.mode == CaptureMode::Region
            &&& !keys.one && !keys.two && !keys.three ==> after.selection.mode == mode
            &&& kept ==> after.selection.drag == overlay.selection.drag
            &&& !kept ==> after.selection.drag is None
            &&& after.selection.hover == overlay.selection.hover
            &&& after.selection.same_scene(overlay.selection)
            &&& after.image == overlay.image
        }),
{
}

/// What a button decides. A mode button puts its mode in force, and the drag
/// goes if that is another one; the other two buttons end the selection.
pub proof fn law_what_buttons_decide(overlay: Overlay, button: Button)
    ensures
        ({
            let after = overlay.clicked(button);
            &&& button matches Button::Mode(mode) ==> {
                &&& after.outcome == overlay.outcome
                &&& after.selection.mode == mode
                &&& mode == overlay.selection.mode ==> after.selection.drag
                    == overlay.selection.drag
                &&& mode != overlay.selection.mode ==> after.selection.drag is None
            }
            &&& button == Button::FullScreen ==> after.outcome == Selection::Confirmed(
                overlay.selection.bounds,
            )
            &&& button == Button::Cancel ==> after.outcome == Selection::Cancelled
            &&& button == Button::FullScreen || button == Button::Cancel ==> {
                &&& after.selection.mode == overlay.selection.mode
                &&& after.selection.drag == overlay.selection.drag
            }
            &&& after.selection.hover == overlay.selection.hover
            &&& after.selection.same_scene(overlay.selection)
            &&& after.image == overlay.image
        }),
{
}

/// What the pointer decides. Over the buttons it only stops hovering. Elsewhere
/// it hovers where it is. A drag starts where the pointer was when it started,
/// follows it while it moves, and is over once it is finished. What it then
/// selects is confirmed; a click is a drag from a point to itself; and where
/// nothing is selected the outcome stays.
pub proof fn law_what_the_pointer_decides(overlay: Overlay, pointer: PointerFrame)
    ensures
        ({
            let before = overlay.selection;
            let after = overlay.pointed(pointer);
            &&& after.selection.mode == before.mode
            &&& after.selection.same_scene(before)
            &&& after.image == overlay.image
            &&& pointer.on_toolbar ==> {
                &&& after.selection.hover is None
                &&& after.selection.drag == before.drag
                &&& after.outcome == overlay.outcome
            }
            &&& !pointer.on_toolbar ==> after.selection.hover == pointer.position
            &&& !pointer.on_toolbar && pointer.position is None ==> {
                &&& after.selection.drag == before.drag
                &&& after.outcome == overlay.outcome
            }
            &&& !pointer.on_toolbar && !pointer.finished ==> {
                &&& after.outcome == overlay.outcome
                &&& pointer.position matches Some(p) ==> {
                    &&& pointer.drag_started ==> after.selection.drag == Some((p, p))
                    &&& !pointer.drag_started && !pointer.dragged ==> after.selection.drag
                        == before.drag
                    &&& !pointer.drag_started && pointer.dragged ==> match before.drag {
                        Some((start, _)) => after.selection.drag == Some((start, p)),
                        None => after.selection.drag is None,
                    }
                }
            }
            &&& !pointer.on_toolbar && pointer.finished ==> (pointer.position matches Some(p) ==> {
                let start = if pointer.drag_started || before.drag is None {
                    p
                } else {
                    before.drag->Some_0.0
                };
                let selected = (RegionSelection { drag: Some((start, p)), ..before }).released(p);
                &&& after.selection.drag is None
                &&& selected matches Some(r) ==> after.outcome == Selection::Confirmed(r)
                &&& selected is None ==> after.outcome == overlay.outcome
            })
        }),
{
    if let Some(p) = pointer.position {
        let before = overlay.selection;
        let held = match overlay.drag_during(pointer) {
            Some(d) => d,
            None => (p, p),
        };
        let start = if pointer.drag_started || before.drag is None {
            p
        } else {
            before.drag->Some_0.0
        };
        let one = RegionSelection { drag: Some(held), ..before };
        let other = RegionSelection { drag: Some((start, p)), ..before };
        assert(one.released(p) == other.released(p));
    }
}

/// A frame takes in the keys first, the button next and the pointer last, and
/// stops as soon as one of them has ended the selection.
pub proof fn law_a_frame_stops_once_decided(
    overlay: Overlay,
    keys: Keys,
    button: Option<Button>,
    pointer: PointerFrame,
)
    ensures
        ({
            let typed = overlay.pressed(keys);
            let after = overlay.after_frame(keys, button, pointer);
            &&& typed.outcome != Selection::Pending ==> after == typed
            &&& typed.outcome == Selection::Pending ==> match button {
                None => after == typed.pointed(pointer),
                Some(b) => {
                    &&& typed.clicked(b).outcome != Selection::Pending ==> after == typed.clicked(b)
                    &&& typed.clicked(b).outcome == Selection::Pending ==> after == typed.clicked(
                        b,
                    ).pointed(pointer)
                },
            }
        }),
{
}

/// Asking for the mode in force changes nothing; asking for another puts it in
/// force and ends the drag.
pub proof fn law_switching_ends_the_drag(s: RegionSelection, mode: CaptureMode)
    ensures
        s.switched(mode).0 == mode,
        s.mode == mode ==> s.switched(mode).1 == s.drag,
        s.mode != mode ==> s.switched(mode).1 is None,
{
}

/// The extents that are shown are those of the selection, as far as 32 bits
/// hold them, and zero where the edges are out of order.
pub proof fn law_the_extents_shown_are_the_selections(rect: Rect)
    ensures
        rect.left <= rect.right <= rect.left + 0xffff_ffff ==> shown_extent(rect.right - rect.left)
            == rect.right - rect.left,
        rect.right > rect.left + 0xffff_ffff ==> shown_extent(rect.right - rect.left)
            == 0xffff_ffff,
        rect.right < rect.left ==> shown_extent(rect.right - rect.left) == 0,
        size_text(rect) == crate::text::decimal_text(shown_extent(rect.right - rect.left)) + " × "@
            + crate::text::decimal_text(shown_extent(rect.bottom - rect.top)),
{
}

/// Crop the frozen frame down to the confirmed selection.
pub fn crop_to(image: &RgbaImage, rect: Rect) -> (cut: RgbaImage)
    requires
        image.wf(),
    ensures
        crate::picture::is_part(cut, *image, crate::picture::crop_area(image.area(), rect)),
{
    crop_image(image, rect)
}

/// Every button of a mode is labelled with the name of the mode, and its hint
/// shows the key that does the same.
pub proof fn law_buttons_are_named_after_their_modes(i: int)
    requires
        0 <= i < button_table().len(),
    ensures
        ({
            let (button, label, tip) = button_table()[i];
            let key = tip[tip.len() - 2];
            &&& button matches Button::Mode(mode) ==> crate::text::lowered(label) == mode.text()
            &&& button == Button::Mode(CaptureMode::Region) ==> key == '1'
            &&& button == Button::Mode(CaptureMode::Window) ==> key == '2'
            &&& button == Button::Mode(CaptureMode::Monitor) ==> key == '3'
            &&& button == Button::FullScreen ==> key == '4'
        }),
{
    reveal_strlit("Region");
    reveal_strlit("Window");
    reveal_strlit("Monitor");
    reveal_strlit("region");
    reveal_strlit("window");
    reveal_strlit("monitor");
    reveal_strlit("Drag out a rectangle  (1)");
    reveal_strlit("Click the window under the pointer  (2)");
    reveal_strlit("Click the monitor under the pointer  (3)");
    reveal_strlit("Capture everything, right now  (4)");
    assert(crate::text::lowered("Region"@) =~= "region"@);
    assert(crate::text::lowered("Window"@) =~= "window"@);
    assert(crate::text::lowered("Monitor"@) =~= "monitor"@);
}

/// The hint says to click what the mode takes by a click, and else to drag.
pub proof fn law_hints_fit_the_mode(mode: CaptureMode)
    ensures
        mode == CaptureMode::Window || mode == CaptureMode::Monitor ==> hint_text(mode).subrange(
            8,
            8 + mode.text().len() as int,
        ) == mode.text() && hint_text(mode)[0] == 'C',
        mode == CaptureMode::Region || mode == CaptureMode::All ==> hint_text(mode).subrange(0, 4)
            == "Drag"@ && hint_text(mode).subrange(17, 23) == "region"@,
{
    reveal_strlit("Click a window · or drag out a region · Esc to cancel");
    reveal_strlit("Click a monitor · or drag out a region · Esc to cancel");
    reveal_strlit("Drag to select a region · click a window · Esc to cancel");
    reveal_strlit("window");
    reveal_strlit("monitor");
    reveal_strlit("region");
    reveal_strlit("Drag");
}

} // verus!
