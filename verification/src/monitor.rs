//! Monitors and the virtual desktop they form.
//!
//! [`MonitorInfo::bounds`] is always in **physical device pixels** on the
//! virtual desktop, and [`MonitorInfo::scale_factor`] is carried alongside as
//! metadata. A capture *is* physical pixels, and under mixed DPI the logical
//! layout is not a uniform scaling of the physical one: there is no single
//! divisor that turns one plane into the other.

use crate::error::CaptureError;
use crate::geometry::{bounding_box, clamp_region, contains_half_open, Rect, Vec2D};
use crate::single::ScaleFactor;
use crate::text::{decimal, joined};
use vstd::prelude::*;

verus! {

/// Backend-assigned monitor handle.
///
/// Opaque and only meaningful to the backend that produced it, and only until
/// the display configuration changes. Never persist one.
#[derive(Debug, Clone, Copy, PartialEq, Eq, PartialOrd, Ord, Hash, Structural)]
pub struct MonitorId(pub u64);

impl MonitorId {
    /// How the id is shown to the user.
    pub open spec fn text(self) -> Seq<char> {
        "monitor#"@ + crate::text::decimal_text(self.0 as nat)
    }

    /// Wrap a backend-native handle.
    pub fn new(raw: u64) -> (id: MonitorId)
        ensures
            id.0 == raw,
    {
        MonitorId(raw)
    }

    /// The backend-native handle.
    pub fn get(self) -> (raw: u64)
        ensures
            raw == self.0,
    {
        self.0
    }

    /// How the id is shown to the user.
    pub fn describe(self) -> (text: String)
        ensures
            text@ == self.text(),
    {
        joined("monitor#", decimal(self.0).as_str())
    }
}

/// One connected display.
#[derive(Debug, Clone, PartialEq)]
pub struct MonitorInfo {
    /// Backend handle, valid until the display configuration changes.
    pub id: MonitorId,
    /// Human-readable name, e.g. `DP-1`.
    pub name: String,
    /// Position and size on the virtual desktop, in physical pixels. May have a
    /// negative origin when the monitor is left of or above the primary.
    pub bounds: Rect,
    /// Scale of this display.
    pub scale_factor: ScaleFactor,
    /// Whether the system considers this the primary display.
    pub is_primary: bool,
}

impl MonitorInfo {
    /// The edges are in order and the scale is positive.
    pub open spec fn wf(self) -> bool {
        self.bounds.ordered() && self.scale_factor.wf()
    }

    /// The monitor owns the pixel at `point` of the virtual desktop.
    pub open spec fn owns(self, point: Vec2D) -> bool {
        self.bounds.in_order().owns(point.x as int, point.y as int)
    }

    /// The monitor comes before `other` where both could be meant: the primary
    /// one first, then the one with the lowest id.
    pub open spec fn precedes(self, other: MonitorInfo) -> bool {
        if self.is_primary == other.is_primary {
            self.id.0 < other.id.0
        } else {
            self.is_primary
        }
    }

    /// Build a monitor description. `scale_bits` is the single-precision scale
    /// factor; one that is not positive becomes 1.0, so that later divisions
    /// can never blow up.
    pub fn new(id: MonitorId, name: &str, bounds: Rect, scale_bits: u32, is_primary: bool) -> (m:
        MonitorInfo)
        ensures
            m.wf(),
            m.id == id,
            m.name@ == name@,
            m.bounds == bounds.in_order(),
            m.scale_factor == ScaleFactor::sanitized(scale_bits),
            m.is_primary == is_primary,
    {
        MonitorInfo {
            id,
            name: name.to_owned(),
            bounds: bounds.normalized(),
            scale_factor: ScaleFactor::from_bits(scale_bits),
            is_primary,
        }
    }

    /// Top-left corner on the virtual desktop, in physical pixels.
    pub fn origin(&self) -> (corner: Vec2D)
        ensures
            corner == (Vec2D { x: self.bounds.left, y: self.bounds.top }),
    {
        self.bounds.pos()
    }

    /// Size in physical pixels.
    pub fn physical_size(&self) -> (extent: Vec2D)
        ensures
            extent.x == crate::geometry::clip_i64(self.bounds.right - self.bounds.left),
            extent.y == crate::geometry::clip_i64(self.bounds.bottom - self.bounds.top),
    {
        self.bounds.size()
    }

    /// Does this monitor own `point`, given on the virtual desktop? Adjacent
    /// monitors never both claim a seam pixel.
    pub fn contains(&self, point: Vec2D) -> (yes: bool)
        ensures
            yes == self.owns(point),
    {
        contains_half_open(self.bounds, point)
    }

    /// Virtual-desktop point to monitor-local physical point.
    pub fn to_local(&self, virtual_point: Vec2D) -> (local: Vec2D)
        ensures
            local == virtual_point.seen_from(Vec2D { x: self.bounds.left, y: self.bounds.top }),
    {
        virtual_point.minus(self.origin())
    }

    /// Monitor-local physical point to virtual-desktop point.
    pub fn to_virtual(&self, local_point: Vec2D) -> (point: Vec2D)
        ensures
            point == local_point.shifted(Vec2D { x: self.bounds.left, y: self.bounds.top }),
    {
        local_point.plus(self.origin())
    }

    /// A monitor-local rectangle translated onto the virtual desktop and clipped
    /// to this monitor.
    pub fn clamp_local_region(&self, local_rect: Rect) -> (result: Result<Rect, CaptureError>)
        ensures
            crate::geometry::is_clamped(
                result,
                local_rect.moved(Vec2D { x: self.bounds.left, y: self.bounds.top }),
                self.bounds,
            ),
            result matches Ok(r) ==> !r.empty() && self.bounds.covers(r),
    {
        clamp_region(local_rect.translated(self.origin()), self.bounds)
    }

    /// A virtual-desktop rectangle clipped to this monitor.
    pub fn clamp_region(&self, virtual_rect: Rect) -> (result: Result<Rect, CaptureError>)
        ensures
            crate::geometry::is_clamped(result, virtual_rect, self.bounds),
            result matches Ok(r) ==> !r.empty() && self.bounds.covers(r),
    {
        clamp_region(virtual_rect, self.bounds)
    }
}

/// A point on a monitor comes back from its local coordinates.
pub proof fn law_local_coordinates_round_trip(m: MonitorInfo, point: Vec2D)
    requires
        m.owns(point),
        m.bounds.ordered(),
        m.bounds.right - m.bounds.left <= i64::MAX,
        m.bounds.bottom - m.bounds.top <= i64::MAX,
    ensures
        point.seen_from(Vec2D { x: m.bounds.left, y: m.bounds.top }).shifted(
            Vec2D { x: m.bounds.left, y: m.bounds.top },
        ) == point,
{
}

/// `ms[i]` is the first monitor with the given id.
pub open spec fn is_first_with_id(ms: Seq<MonitorInfo>, i: int, id: MonitorId) -> bool {
    &&& 0 <= i < ms.len()
    &&& ms[i].id == id
    &&& forall|j: int| 0 <= j < i ==> (#[trigger] ms[j]).id != id
}

/// No monitor has the given id.
pub open spec fn no_monitor(ms: Seq<MonitorInfo>, id: MonitorId) -> bool {
    forall|j: int| 0 <= j < ms.len() ==> (#[trigger] ms[j]).id != id
}

/// `ms[i]` is the monitor that `point` belongs to.
pub open spec fn is_owner(ms: Seq<MonitorInfo>, i: int, point: Vec2D) -> bool {
    &&& 0 <= i < ms.len()
    &&& ms[i].owns(point)
    &&& forall|j: int|
        0 <= j < ms.len() && (#[trigger] ms[j]).owns(point) ==> !ms[j].precedes(ms[i]) && (j < i
            ==> ms[i].precedes(ms[j]))
}

/// The number of pixels of `rect` on the monitor.
pub open spec fn share(m: MonitorInfo, rect: Rect) -> int {
    rect.within(m.bounds).pixels()
}

/// `ms[i]` is the monitor that `rect` mostly sits on: the largest share first,
/// then as in [`MonitorInfo::precedes`].
pub open spec fn is_home(ms: Seq<MonitorInfo>, i: int, rect: Rect) -> bool {
    &&& 0 <= i < ms.len()
    &&& share(ms[i], rect) > 0
    &&& forall|j: int|
        0 <= j < ms.len() ==> {
            let m = #[trigger] ms[j];
            &&& share(m, rect) <= share(ms[i], rect)
            &&& share(m, rect) == share(ms[i], rect) ==> !m.precedes(ms[i])
            &&& share(m, rect) == share(ms[i], rect) && i < j ==> ms[i].precedes(m)
        }
}

/// The largest scale of the monitors, never below 1.0.
pub open spec fn finest_grid(ms: Seq<MonitorInfo>) -> ScaleFactor
    decreases ms.len(),
{
    if ms.len() == 0 {
        ScaleFactor { bits: crate::single::ONE_BITS }
    } else {
        finest_grid(ms.drop_last()).larger_of(ms.last().scale_factor)
    }
}

/// The places of the monitors.
pub open spec fn places(ms: Seq<MonitorInfo>) -> Seq<Rect> {
    Seq::new(ms.len(), |i: int| ms[i].bounds)
}

/// `b` is the extent of the desktop: the smallest rectangle around all
/// monitors, or the empty one at the origin when there are none.
pub open spec fn is_extent(b: Rect, ms: Seq<MonitorInfo>) -> bool {
    if ms.len() == 0 {
        b == (Rect { left: 0, top: 0, right: 0, bottom: 0 })
    } else {
        crate::geometry::is_bounding_box(b, places(ms)) && b.ordered()
    }
}

/// The set of monitors making up the virtual desktop, plus the layout queries
/// the region-selection overlay needs.
#[derive(Debug, Clone, Default, PartialEq)]
pub struct VirtualDesktop {
    /// The monitors, in backend enumeration order.
    pub monitors: Vec<MonitorInfo>,
}

impl View for VirtualDesktop {
    type V = Seq<MonitorInfo>;

    open spec fn view(&self) -> Seq<MonitorInfo> {
        self.monitors@
    }
}

impl VirtualDesktop {
    /// Take ownership of an enumeration result.
    pub fn new(monitors: Vec<MonitorInfo>) -> (desktop: VirtualDesktop)
        ensures
            desktop@ == monitors@,
    {
        VirtualDesktop { monitors }
    }

    /// The monitors, in backend enumeration order.
    pub fn monitors(&self) -> (ms: &[MonitorInfo])
        ensures
            ms@ == self@,
    {
        self.monitors.as_slice()
    }

    /// No monitors at all: a headless or not-yet-enumerated desktop.
    pub fn is_empty(&self) -> (yes: bool)
        ensures
            yes == (self@.len() == 0),
    {
        self.monitors.len() == 0
    }

    /// How many monitors are attached.
    pub fn len(&self) -> (n: usize)
        ensures
            n == self@.len(),
    {
        self.monitors.len()
    }

    /// Bounding box of every monitor, in physical pixels: the extent of a
    /// full-desktop capture. Empty when there are no monitors.
    pub fn bounds(&self) -> (b: Rect)
        ensures
            is_extent(b, self@),
    {
        let mut rects: Vec<Rect> = Vec::new();
        let mut i: usize = 0;
        while i < self.monitors.len()
            invariant
                i <= self@.len(),
                rects@ =~= places(self@).take(i as int),
            decreases self.monitors.len() - i,
        {
            rects.push(self.monitors[i].bounds);
            i = i + 1;
        }
        assert(rects@ =~= places(self@));
        match bounding_box(rects.as_slice()) {
            Some(b) => b,
            None => Rect::default(),
        }
    }

    /// The primary monitor, falling back to the first enumerated one so that
    /// callers that just need *a* monitor do not have to handle `None` twice.
    pub fn primary(&self) -> (found: Option<&MonitorInfo>)
        ensures
            match found {
                Some(m) => exists|i: int|
                    0 <= i < self@.len() && m == #[trigger] self@[i] && (m.is_primary || i == 0)
                        && (forall|j: int|
                        0 <= j < self@.len() && (#[trigger] self@[j]).is_primary ==> m.is_primary
                            && i <= j),
                None => self@.len() == 0,
            },
    {
        let mut i: usize = 0;
        while i < self.monitors.len()
            invariant
                i <= self@.len(),
                forall|j: int| 0 <= j < i ==> !(#[trigger] self@[j]).is_primary,
            decreases self.monitors.len() - i,
        {
            if self.monitors[i].is_primary {
                assert(self@[i as int].is_primary);
                return Some(&self.monitors[i]);
            }
            i = i + 1;
        }
        if self.monitors.len() == 0 {
            None
        } else {
            assert(self@[0] == self.monitors[0]);
            Some(&self.monitors[0])
        }
    }

    fn position(&self, id: MonitorId) -> (at: Option<usize>)
        ensures
            match at {
                Some(i) => is_first_with_id(self@, i as int, id),
                None => no_monitor(self@, id),
            },
    {
        let mut i: usize = 0;
        while i < self.monitors.len()
            invariant
                i <= self@.len(),
                forall|j: int| 0 <= j < i ==> (#[trigger] self@[j]).id != id,
            decreases self.monitors.len() - i,
        {
            if self.monitors[i].id.0 == id.0 {
                return Some(i);
            }
            i = i + 1;
        }
        None
    }

    /// Look a monitor up by id.
    pub fn get(&self, id: MonitorId) -> (found: Option<&MonitorInfo>)
        ensures
            match found {
                Some(m) => exists|i: int| #[trigger] is_first_with_id(self@, i, id) && m == self@[i],
                None => no_monitor(self@, id),
            },
    {
        match self.position(id) {
            Some(i) => Some(&self.monitors[i]),
            None => None,
        }
    }

    /// Look a monitor up by id, or fail with [`CaptureError::NoSuchMonitor`].
    pub fn require(&self, id: MonitorId) -> (result: Result<&MonitorInfo, CaptureError>)
        ensures
            match result {
                Ok(m) => exists|i: int| #[trigger] is_first_with_id(self@, i, id) && m == self@[i],
                Err(e) => no_monitor(self@, id) && e == CaptureError::NoSuchMonitor(id),
            },
    {
        match self.position(id) {
            Some(i) => Ok(&self.monitors[i]),
            None => Err(CaptureError::NoSuchMonitor(id)),
        }
    }

    /// Which monitor owns a virtual-desktop point?
    ///
    /// A point on the seam between two monitors belongs to the right or lower
    /// one. When monitors genuinely overlap (cloned or misconfigured layouts)
    /// the primary wins, then the lowest id.
    pub fn monitor_at(&self, point: Vec2D) -> (found: Option<&MonitorInfo>)
        ensures
            match found {
                Some(m) => exists|i: int| #[trigger] is_owner(self@, i, point) && m == self@[i],
                None => forall|j: int| 0 <= j < self@.len() ==> !(#[trigger] self@[j]).owns(point),
            },
    {
        let mut best: Option<usize> = None;
        let mut i: usize = 0;
        while i < self.monitors.len()
            invariant
                i <= self@.len(),
                match best {
                    Some(b) => b < i && is_owner(self@.take(i as int), b as int, point),
                    None => forall|j: int| 0 <= j < i ==> !(#[trigger] self@[j]).owns(point),
                },
            decreases self.monitors.len() - i,
        {
            let ghost seen = self@.take(i as int);
            let ghost all = self@.take(i + 1);
            let m = &self.monitors[i];
            if m.contains(point) {
                let better = match best {
                    Some(b) => precedes(m, &self.monitors[b]),
                    None => true,
                };
                if better {
                    best = Some(i);
                }
            }
            proof {
                assert(all[i as int] == self@[i as int]);
                if best is Some {
                    let b = best->Some_0 as int;
                    assert forall|j: int|
                        0 <= j < all.len() && (#[trigger] all[j]).owns(point) implies !all[j].precedes(
                        all[b],
                    ) && (j < b ==> all[b].precedes(all[j])) by {
                        if j < i {
                            assert(all[j] == seen[j]);
                            assert(all[j] == self@[j]);
                        }
                    }
                } else {
                    assert(all =~= seen.push(self@[i as int]));
                }
            }
            i = i + 1;
        }
        assert(self@.take(i as int) =~= self@);
        match best {
            Some(b) => Some(&self.monitors[b]),
            None => None,
        }
    }

    /// The monitor a rectangle mostly sits on: the one with the largest
    /// intersection area, ties broken like [`VirtualDesktop::monitor_at`]. Used
    /// to pick which display's scale factor a dragged region should inherit.
    pub fn monitor_for_region(&self, rect: Rect) -> (found: Option<&MonitorInfo>)
        ensures
            match found {
                Some(m) => exists|i: int| #[trigger] is_home(self@, i, rect) && m == self@[i],
                None => forall|j: int|
                    0 <= j < self@.len() ==> share(#[trigger] self@[j], rect) <= 0,
            },
    {
        let mut best: Option<usize> = None;
        let mut best_area: u128 = 0;
        let mut i: usize = 0;
        while i < self.monitors.len()
            invariant
                i <= self@.len(),
                match best {
                    Some(b) => b < i && is_home(self@.take(i as int), b as int, rect) && best_area
                        == share(self@[b as int], rect),
                    None => forall|j: int| 0 <= j < i ==> share(#[trigger] self@[j], rect) <= 0,
                },
            decreases self.monitors.len() - i,
        {
            let ghost seen = self@.take(i as int);
            let ghost all = self@.take(i + 1);
            let m = &self.monitors[i];
            let area: u128 = rect.clamped_to(m.bounds).area();
            if area > 0 {
                let better = match best {
                    Some(b) => area > best_area || (area == best_area && !precedes(
                        &self.monitors[b],
                        m,
                    )),
                    None => true,
                };
                if better {
                    best = Some(i);
                    best_area = area;
                }
            }
            proof {
                assert(all[i as int] == self@[i as int]);
                assert(area == share(self@[i as int], rect));
                if best is Some {
                    let b = best->Some_0 as int;
                    assert forall|j: int| 0 <= j < all.len() implies {
                        let n = #[trigger] all[j];
                        &&& share(n, rect) <= share(all[b], rect)
                        &&& share(n, rect) == share(all[b], rect) ==> !n.precedes(all[b])
                        &&& share(n, rect) == share(all[b], rect) && b < j ==> all[b].precedes(n)
                    } by {
                        if j < i {
                            assert(all[j] == seen[j]);
                            assert(all[j] == self@[j]);
                        }
                    }
                } else {
                    assert(all =~= seen.push(self@[i as int]));
                }
            }
            i = i + 1;
        }
        assert(self@.take(i as int) =~= self@);
        match best {
            Some(b) => Some(&self.monitors[b]),
            None => None,
        }
    }

    /// Virtual-desktop point to the monitor it is on and the point within that
    /// monitor.
    pub fn to_local(&self, point: Vec2D) -> (found: Option<(&MonitorInfo, Vec2D)>)
        ensures
            match found {
                Some((m, local)) => (exists|i: int|
                    #[trigger] is_owner(self@, i, point) && m == self@[i]) && local
                    == point.seen_from(Vec2D { x: m.bounds.left, y: m.bounds.top }),
                None => forall|j: int| 0 <= j < self@.len() ==> !(#[trigger] self@[j]).owns(point),
            },
    {
        match self.monitor_at(point) {
            Some(m) => Some((m, m.to_local(point))),
            None => None,
        }
    }

    /// Monitor-local physical point to virtual-desktop point.
    pub fn to_virtual(&self, id: MonitorId, local: Vec2D) -> (result: Result<Vec2D, CaptureError>)
        ensures
            match result {
                Ok(point) => exists|i: int|
                    #[trigger] is_first_with_id(self@, i, id) && point == local.shifted(
                        Vec2D { x: self@[i].bounds.left, y: self@[i].bounds.top },
                    ),
                Err(e) => no_monitor(self@, id) && e == CaptureError::NoSuchMonitor(id),
            },
    {
        match self.require(id) {
            Ok(m) => Ok(m.to_virtual(local)),
            Err(e) => Err(e),
        }
    }

    /// Clip a virtual-desktop rectangle to the whole desktop.
    pub fn clamp_region(&self, rect: Rect) -> (result: Result<Rect, CaptureError>)
        ensures
            if self@.len() == 0 {
                result matches Err(e) && e is NoDisplay
            } else {
                forall|b: Rect|
                    is_extent(b, self@) ==> #[trigger] crate::geometry::is_clamped(result, rect, b)
            },
            result matches Ok(r) ==> !r.empty(),
    {
        if self.is_empty() {
            return Err(CaptureError::NoDisplay);
        }
        let extent = self.bounds();
        proof {
            assert forall|b: Rect| is_extent(b, self@) implies b == extent by {
                crate::geometry::law_bounding_box_is_unique(
                    b,
                    extent,
                    places(self@),
                    places(self@),
                );
            }
        }
        clamp_region(rect, extent)
    }

    /// Clip a virtual-desktop rectangle to one monitor.
    pub fn clamp_region_to_monitor(&self, id: MonitorId, rect: Rect) -> (result: Result<
        Rect,
        CaptureError,
    >)
        ensures
            if no_monitor(self@, id) {
                result matches Err(e) && e == CaptureError::NoSuchMonitor(id)
            } else {
                exists|i: int|
                    #[trigger] is_first_with_id(self@, i, id) && crate::geometry::is_clamped(
                        result,
                        rect,
                        self@[i].bounds,
                    )
            },
    {
        match self.require(id) {
            Ok(m) => m.clamp_region(rect),
            Err(e) => Err(e),
        }
    }

    /// The largest scale factor in use, i.e. the finest pixel grid on the
    /// desktop, never below 1.0. Stitched full-desktop frames report this.
    ///
    /// The floor covers an empty desktop, which has no largest anything, and a
    /// backend reporting a factor below 1.0, which would tell a consumer to
    /// *enlarge* a frame that is already in physical pixels.
    pub fn max_scale_factor(&self) -> (scale: ScaleFactor)
        ensures
            scale == finest_grid(self@),
    {
        let mut scale = ScaleFactor::one();
        let mut i: usize = 0;
        while i < self.monitors.len()
            invariant
                i <= self@.len(),
                scale == finest_grid(self@.take(i as int)),
            decreases self.monitors.len() - i,
        {
            assert(self@.take(i + 1).drop_last() =~= self@.take(i as int));
            scale = scale.larger(self.monitors[i].scale_factor);
            i = i + 1;
        }
        assert(self@.take(i as int) =~= self@);
        scale
    }
}

fn precedes(a: &MonitorInfo, b: &MonitorInfo) -> (yes: bool)
    ensures
        yes == a.precedes(*b),
{
    if a.is_primary == b.is_primary {
        a.id.0 < b.id.0
    } else {
        a.is_primary
    }
}

/// No two monitors share an id.
pub open spec fn distinct_ids(ms: Seq<MonitorInfo>) -> bool {
    forall|i: int, j: int|
        0 <= i < ms.len() && 0 <= j < ms.len() && i != j ==> (#[trigger] ms[i]).id != (
        #[trigger] ms[j]).id
}

/// The monitor that owns a point does not depend on the order in which the
/// monitors were enumerated.
pub proof fn law_owner_ignores_enumeration_order(
    a: Seq<MonitorInfo>,
    b: Seq<MonitorInfo>,
    i: int,
    j: int,
    point: Vec2D,
)
    requires
        distinct_ids(a),
        forall|m: MonitorInfo| a.contains(m) <==> b.contains(m),
        is_owner(a, i, point),
        is_owner(b, j, point),
    ensures
        a[i] == b[j],
{
    assert(a.contains(a[i]) && b.contains(b[j]));
    assert(b.contains(a[i]) && a.contains(b[j]));
    let k = choose|k: int| 0 <= k < a.len() && a[k] == b[j];
    let l = choose|l: int| 0 <= l < b.len() && b[l] == a[i];
    assert(!a[k].precedes(a[i]));
    assert(!b[l].precedes(b[j]));
    if k != i {
        assert(a[k].id != a[i].id);
    }
}

/// The monitor that a region mostly sits on does not depend on the order in
/// which the monitors were enumerated.
pub proof fn law_home_ignores_enumeration_order(
    a: Seq<MonitorInfo>,
    b: Seq<MonitorInfo>,
    i: int,
    j: int,
    rect: Rect,
)
    requires
        distinct_ids(a),
        forall|m: MonitorInfo| a.contains(m) <==> b.contains(m),
        is_home(a, i, rect),
        is_home(b, j, rect),
    ensures
        a[i] == b[j],
{
    assert(a.contains(a[i]) && b.contains(b[j]));
    assert(b.contains(a[i]) && a.contains(b[j]));
    let k = choose|k: int| 0 <= k < a.len() && a[k] == b[j];
    let l = choose|l: int| 0 <= l < b.len() && b[l] == a[i];
    assert(share(a[k], rect) == share(a[i], rect));
    assert(!a[k].precedes(a[i]));
    assert(!b[l].precedes(b[j]));
    if k != i {
        assert(a[k].id != a[i].id);
    }
}

/// Where no two monitors overlap, every point belongs to at most one of them.
pub proof fn law_every_point_has_at_most_one_monitor(
    ms: Seq<MonitorInfo>,
    i: int,
    j: int,
    point: Vec2D,
)
    requires
        0 <= i < ms.len(),
        0 <= j < ms.len(),
        i != j,
        ms[i].bounds.in_order().within(ms[j].bounds.in_order()).empty(),
    ensures
        !(ms[i].owns(point) && ms[j].owns(point)),
{
}

/// The finest grid is at least as fine as every monitor's, and as 1.0.
pub proof fn law_finest_grid_is_an_upper_bound(ms: Seq<MonitorInfo>, i: int)
    requires
        0 <= i < ms.len(),
    ensures
        ms[i].scale_factor.bits <= finest_grid(ms).bits,
        crate::single::ONE_BITS <= finest_grid(ms).bits,
    decreases ms.len(),
{
    if i < ms.len() - 1 {
        law_finest_grid_is_an_upper_bound(ms.drop_last(), i);
    } else {
        lemma_finest_grid_floor(ms.drop_last());
    }
}

proof fn lemma_finest_grid_floor(ms: Seq<MonitorInfo>)
    ensures
        crate::single::ONE_BITS <= finest_grid(ms).bits,
    decreases ms.len(),
{
    if ms.len() > 0 {
        lemma_finest_grid_floor(ms.drop_last());
    }
}

/// The monitor at a point, in plain numbers: it has the point's column and row,
/// counted from its first up to, but not including, the one after its last. Of
/// several it is a primary one if any is, then the one with the lowest id, then
/// the first.
pub proof fn law_the_monitor_at_a_point(ms: Seq<MonitorInfo>, i: int, j: int, point: Vec2D)
    requires
        is_owner(ms, i, point),
        0 <= j < ms.len(),
        ms[i].bounds.left <= ms[i].bounds.right && ms[i].bounds.top <= ms[i].bounds.bottom,
        ms[j].bounds.left <= point.x && point.x < ms[j].bounds.right,
        ms[j].bounds.top <= point.y && point.y < ms[j].bounds.bottom,
    ensures
        ms[i].bounds.left <= point.x && point.x < ms[i].bounds.right,
        ms[i].bounds.top <= point.y && point.y < ms[i].bounds.bottom,
        ms[j].is_primary ==> ms[i].is_primary,
        ms[j].is_primary == ms[i].is_primary ==> ms[i].id.0 <= ms[j].id.0,
        ms[j].is_primary == ms[i].is_primary && ms[i].id.0 == ms[j].id.0 ==> i <= j,
{
    assert(ms[j].owns(point));
}

/// A monitor owns the points from its first column and row up to, but not
/// including, the ones after its last.
pub proof fn law_a_monitor_owns_its_columns_and_rows(m: MonitorInfo, point: Vec2D)
    requires
        m.bounds.left <= m.bounds.right,
        m.bounds.top <= m.bounds.bottom,
    ensures
        m.owns(point) <==> m.bounds.left <= point.x && point.x < m.bounds.right && m.bounds.top
            <= point.y && point.y < m.bounds.bottom,
{
}

/// A monitor's share of a region is the area of their overlap.
pub proof fn law_a_share_is_the_area_of_the_overlap(m: MonitorInfo, rect: Rect)
    ensures
        ({
            let left = if rect.left < m.bounds.left {
                m.bounds.left
            } else {
                rect.left
            };
            let right = if rect.right > m.bounds.right {
                m.bounds.right
            } else {
                rect.right
            };
            let top = if rect.top < m.bounds.top {
                m.bounds.top
            } else {
                rect.top
            };
            let bottom = if rect.bottom > m.bounds.bottom {
                m.bounds.bottom
            } else {
                rect.bottom
            };
            share(m, rect) == (if left < right && top < bottom {
                (right - left) * (bottom - top)
            } else {
                0
            })
        }),
{
}

/// The monitor that a region mostly sits on: none has a larger share, and of
/// those with as large a one it is a primary one if any is, then the one with
/// the lowest id, then the last.
pub proof fn law_the_monitor_of_a_region(ms: Seq<MonitorInfo>, i: int, j: int, rect: Rect)
    requires
        is_home(ms, i, rect),
        0 <= j < ms.len(),
    ensures
        0 <= i < ms.len(),
        0 < share(ms[i], rect),
        share(ms[j], rect) <= share(ms[i], rect),
        share(ms[j], rect) == share(ms[i], rect) ==> {
            &&& ms[j].is_primary ==> ms[i].is_primary
            &&& ms[j].is_primary == ms[i].is_primary ==> ms[i].id.0 <= ms[j].id.0
            &&& ms[j].is_primary == ms[i].is_primary && ms[i].id.0 == ms[j].id.0 ==> j <= i
        },
{
    assert(share(ms[j], rect) <= share(ms[i], rect));
}

/// The finest grid is 1.0 or one of the monitors'.
pub proof fn law_the_finest_grid_is_in_use(ms: Seq<MonitorInfo>)
    ensures
        finest_grid(ms).bits == 0x3f80_0000 || exists|i: int|
            0 <= i < ms.len() && (#[trigger] ms[i]).scale_factor == finest_grid(ms),
    decreases ms.len(),
{
    if ms.len() > 0 {
        let rest = ms.drop_last();
        law_the_finest_grid_is_in_use(rest);
        if finest_grid(ms).bits != 0x3f80_0000 {
            if finest_grid(ms) == finest_grid(rest) {
                let i = choose|i: int|
                    0 <= i < rest.len() && (#[trigger] rest[i]).scale_factor == finest_grid(rest);
                assert(ms[i] == rest[i]);
            } else {
                assert(ms[ms.len() - 1].scale_factor == finest_grid(ms));
            }
        }
    }
}

/// The desktop reaches to the outermost edges of its monitors and no further,
/// and a desktop without monitors is empty and at the origin.
pub proof fn law_the_desktop_reaches_its_monitors(ms: Seq<MonitorInfo>, b: Rect)
    requires
        is_extent(b, ms),
        forall|i: int|
            0 <= i < ms.len() ==> (#[trigger] ms[i]).bounds.left <= ms[i].bounds.right
                && ms[i].bounds.top <= ms[i].bounds.bottom,
    ensures
        ms.len() == 0 ==> b.left == 0 && b.top == 0 && b.right == 0 && b.bottom == 0,
        forall|i: int|
            #![trigger ms[i]]
            0 <= i < ms.len() ==> b.left <= ms[i].bounds.left && b.top <= ms[i].bounds.top
                && ms[i].bounds.right <= b.right && ms[i].bounds.bottom <= b.bottom,
        ms.len() > 0 ==> exists|i: int|
            0 <= i < ms.len() && (#[trigger] ms[i]).bounds.left == b.left,
        ms.len() > 0 ==> exists|i: int|
            0 <= i < ms.len() && (#[trigger] ms[i]).bounds.top == b.top,
        ms.len() > 0 ==> exists|i: int|
            0 <= i < ms.len() && (#[trigger] ms[i]).bounds.right == b.right,
        ms.len() > 0 ==> exists|i: int|
            0 <= i < ms.len() && (#[trigger] ms[i]).bounds.bottom == b.bottom,
{
    let rects = places(ms);
    if ms.len() > 0 {
        assert forall|i: int| #![trigger ms[i]] 0 <= i < ms.len() implies b.left
            <= ms[i].bounds.left && b.top <= ms[i].bounds.top && ms[i].bounds.right <= b.right
            && ms[i].bounds.bottom <= b.bottom by {
            assert(b.covers(rects[i].in_order()));
        }
        let l = choose|k: int|
            0 <= k < rects.len() && (#[trigger] rects[k]).in_order().left == b.left;
        let t = choose|k: int|
            0 <= k < rects.len() && (#[trigger] rects[k]).in_order().top == b.top;
        let e = choose|k: int|
            0 <= k < rects.len() && (#[trigger] rects[k]).in_order().right == b.right;
        let m = choose|k: int|
            0 <= k < rects.len() && (#[trigger] rects[k]).in_order().bottom == b.bottom;
        assert(ms[l].bounds.left == b.left && ms[t].bounds.top == b.top && ms[e].bounds.right
            == b.right && ms[m].bounds.bottom == b.bottom);
    }
}

/// Which of two monitors comes first: the primary one, else the one with the
/// lower id, and never both.
pub proof fn law_monitors_have_an_order(a: MonitorInfo, b: MonitorInfo)
    ensures
        a.is_primary && !b.is_primary ==> a.precedes(b) && !b.precedes(a),
        a.is_primary == b.is_primary && a.id.0 < b.id.0 ==> a.precedes(b) && !b.precedes(a),
        a.is_primary == b.is_primary && a.id == b.id ==> !a.precedes(b) && !b.precedes(a),
{
}

/// A monitor that alone owns a point is the owner, wherever it is listed.
pub proof fn law_a_lone_monitor_is_the_owner(ms: Seq<MonitorInfo>, i: int, point: Vec2D)
    requires
        0 <= i < ms.len(),
        ms[i].owns(point),
        forall|j: int| 0 <= j < ms.len() && j != i ==> !(#[trigger] ms[j]).owns(point),
    ensures
        is_owner(ms, i, point),
{
}

} // verus!
