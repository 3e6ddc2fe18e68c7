//! Top-level windows, and hit-testing them for the region-selection overlay.
//!
//! [`WindowInfo::z_order`] is **0 for the frontmost window**, increasing away
//! from the viewer. Platforms disagree, so every backend normalises to this
//! rule and hit-testing only has to implement it once.

use crate::error::CaptureError;
use crate::geometry::{contains_half_open, Rect, Vec2D};
use crate::order::stable_order;
use crate::text::{decimal, is_blank, joined};
use vstd::prelude::*;
use vstd::string::*;

verus! {

/// Backend-assigned window handle. Opaque, and only valid as long as the
/// window lives.
#[derive(Debug, Clone, Copy, PartialEq, Eq, PartialOrd, Ord, Hash, Structural)]
pub struct WindowId(pub u64);

impl WindowId {
    /// How the id is shown to the user.
    pub open spec fn text(self) -> Seq<char> {
        "window#"@ + crate::text::decimal_text(self.0 as nat)
    }

    /// Wrap a backend-native handle.
    pub fn new(raw: u64) -> (id: WindowId)
        ensures
            id.0 == raw,
    {
        WindowId(raw)
    }

    /// The backend-native handle.
    pub fn get(self) -> (raw: u64)
        ensures
            raw == self.0,
    {
        self.0
    }

    /// How the id is shown to the user.
    pub fn describe(self) -> (text: String)
        ensures
            text@ == self.text(),
    {
        joined("window#", decimal(self.0).as_str())
    }
}

/// One top-level window.
#[derive(Debug, Clone, PartialEq)]
pub struct WindowInfo {
    /// Backend handle.
    pub id: WindowId,
    /// Window title as shown in the title bar or task switcher.
    pub title: String,
    /// Owning application, e.g. `firefox`.
    pub app_name: String,
    /// Frame position and size on the virtual desktop, in physical pixels.
    pub bounds: Rect,
    /// Minimised windows have no on-screen pixels and are skipped by
    /// hit-testing.
    pub is_minimized: bool,
    /// Stacking position, `0` = frontmost.
    pub z_order: u32,
}

impl WindowInfo {
    /// The window can contribute pixels.
    pub open spec fn visible(self) -> bool {
        !self.is_minimized && !self.bounds.empty()
    }

    /// The window can contribute the pixel at `point`.
    pub open spec fn shows(self, point: Vec2D) -> bool {
        self.visible() && self.bounds.in_order().owns(point.x as int, point.y as int)
    }

    /// Build a window description.
    pub fn new(
        id: WindowId,
        title: &str,
        app_name: &str,
        bounds: Rect,
        is_minimized: bool,
        z_order: u32,
    ) -> (w: WindowInfo)
        ensures
            w.id == id,
            w.title@ == title@,
            w.app_name@ == app_name@,
            w.bounds == bounds.in_order(),
            w.is_minimized == is_minimized,
            w.z_order == z_order,
    {
        WindowInfo {
            id,
            title: title.to_owned(),
            app_name: app_name.to_owned(),
            bounds: bounds.normalized(),
            is_minimized,
            z_order,
        }
    }

    /// Whether this window can contribute pixels: on screen and non-degenerate.
    pub fn is_visible(&self) -> (yes: bool)
        ensures
            yes == self.visible(),
    {
        !self.is_minimized && !self.bounds.is_empty()
    }

    /// Half-open hit test against the window frame.
    pub fn contains(&self, point: Vec2D) -> (yes: bool)
        ensures
            yes == self.bounds.in_order().owns(point.x as int, point.y as int),
    {
        contains_half_open(self.bounds, point)
    }

    /// What [`WindowInfo::label`] gives.
    pub open spec fn label_text(self) -> Seq<char> {
        if crate::text::blank(self.title@) {
            self.app_name@
        } else {
            self.title@
        }
    }

    /// A short label for pickers: `title` when it has one, else the app name.
    pub fn label(&self) -> (text: &str)
        ensures
            text@ == self.label_text(),
    {
        if is_blank(self.title.as_str()) {
            self.app_name.as_str()
        } else {
            self.title.as_str()
        }
    }
}

/// Window `a` is in front of window `b`: by stacking position, and by place in
/// the list where the positions tie (some window managers give no total order).
pub open spec fn in_front(ws: Seq<WindowInfo>, a: int, b: int) -> bool {
    ws[a].z_order < ws[b].z_order || (ws[a].z_order == ws[b].z_order && a < b)
}

/// `order` lists exactly the windows that `keep` keeps, front to back.
pub open spec fn is_front_to_back(
    order: Seq<int>,
    ws: Seq<WindowInfo>,
    keep: spec_fn(WindowInfo) -> bool,
) -> bool {
    &&& forall|k: int|
        0 <= k < order.len() ==> 0 <= #[trigger] order[k] < ws.len() && keep(ws[order[k]])
    &&& forall|i: int, j: int|
        0 <= i < j < order.len() ==> in_front(ws, #[trigger] order[i], #[trigger] order[j])
    &&& forall|i: int| 0 <= i < ws.len() && keep(#[trigger] ws[i]) ==> order.contains(i)
}

/// `found` are the windows at the places that `order` lists.
pub open spec fn picks(found: Seq<&WindowInfo>, ws: Seq<WindowInfo>, order: Seq<int>) -> bool {
    &&& found.len() == order.len()
    &&& forall|k: int| 0 <= k < order.len() ==> *(#[trigger] found[k]) == ws[order[k]]
}

/// `ws[i]` is the frontmost window that `keep` keeps.
pub open spec fn is_frontmost(
    ws: Seq<WindowInfo>,
    i: int,
    keep: spec_fn(WindowInfo) -> bool,
) -> bool {
    &&& 0 <= i < ws.len()
    &&& keep(ws[i])
    &&& forall|j: int|
        0 <= j < ws.len() && j != i && keep(#[trigger] ws[j]) ==> in_front(ws, i, j)
}

/// No window is kept by `keep`.
pub open spec fn none_kept(ws: Seq<WindowInfo>, keep: spec_fn(WindowInfo) -> bool) -> bool {
    forall|j: int| 0 <= j < ws.len() ==> !keep(#[trigger] ws[j])
}

/// The windows that show `point`.
pub open spec fn showing(point: Vec2D) -> spec_fn(WindowInfo) -> bool {
    |w: WindowInfo| w.shows(point)
}

/// The windows that can contribute pixels.
pub open spec fn seeable() -> spec_fn(WindowInfo) -> bool {
    |w: WindowInfo| w.visible()
}

/// The candidates' places, in the order in which they stand in the list.
spec fn are_candidates(
    places: Seq<usize>,
    ws: Seq<WindowInfo>,
    n: int,
    keep: spec_fn(WindowInfo) -> bool,
) -> bool {
    &&& forall|k: int| 0 <= k < places.len() ==> 0 <= #[trigger] places[k] < n && keep(ws[places[k] as int])
    &&& forall|i: int, j: int| 0 <= i < j < places.len() ==> #[trigger] places[i] < #[trigger] places[j]
    &&& forall|i: int| 0 <= i < n && keep(#[trigger] ws[i]) ==> places.contains(i as usize)
}

proof fn lemma_more_candidates(
    places: Seq<usize>,
    ws: Seq<WindowInfo>,
    n: usize,
    keep: spec_fn(WindowInfo) -> bool,
)
    requires
        n < ws.len(),
        are_candidates(places, ws, n as int, keep),
    ensures
        keep(ws[n as int]) ==> are_candidates(places.push(n), ws, n + 1, keep),
        !keep(ws[n as int]) ==> are_candidates(places, ws, n + 1, keep),
{
    if keep(ws[n as int]) {
        let more = places.push(n);
        assert forall|i: int| 0 <= i < n + 1 && keep(#[trigger] ws[i]) implies more.contains(
            i as usize,
        ) by {
            if i == n {
                assert(more[places.len() as int] == n);
            } else {
                assert(places.contains(i as usize));
                let k = choose|k: int| 0 <= k < places.len() && places[k] == i as usize;
                assert(more[k] == i as usize);
            }
        }
    }
}

/// Put the candidates in order, front to back.
fn front_to_back<'a>(
    windows: &'a [WindowInfo],
    places: Vec<usize>,
    keep: Ghost<spec_fn(WindowInfo) -> bool>,
) -> (found: Vec<&'a WindowInfo>)
    requires
        are_candidates(places@, windows@, windows@.len() as int, keep@),
    ensures
        exists|order: Seq<int>|
            #[trigger] is_front_to_back(order, windows@, keep@) && picks(
                found@,
                windows@,
                order,
            ),
{
    let mut keys: Vec<i64> = Vec::new();
    let mut i: usize = 0;
    while i < places.len()
        invariant
            i <= places@.len(),
            keys@.len() == i,
            are_candidates(places@, windows@, windows@.len() as int, keep@),
            forall|k: int|
                0 <= k < i ==> #[trigger] keys@[k] == windows@[places@[k] as int].z_order,
        decreases places.len() - i,
    {
        keys.push(windows[places[i]].z_order as i64);
        i = i + 1;
    }
    let ranks = stable_order(keys.as_slice());
    assert(windows.len() == windows@.len() && places.len() == places@.len());
    let ghost order = Seq::new(ranks@.len(), |k: int| places@[ranks@[k] as int] as int);
    proof {
        assert forall|i: int, j: int| 0 <= i < j < order.len() implies in_front(
            windows@,
            #[trigger] order[i],
            #[trigger] order[j],
        ) by {
            assert(crate::order::comes_before(keys@, ranks@[i] as int, ranks@[j] as int));
        }
        assert forall|k: int| 0 <= k < order.len() implies 0 <= #[trigger] order[k] < windows@.len()
            && (keep@)(windows@[order[k]]) by {
            assert(0 <= ranks@[k] < places@.len());
            assert(0 <= places@[ranks@[k] as int] < windows@.len());
        }
        assert forall|i: int| 0 <= i < windows@.len() && (keep@)(#[trigger] windows@[i]) implies
            order.contains(i) by {
            assert(places@.contains(i as usize));
            let k = choose|k: int| 0 <= k < places@.len() && places@[k] == i as usize;
            assert(ranks@.contains(k as usize));
            let r = choose|r: int| 0 <= r < ranks@.len() && ranks@[r] == k as usize;
            assert(order[r] == i);
        }
        assert(is_front_to_back(order, windows@, keep@));
    }
    let mut found: Vec<&'a WindowInfo> = Vec::new();
    let mut n: usize = 0;
    while n < ranks.len()
        invariant
            n <= ranks@.len(),
            crate::order::is_stable_order(ranks@, keys@),
            keys@.len() == places@.len(),
            are_candidates(places@, windows@, windows@.len() as int, keep@),
            order == Seq::new(ranks@.len(), |k: int| places@[ranks@[k] as int] as int),
            found@.len() == n,
            forall|k: int| 0 <= k < n ==> *(#[trigger] found@[k]) == windows@[order[k]],
        decreases ranks.len() - n,
    {
        assert(0 <= ranks@[n as int] < places@.len());
        found.push(&windows[places[ranks[n]]]);
        n = n + 1;
    }
    found
}

/// The topmost visible window under `point`, or `None` when the point is over
/// bare desktop.
///
/// Minimised and zero-sized windows are skipped. Among candidates the lowest
/// `z_order` wins; if two windows report the same one, the earlier entry in
/// `windows` wins, so the result is stable across calls.
pub fn window_at(windows: &[WindowInfo], point: Vec2D) -> (found: Option<&WindowInfo>)
    ensures
        match found {
            Some(w) => exists|i: int|
                #[trigger] is_frontmost(windows@, i, showing(point)) && w == windows@[i],
            None => none_kept(windows@, showing(point)),
        },
{
    let mut best: Option<usize> = None;
    let mut i: usize = 0;
    while i < windows.len()
        invariant
            i <= windows@.len(),
            match best {
                Some(b) => b < i && windows@[b as int].shows(point) && forall|j: int|
                    0 <= j < i && j != b && (#[trigger] windows@[j]).shows(point) ==> in_front(
                        windows@,
                        b as int,
                        j,
                    ),
                None => forall|j: int| 0 <= j < i ==> !(#[trigger] windows@[j]).shows(point),
            },
        decreases windows.len() - i,
    {
        if windows[i].is_visible() && windows[i].contains(point) {
            let better = match best {
                Some(b) => windows[i].z_order < windows[b].z_order,
                None => true,
            };
            if better {
                best = Some(i);
            }
        }
        i = i + 1;
    }
    match best {
        Some(b) => {
            assert(is_frontmost(windows@, b as int, showing(point)));
            Some(&windows[b])
        },
        None => None,
    }
}

/// Every visible window under `point`, front to back. Useful for a "pick a
/// window behind this one" affordance.
pub fn windows_at(windows: &[WindowInfo], point: Vec2D) -> (found: Vec<&WindowInfo>)
    ensures
        exists|order: Seq<int>|
            #[trigger] is_front_to_back(order, windows@, showing(point)) && picks(
                found@,
                windows@,
                order,
            ),
{
    let mut places: Vec<usize> = Vec::new();
    let mut i: usize = 0;
    while i < windows.len()
        invariant
            i <= windows@.len(),
            are_candidates(places@, windows@, i as int, showing(point)),
        decreases windows.len() - i,
    {
        proof {
            lemma_more_candidates(places@, windows@, i, showing(point));
        }
        if windows[i].is_visible() && windows[i].contains(point) {
            places.push(i);
        }
        i = i + 1;
    }
    front_to_back(windows, places, Ghost(showing(point)))
}

/// All visible windows, front to back.
pub fn sorted_front_to_back(windows: &[WindowInfo]) -> (found: Vec<&WindowInfo>)
    ensures
        exists|order: Seq<int>|
            #[trigger] is_front_to_back(order, windows@, seeable()) && picks(
                found@,
                windows@,
                order,
            ),
{
    let mut places: Vec<usize> = Vec::new();
    let mut i: usize = 0;
    while i < windows.len()
        invariant
            i <= windows@.len(),
            are_candidates(places@, windows@, i as int, seeable()),
        decreases windows.len() - i,
    {
        proof {
            lemma_more_candidates(places@, windows@, i, seeable());
        }
        if windows[i].is_visible() {
            places.push(i);
        }
        i = i + 1;
    }
    front_to_back(windows, places, Ghost(seeable()))
}

/// The frontmost visible window anywhere, i.e. the likely focused one.
pub fn topmost(windows: &[WindowInfo]) -> (found: Option<&WindowInfo>)
    ensures
        match found {
            Some(w) => exists|i: int|
                #[trigger] is_frontmost(windows@, i, seeable()) && w == windows@[i],
            None => none_kept(windows@, seeable()),
        },
{
    let mut best: Option<usize> = None;
    let mut i: usize = 0;
    while i < windows.len()
        invariant
            i <= windows@.len(),
            match best {
                Some(b) => b < i && windows@[b as int].visible() && forall|j: int|
                    0 <= j < i && j != b && (#[trigger] windows@[j]).visible() ==> in_front(
                        windows@,
                        b as int,
                        j,
                    ),
                None => forall|j: int| 0 <= j < i ==> !(#[trigger] windows@[j]).visible(),
            },
        decreases windows.len() - i,
    {
        if windows[i].is_visible() {
            let better = match best {
                Some(b) => windows[i].z_order < windows[b].z_order,
                None => true,
            };
            if better {
                best = Some(i);
            }
        }
        i = i + 1;
    }
    match best {
        Some(b) => {
            assert(is_frontmost(windows@, b as int, seeable()));
            Some(&windows[b])
        },
        None => None,
    }
}

/// `ws[i]` is the first window with the given id.
pub open spec fn is_first_with_id(ws: Seq<WindowInfo>, i: int, id: WindowId) -> bool {
    &&& 0 <= i < ws.len()
    &&& ws[i].id == id
    &&& forall|j: int| 0 <= j < i ==> (#[trigger] ws[j]).id != id
}

/// No window has the given id.
pub open spec fn no_window(ws: Seq<WindowInfo>, id: WindowId) -> bool {
    forall|j: int| 0 <= j < ws.len() ==> (#[trigger] ws[j]).id != id
}

/// Look a window up by id, or fail with [`CaptureError::NoSuchWindow`].
pub fn require(windows: &[WindowInfo], id: WindowId) -> (result: Result<&WindowInfo, CaptureError>)
    ensures
        match result {
            Ok(w) => exists|i: int| #[trigger] is_first_with_id(windows@, i, id) && w == windows@[i],
            Err(e) => no_window(windows@, id) && e == CaptureError::NoSuchWindow(id),
        },
{
    let mut i: usize = 0;
    while i < windows.len()
        invariant
            i <= windows@.len(),
            forall|j: int| 0 <= j < i ==> (#[trigger] windows@[j]).id != id,
        decreases windows.len() - i,
    {
        if windows[i].id.0 == id.0 {
            assert(is_first_with_id(windows@, i as int, id));
            return Ok(&windows[i]);
        }
        i = i + 1;
    }
    Err(CaptureError::NoSuchWindow(id))
}

/// The window under a point is the first of all windows under it.
pub proof fn law_frontmost_heads_the_list(
    ws: Seq<WindowInfo>,
    i: int,
    order: Seq<int>,
    keep: spec_fn(WindowInfo) -> bool,
)
    requires
        is_frontmost(ws, i, keep),
        is_front_to_back(order, ws, keep),
    ensures
        order.len() > 0,
        order[0] == i,
{
    assert(keep(ws[i]));
    assert(order.contains(i));
    let k = choose|k: int| 0 <= k < order.len() && order[k] == i;
    if k > 0 {
        assert(in_front(ws, order[0], order[k]));
        assert(keep(ws[order[0]]));
    }
}

/// Window `a` is above window `b`: by level, where a larger one is nearer the
/// viewer, and by place in the list where the levels tie.
pub open spec fn is_above(levels: Seq<i64>, a: int, b: int) -> bool {
    levels[a] > levels[b] || (levels[a] == levels[b] && a < b)
}

/// `order` lists every place once, the nearest window first.
pub open spec fn is_stacking(order: Seq<int>, levels: Seq<i64>) -> bool {
    &&& order.len() == levels.len()
    &&& forall|k: int| 0 <= k < order.len() ==> 0 <= #[trigger] order[k] < levels.len()
    &&& forall|i: int, j: int|
        0 <= i < j < order.len() ==> is_above(levels, #[trigger] order[i], #[trigger] order[j])
    &&& forall|i: int| 0 <= i < levels.len() ==> #[trigger] order.contains(i)
}

/// `w` is `of`, at stacking position `z`.
pub open spec fn is_restacked(w: WindowInfo, of: WindowInfo, z: int) -> bool {
    &&& w.id == of.id
    &&& w.title@ == of.title@
    &&& w.app_name@ == of.app_name@
    &&& w.bounds == of.bounds
    &&& w.is_minimized == of.is_minimized
    &&& w.z_order == z
}

/// Put windows in front-to-back order and number them from the front, given
/// each one's level, where larger is nearer the viewer. Windows on one level
/// keep their order.
pub fn restack(windows: &[WindowInfo], levels: &[i64]) -> (out: Vec<WindowInfo>)
    requires
        windows@.len() == levels@.len(),
        windows@.len() <= u32::MAX,
    ensures
        exists|order: Seq<int>| #[trigger]
            is_stacking(order, levels@) && out@.len() == order.len() && forall|k: int|
                0 <= k < out@.len() ==> is_restacked(#[trigger] out@[k], windows@[order[k]], k),
{
    let count: usize = windows.len();
    let mut keys: Vec<i64> = Vec::new();
    let mut i: usize = 0;
    while i < levels.len()
        invariant
            i <= levels@.len(),
            keys@.len() == i,
            forall|k: int| 0 <= k < i ==> #[trigger] keys@[k] == -1 - levels@[k],
        decreases levels.len() - i,
    {
        // Reverses the order, and unlike a negation is total.
        keys.push(-1 - levels[i]);
        i = i + 1;
    }
    let ranks = stable_order(keys.as_slice());
    let ghost order = Seq::new(ranks@.len(), |k: int| ranks@[k] as int);
    proof {
        assert forall|i: int, j: int| 0 <= i < j < order.len() implies is_above(
            levels@,
            #[trigger] order[i],
            #[trigger] order[j],
        ) by {
            assert(crate::order::comes_before(keys@, ranks@[i] as int, ranks@[j] as int));
        }
        assert forall|k: int| 0 <= k < order.len() implies 0 <= #[trigger] order[k]
            < levels@.len() by {
            assert(0 <= ranks@[k] < keys@.len());
        }
        assert forall|i: int| 0 <= i < levels@.len() implies #[trigger] order.contains(i) by {
            assert(ranks@.contains(i as usize));
            let r = choose|r: int| 0 <= r < ranks@.len() && ranks@[r] == i as usize;
            assert(order[r] == i);
        }
        assert(is_stacking(order, levels@));
    }
    let mut out: Vec<WindowInfo> = Vec::new();
    let mut z: usize = 0;
    while z < ranks.len()
        invariant
            z <= ranks@.len(),
            ranks@.len() == windows@.len(),
            windows@.len() <= u32::MAX,
            order == Seq::new(ranks@.len(), |k: int| ranks@[k] as int),
            forall|k: int| 0 <= k < ranks@.len() ==> 0 <= #[trigger] ranks@[k] < windows@.len(),
            out@.len() == z,
            forall|k: int|
                0 <= k < z ==> is_restacked(#[trigger] out@[k], windows@[order[k]], k),
        decreases ranks.len() - z,
    {
        let w = &windows[ranks[z]];
        out.push(
            WindowInfo {
                id: w.id,
                title: w.title.clone(),
                app_name: w.app_name.clone(),
                bounds: w.bounds,
                is_minimized: w.is_minimized,
                z_order: z as u32,
            },
        );
        z = z + 1;
    }
    out
}

/// A window shows a point when it is not minimised and has the point's column
/// and row, counted from its first up to, but not including, the one after its
/// last. A window with no area shows nothing and is not visible.
pub proof fn law_a_window_shows_its_columns_and_rows(w: WindowInfo, point: Vec2D)
    ensures
        w.shows(point) <==> !w.is_minimized && w.bounds.left <= point.x && point.x < w.bounds.right
            && w.bounds.top <= point.y && point.y < w.bounds.bottom,
        w.visible() <==> !w.is_minimized && w.bounds.left < w.bounds.right && w.bounds.top
            < w.bounds.bottom,
        showing(point)(w) == w.shows(point),
        seeable()(w) == w.visible(),
{
}

/// The window that hit-testing finds has the lowest stacking number of all that
/// are kept, and of those with as low a one it is the first in the list.
pub proof fn law_the_frontmost_window_has_the_lowest_number(
    ws: Seq<WindowInfo>,
    i: int,
    j: int,
    keep: spec_fn(WindowInfo) -> bool,
)
    requires
        is_frontmost(ws, i, keep),
        0 <= j < ws.len(),
        keep(ws[j]),
    ensures
        0 <= i < ws.len(),
        keep(ws[i]),
        ws[i].z_order <= ws[j].z_order,
        ws[i].z_order == ws[j].z_order ==> i <= j,
{
    assert(j != i ==> in_front(ws, i, j));
}

/// The windows that are listed come by stacking number, those with one number in
/// the order of the list. Each that is kept is listed once, and no other is.
pub proof fn law_lists_go_from_front_to_back(
    ws: Seq<WindowInfo>,
    found: Seq<&WindowInfo>,
    order: Seq<int>,
    keep: spec_fn(WindowInfo) -> bool,
)
    requires
        is_front_to_back(order, ws, keep),
        picks(found, ws, order),
    ensures
        found.len() == order.len(),
        forall|k: int|
            #![trigger order[k]]
            0 <= k < order.len() ==> 0 <= order[k] < ws.len() && keep(ws[order[k]]) && *found[k]
                == ws[order[k]],
        forall|i: int, j: int|
            0 <= i < j < order.len() ==> {
                let a = #[trigger] order[i];
                let b = #[trigger] order[j];
                &&& ws[a].z_order <= ws[b].z_order
                &&& ws[a].z_order == ws[b].z_order ==> a < b
            },
        forall|i: int|
            #![trigger ws[i]]
            0 <= i < ws.len() && keep(ws[i]) ==> exists|k: int|
                0 <= k < order.len() && #[trigger] order[k] == i,
{
    assert forall|i: int, j: int| 0 <= i < j < order.len() implies {
        let a = #[trigger] order[i];
        let b = #[trigger] order[j];
        &&& ws[a].z_order <= ws[b].z_order
        &&& ws[a].z_order == ws[b].z_order ==> a < b
    } by {
        assert(in_front(ws, order[i], order[j]));
    }
    assert forall|k: int| #![trigger order[k]] 0 <= k < order.len() implies 0 <= order[k]
        < ws.len() && keep(ws[order[k]]) && *found[k] == ws[order[k]] by {
        assert(*found[k] == ws[order[k]]);
    }
    assert forall|i: int| #![trigger ws[i]] 0 <= i < ws.len() && keep(ws[i]) implies exists|k: int|
        0 <= k < order.len() && #[trigger] order[k] == i by {
        assert(order.contains(i));
    }
}

/// Restacked windows come from the highest level down, those on one level in
/// their old order. They are numbered from the front and are otherwise what they
/// were, and every window is among them.
pub proof fn law_restacking_goes_by_level(
    windows: Seq<WindowInfo>,
    levels: Seq<i64>,
    out: Seq<WindowInfo>,
) -> (order: Seq<int>)
    requires
        windows.len() == levels.len(),
        exists|order: Seq<int>| #[trigger]
            is_stacking(order, levels) && out.len() == order.len() && forall|k: int|
                0 <= k < out.len() ==> is_restacked(#[trigger] out[k], windows[order[k]], k),
    ensures
        order.len() == out.len(),
        out.len() == windows.len(),
        forall|k: int|
            #![trigger order[k]]
            0 <= k < out.len() ==> {
                let of = windows[order[k]];
                &&& 0 <= order[k] < windows.len()
                &&& out[k].z_order == k
                &&& out[k].id == of.id
                &&& out[k].title@ == of.title@
                &&& out[k].app_name@ == of.app_name@
                &&& out[k].bounds == of.bounds
                &&& out[k].is_minimized == of.is_minimized
            },
        forall|i: int, j: int|
            0 <= i < j < order.len() ==> {
                let a = #[trigger] order[i];
                let b = #[trigger] order[j];
                &&& levels[a] >= levels[b]
                &&& levels[a] == levels[b] ==> a < b
            },
        forall|i: int| 0 <= i < windows.len() ==> #[trigger] order.contains(i),
{
    let order = choose|order: Seq<int>| #[trigger]
        is_stacking(order, levels) && out.len() == order.len() && forall|k: int|
            0 <= k < out.len() ==> is_restacked(#[trigger] out[k], windows[order[k]], k);
    assert forall|i: int, j: int| 0 <= i < j < order.len() implies {
        let a = #[trigger] order[i];
        let b = #[trigger] order[j];
        &&& levels[a] >= levels[b]
        &&& levels[a] == levels[b] ==> a < b
    } by {
        assert(is_above(levels, order[i], order[j]));
    }
    assert forall|k: int| #![trigger order[k]] 0 <= k < out.len() implies {
        let of = windows[order[k]];
        &&& 0 <= order[k] < windows.len()
        &&& out[k].z_order == k
        &&& out[k].id == of.id
        &&& out[k].title@ == of.title@
        &&& out[k].app_name@ == of.app_name@
        &&& out[k].bounds == of.bounds
        &&& out[k].is_minimized == of.is_minimized
    } by {
        assert(is_restacked(out[k], windows[order[k]], k));
    }
    order
}

/// A window is called by its title if there is more than white space in it, and
/// by its application otherwise.
pub proof fn law_labels_prefer_the_title(w: WindowInfo)
    ensures
        (forall|i: int|
            0 <= i < w.title@.len() ==> crate::text::white_space(#[trigger] w.title@[i]))
            ==> w.label_text() == w.app_name@,
        !(forall|i: int|
            0 <= i < w.title@.len() ==> crate::text::white_space(#[trigger] w.title@[i]))
            ==> w.label_text() == w.title@,
{
}

/// No window has an id exactly when each has another.
pub proof fn law_an_id_is_missing_when_no_window_has_it(ws: Seq<WindowInfo>, id: WindowId, j: int)
    requires
        0 <= j < ws.len(),
    ensures
        ws[j].id == id ==> !no_window(ws, id),
        ws.len() == 1 && ws[j].id != id ==> no_window(ws, id),
{
}

/// Nothing is under a point only where no window shows there.
pub proof fn law_nothing_is_found_only_where_nothing_shows(
    ws: Seq<WindowInfo>,
    keep: spec_fn(WindowInfo) -> bool,
    j: int,
)
    requires
        0 <= j < ws.len(),
    ensures
        keep(ws[j]) ==> !none_kept(ws, keep),
        ws.len() == 1 && !keep(ws[j]) ==> none_kept(ws, keep),
{
}

} // verus!
