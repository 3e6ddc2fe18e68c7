//! Geometry shared by every backend.
//!
//! Two conventions are fixed here and relied on everywhere else:
//!
//! * **Half-open containment.** A rectangle owns the pixels in `[left, right) x
//!   [top, bottom)`, so two side-by-side monitors never both claim the column
//!   of pixels on their shared edge.
//! * **Physical pixels.** Every rectangle is in whole physical device pixels.
//!   Coordinates that arrive as single-precision numbers are snapped to the
//!   grid by [`PixelRect::from_edges`].

use crate::error::CaptureError;
use crate::single::snap;
use crate::text::{hexadecimal, joined, signed_decimal};
use vstd::prelude::*;
use vstd::string::*;

verus! {

/// `n` limited to the range of `i64`.
pub open spec fn clip_i64(n: int) -> int {
    if n < i64::MIN {
        i64::MIN as int
    } else if n > i64::MAX {
        i64::MAX as int
    } else {
        n
    }
}

/// `n` limited to the range of `i32`.
pub open spec fn clip_i32(n: int) -> int {
    if n < i32::MIN {
        i32::MIN as int
    } else if n > i32::MAX {
        i32::MAX as int
    } else {
        n
    }
}

/// The smaller of two numbers.
pub open spec fn least(a: int, b: int) -> int {
    if b < a {
        b
    } else {
        a
    }
}

/// The larger of two numbers.
pub open spec fn greatest(a: int, b: int) -> int {
    if b > a {
        b
    } else {
        a
    }
}

/// The smaller of two coordinates.
pub fn min_i64(a: i64, b: i64) -> (m: i64)
    ensures
        m == least(a as int, b as int),
{
    if b < a {
        b
    } else {
        a
    }
}

/// The larger of two coordinates.
pub fn max_i64(a: i64, b: i64) -> (m: i64)
    ensures
        m == greatest(a as int, b as int),
{
    if b > a {
        b
    } else {
        a
    }
}

fn clipped_sum(a: i64, b: i64) -> (sum: i64)
    ensures
        sum == clip_i64(a + b),
{
    let exact: i128 = a as i128 + b as i128;
    if exact < i64::MIN as i128 {
        i64::MIN
    } else if exact > i64::MAX as i128 {
        i64::MAX
    } else {
        exact as i64
    }
}

fn clipped_difference(a: i64, b: i64) -> (difference: i64)
    ensures
        difference == clip_i64(a - b),
{
    let exact: i128 = a as i128 - b as i128;
    if exact < i64::MIN as i128 {
        i64::MIN
    } else if exact > i64::MAX as i128 {
        i64::MAX
    } else {
        exact as i64
    }
}

/// `n` limited to the range of `i32`.
pub fn clip_to_i32(n: i64) -> (clipped: i32)
    ensures
        clipped == clip_i32(n as int),
{
    if n < i32::MIN as i64 {
        i32::MIN
    } else if n > i32::MAX as i64 {
        i32::MAX
    } else {
        n as i32
    }
}

/// A point or an extent, in physical pixels.
#[derive(Debug, Clone, Copy, PartialEq, Eq, Hash, Structural)]
pub struct Vec2D {
    /// Horizontal component.
    pub x: i64,
    /// Vertical component.
    pub y: i64,
}

impl Vec2D {
    /// Construct from components.
    pub fn new(x: i64, y: i64) -> (v: Vec2D)
        ensures
            v == (Vec2D { x, y }),
    {
        Vec2D { x, y }
    }

    /// The componentwise sum, limited to the range of the coordinates.
    pub open spec fn shifted(self, by: Vec2D) -> Vec2D {
        Vec2D { x: clip_i64(self.x + by.x) as i64, y: clip_i64(self.y + by.y) as i64 }
    }

    /// The componentwise difference, limited to the range of the coordinates.
    pub open spec fn seen_from(self, origin: Vec2D) -> Vec2D {
        Vec2D { x: clip_i64(self.x - origin.x) as i64, y: clip_i64(self.y - origin.y) as i64 }
    }

    /// The componentwise sum.
    pub fn plus(self, by: Vec2D) -> (v: Vec2D)
        ensures
            v == self.shifted(by),
    {
        Vec2D { x: clipped_sum(self.x, by.x), y: clipped_sum(self.y, by.y) }
    }

    /// The componentwise difference.
    pub fn minus(self, origin: Vec2D) -> (v: Vec2D)
        ensures
            v == self.seen_from(origin),
    {
        Vec2D { x: clipped_difference(self.x, origin.x), y: clipped_difference(self.y, origin.y) }
    }
}

/// A rectangle, given by its four edges in physical pixels. The right and
/// bottom edges are exclusive.
#[derive(Debug, Clone, Copy, PartialEq, Eq, Hash, Structural)]
pub struct Rect {
    /// The first column.
    pub left: i64,
    /// The first row.
    pub top: i64,
    /// The column after the last one.
    pub right: i64,
    /// The row after the last one.
    pub bottom: i64,
}

impl Rect {
    /// The edges are in order: the rectangle has no negative extent.
    pub open spec fn ordered(self) -> bool {
        self.left <= self.right && self.top <= self.bottom
    }

    /// The rectangle owns no pixel.
    pub open spec fn empty(self) -> bool {
        self.right <= self.left || self.bottom <= self.top
    }

    /// The rectangle owns the pixel at `(x, y)`.
    pub open spec fn owns(self, x: int, y: int) -> bool {
        self.left <= x < self.right && self.top <= y < self.bottom
    }

    /// Every pixel of `other` is a pixel of this rectangle.
    pub open spec fn covers(self, other: Rect) -> bool {
        self.left <= other.left && self.top <= other.top && other.right <= self.right
            && other.bottom <= self.bottom
    }

    /// The same rectangle with its edges in order.
    pub open spec fn in_order(self) -> Rect {
        Rect {
            left: least(self.left as int, self.right as int) as i64,
            top: least(self.top as int, self.bottom as int) as i64,
            right: greatest(self.left as int, self.right as int) as i64,
            bottom: greatest(self.top as int, self.bottom as int) as i64,
        }
    }

    /// The part of this rectangle inside `bounds`. It is empty, and sits at the
    /// place where the part would begin, when the two do not overlap.
    pub open spec fn within(self, bounds: Rect) -> Rect {
        let left = greatest(self.left as int, bounds.left as int);
        let top = greatest(self.top as int, bounds.top as int);
        Rect {
            left: left as i64,
            top: top as i64,
            right: greatest(left, least(self.right as int, bounds.right as int)) as i64,
            bottom: greatest(top, least(self.bottom as int, bounds.bottom as int)) as i64,
        }
    }

    /// The number of pixels.
    pub open spec fn pixels(self) -> int {
        if self.empty() {
            0
        } else {
            (self.right - self.left) * (self.bottom - self.top)
        }
    }

    /// The rectangle moved by `by`.
    pub open spec fn moved(self, by: Vec2D) -> Rect {
        Rect {
            left: clip_i64(self.left + by.x) as i64,
            top: clip_i64(self.top + by.y) as i64,
            right: clip_i64(self.right + by.x) as i64,
            bottom: clip_i64(self.bottom + by.y) as i64,
        }
    }

    /// A rectangle from its top-left corner and its extent. A negative extent
    /// reaches to the left or upwards.
    pub fn from_xywh(x: i64, y: i64, width: i64, height: i64) -> (r: Rect)
        ensures
            r.left == x,
            r.top == y,
            r.right == clip_i64(x + width),
            r.bottom == clip_i64(y + height),
    {
        Rect { left: x, top: y, right: clipped_sum(x, width), bottom: clipped_sum(y, height) }
    }

    /// The rectangle between two opposite corners.
    pub fn from_corners(a: Vec2D, b: Vec2D) -> (r: Rect)
        ensures
            r == (Rect { left: a.x, top: a.y, right: b.x, bottom: b.y }).in_order(),
            r.ordered(),
    {
        Rect {
            left: min_i64(a.x, b.x),
            top: min_i64(a.y, b.y),
            right: max_i64(a.x, b.x),
            bottom: max_i64(a.y, b.y),
        }
    }

    /// The same rectangle with its edges in order.
    pub fn normalized(self) -> (r: Rect)
        ensures
            r == self.in_order(),
            r.ordered(),
    {
        Rect {
            left: min_i64(self.left, self.right),
            top: min_i64(self.top, self.bottom),
            right: max_i64(self.left, self.right),
            bottom: max_i64(self.top, self.bottom),
        }
    }

    /// The rectangle owns no pixel.
    pub fn is_empty(self) -> (yes: bool)
        ensures
            yes == self.empty(),
    {
        self.right <= self.left || self.bottom <= self.top
    }

    /// The part of this rectangle inside `bounds`.
    pub fn clamped_to(self, bounds: Rect) -> (r: Rect)
        ensures
            r == self.within(bounds),
            r.ordered(),
    {
        let left: i64 = max_i64(self.left, bounds.left);
        let top: i64 = max_i64(self.top, bounds.top);
        Rect {
            left,
            top,
            right: max_i64(left, min_i64(self.right, bounds.right)),
            bottom: max_i64(top, min_i64(self.bottom, bounds.bottom)),
        }
    }

    /// The rectangle moved by `by`.
    pub fn translated(self, by: Vec2D) -> (r: Rect)
        ensures
            r == self.moved(by),
    {
        Rect {
            left: clipped_sum(self.left, by.x),
            top: clipped_sum(self.top, by.y),
            right: clipped_sum(self.right, by.x),
            bottom: clipped_sum(self.bottom, by.y),
        }
    }

    /// The horizontal extent; zero or negative when there is none.
    pub fn width(self) -> (w: i128)
        ensures
            w == self.right - self.left,
    {
        self.right as i128 - self.left as i128
    }

    /// The vertical extent; zero or negative when there is none.
    pub fn height(self) -> (h: i128)
        ensures
            h == self.bottom - self.top,
    {
        self.bottom as i128 - self.top as i128
    }

    /// The number of pixels.
    pub fn area(self) -> (pixels: u128)
        ensures
            pixels == self.pixels(),
    {
        if self.is_empty() {
            0
        } else {
            let w: u128 = self.width() as u128;
            let h: u128 = self.height() as u128;
            assert(w * h <= 0xffff_ffff_ffff_ffff * 0xffff_ffff_ffff_ffff) by (nonlinear_arith)
                requires
                    w <= 0xffff_ffff_ffff_ffff,
                    h <= 0xffff_ffff_ffff_ffff,
            ;
            w * h
        }
    }

    /// The top-left corner.
    pub fn pos(self) -> (corner: Vec2D)
        ensures
            corner == (Vec2D { x: self.left, y: self.top }),
    {
        Vec2D { x: self.left, y: self.top }
    }

    /// Is the point in the rectangle, all four edges counted in? Two rectangles
    /// side by side both contain their shared edge, so this does not tell which
    /// of them owns a pixel; [`contains_half_open`] does.
    pub fn contains(self, point: Vec2D) -> (yes: bool)
        ensures
            yes == ({
                let r = self.in_order();
                r.left <= point.x <= r.right && r.top <= point.y <= r.bottom
            }),
    {
        let r = self.normalized();
        r.left <= point.x && point.x <= r.right && r.top <= point.y && point.y <= r.bottom
    }

    /// The extent, limited to the range of the coordinates.
    pub fn size(self) -> (extent: Vec2D)
        ensures
            extent.x == clip_i64(self.right - self.left),
            extent.y == clip_i64(self.bottom - self.top),
    {
        Vec2D {
            x: clipped_difference(self.right, self.left),
            y: clipped_difference(self.bottom, self.top),
        }
    }
}

impl Default for Rect {
    /// The empty rectangle at the origin.
    fn default() -> (r: Rect)
        ensures
            r == (Rect { left: 0, top: 0, right: 0, bottom: 0 }),
    {
        Rect { left: 0, top: 0, right: 0, bottom: 0 }
    }
}

/// Does `rect` own the pixel at `point`?
///
/// A 1920-wide monitor at x=0 owns columns 0..=1919, and x=1920 belongs to
/// whatever sits to its right.
pub fn contains_half_open(rect: Rect, point: Vec2D) -> (yes: bool)
    ensures
        yes == rect.in_order().owns(point.x as int, point.y as int),
{
    let r = rect.normalized();
    point.x >= r.left && point.x < r.right && point.y >= r.top && point.y < r.bottom
}

/// `b` is the smallest rectangle that covers every one of `rects`: it covers
/// each, and each of its edges is an edge of one of them.
pub open spec fn is_bounding_box(b: Rect, rects: Seq<Rect>) -> bool {
    &&& rects.len() > 0
    &&& forall|i: int| 0 <= i < rects.len() ==> b.covers(#[trigger] rects[i].in_order())
    &&& exists|i: int| 0 <= i < rects.len() && (#[trigger] rects[i]).in_order().left == b.left
    &&& exists|i: int| 0 <= i < rects.len() && (#[trigger] rects[i]).in_order().top == b.top
    &&& exists|i: int| 0 <= i < rects.len() && (#[trigger] rects[i]).in_order().right == b.right
    &&& exists|i: int|
        0 <= i < rects.len() && (#[trigger] rects[i]).in_order().bottom == b.bottom
}

/// Smallest rectangle covering all of `rects`, or `None` when there is none.
///
/// Empty rectangles still contribute their position, which matters for
/// disabled-but-present monitors reported at a real origin with a zero size.
pub fn bounding_box(rects: &[Rect]) -> (b: Option<Rect>)
    ensures
        match b {
            Some(b) => is_bounding_box(b, rects@) && b.ordered(),
            None => rects@.len() == 0,
        },
{
    if rects.len() == 0 {
        return None;
    }
    let mut b = rects[0].normalized();
    let mut i: usize = 1;
    assert(is_bounding_box(b, rects@.take(1))) by {
        assert(rects@.take(1)[0] == rects@[0]);
    }
    while i < rects.len()
        invariant
            1 <= i <= rects@.len(),
            is_bounding_box(b, rects@.take(i as int)),
            b.ordered(),
        decreases rects.len() - i,
    {
        let r = rects[i].normalized();
        let grown = Rect {
            left: min_i64(b.left, r.left),
            top: min_i64(b.top, r.top),
            right: max_i64(b.right, r.right),
            bottom: max_i64(b.bottom, r.bottom),
        };
        proof {
            lemma_bounding_box_grows(b, rects@.take(i as int), rects@[i as int], grown);
            assert(rects@.take(i as int).push(rects@[i as int]) =~= rects@.take(i + 1));
        }
        b = grown;
        i = i + 1;
    }
    assert(rects@.take(i as int) =~= rects@);
    Some(b)
}

/// One more rectangle widens the box where it reaches further.
pub proof fn lemma_bounding_box_grows(b: Rect, rects: Seq<Rect>, r: Rect, grown: Rect)
    requires
        is_bounding_box(b, rects),
        grown.left == least(b.left as int, r.in_order().left as int),
        grown.top == least(b.top as int, r.in_order().top as int),
        grown.right == greatest(b.right as int, r.in_order().right as int),
        grown.bottom == greatest(b.bottom as int, r.in_order().bottom as int),
    ensures
        is_bounding_box(grown, rects.push(r)),
{
    let all = rects.push(r);
    let n = rects.len() as int;
    assert(all[n] == r);
    assert forall|i: int| 0 <= i < all.len() implies grown.covers(
        #[trigger] all[i].in_order(),
    ) by {
        if i < n {
            assert(all[i] == rects[i]);
            assert(b.covers(rects[i].in_order()));
        }
    }
    let l = choose|i: int| 0 <= i < n && (#[trigger] rects[i]).in_order().left == b.left;
    let t = choose|i: int| 0 <= i < n && (#[trigger] rects[i]).in_order().top == b.top;
    let e = choose|i: int| 0 <= i < n && (#[trigger] rects[i]).in_order().right == b.right;
    let m = choose|i: int| 0 <= i < n && (#[trigger] rects[i]).in_order().bottom == b.bottom;
    assert(all[l] == rects[l] && all[t] == rects[t] && all[e] == rects[e] && all[m] == rects[m]);
}

/// A bounding box is determined by what it bounds, and by nothing else, such as
/// the order in which the rectangles are given.
pub proof fn law_bounding_box_is_unique(a: Rect, b: Rect, rects: Seq<Rect>, others: Seq<Rect>)
    requires
        is_bounding_box(a, rects),
        is_bounding_box(b, others),
        forall|r: Rect| rects.contains(r) <==> others.contains(r),
    ensures
        a == b,
{
    assert forall|i: int| 0 <= i < rects.len() implies b.covers(
        #[trigger] rects[i].in_order(),
    ) by {
        assert(rects.contains(rects[i]));
        let j = choose|j: int| 0 <= j < others.len() && others[j] == rects[i];
        assert(b.covers(others[j].in_order()));
    }
    assert forall|i: int| 0 <= i < others.len() implies a.covers(
        #[trigger] others[i].in_order(),
    ) by {
        assert(others.contains(others[i]));
        let j = choose|j: int| 0 <= j < rects.len() && rects[j] == others[i];
        assert(a.covers(rects[j].in_order()));
    }
}

/// Two rectangles that share no area never both own a pixel; in particular two
/// monitors side by side never both own a pixel on the seam.
pub proof fn law_disjoint_rects_share_no_pixel(a: Rect, b: Rect, x: int, y: int)
    requires
        a.right <= b.left || b.right <= a.left || a.bottom <= b.top || b.bottom <= a.top,
    ensures
        !(a.owns(x, y) && b.owns(x, y)),
{
}

/// `rect.within(bounds)` owns exactly the pixels that both own.
pub proof fn law_clipping_intersects(rect: Rect, bounds: Rect, x: int, y: int)
    ensures
        rect.within(bounds).owns(x, y) <==> rect.owns(x, y) && bounds.owns(x, y),
{
}

/// What clipping a request to an area gives: `Ok` with the common part when
/// there is one.
pub open spec fn is_clamped(result: Result<Rect, CaptureError>, requested: Rect, bounds: Rect) -> bool {
    let clipped = requested.in_order().within(bounds);
    if clipped.empty() {
        result matches Err(e) && e is EmptyRegion
    } else {
        result matches Ok(r) && r == clipped
    }
}

/// Clip `requested` to `bounds`.
///
/// Returns [`CaptureError::EmptyRegion`] when the request is degenerate or does
/// not overlap `bounds` at all: the caller asked for something that cannot
/// produce pixels, and silently returning nothing would be worse than an error.
pub fn clamp_region(requested: Rect, bounds: Rect) -> (result: Result<Rect, CaptureError>)
    ensures
        is_clamped(result, requested, bounds),
        result matches Ok(r) ==> !r.empty() && bounds.covers(r),
{
    let requested = requested.normalized();
    if requested.is_empty() {
        return Err(CaptureError::EmptyRegion);
    }
    let clipped = requested.clamped_to(bounds);
    if clipped.is_empty() {
        return Err(CaptureError::EmptyRegion);
    }
    Ok(clipped)
}

/// Where on the grid a finite single-precision edge lies: at the nearest pixel,
/// or at the end of the grid where it is beyond that.
pub open spec fn edge_pixel(bits: u32) -> i64 {
    if crate::single::fits_grid(bits) {
        crate::single::snapped(bits) as i64
    } else if crate::single::is_negative(bits) {
        i32::MIN as i64
    } else {
        i32::MAX as i64
    }
}

fn pixel_of_edge(bits: u32) -> (pixel: i64)
    requires
        crate::single::is_finite(bits),
    ensures
        pixel == edge_pixel(bits),
{
    match snap(bits) {
        Some(pixel) => pixel as i64,
        None => if bits >= 0x8000_0000 {
            i32::MIN as i64
        } else {
            i32::MAX as i64
        },
    }
}

/// Clip a request with single-precision edges, given as bit patterns, to
/// `bounds`.
///
/// A request with an edge that is no finite number gives
/// [`CaptureError::EmptyRegion`]: clipping it to the desktop would make it the
/// entire desktop, which is far more than was asked for.
pub fn clamp_edges(left: u32, top: u32, right: u32, bottom: u32, bounds: Rect) -> (result: Result<
    Rect,
    CaptureError,
>)
    ensures
        if crate::single::is_finite(left) && crate::single::is_finite(top)
            && crate::single::is_finite(right) && crate::single::is_finite(bottom) {
            is_clamped(
                result,
                Rect {
                    left: edge_pixel(left),
                    top: edge_pixel(top),
                    right: edge_pixel(right),
                    bottom: edge_pixel(bottom),
                },
                bounds,
            )
        } else {
            result matches Err(e) && e is EmptyRegion
        },
{
    if !finite(left) || !finite(top) || !finite(right) || !finite(bottom) {
        return Err(CaptureError::EmptyRegion);
    }
    clamp_region(
        Rect {
            left: pixel_of_edge(left),
            top: pixel_of_edge(top),
            right: pixel_of_edge(right),
            bottom: pixel_of_edge(bottom),
        },
        bounds,
    )
}

/// A pixel rectangle as a backend asks the system for it.
#[derive(Debug, Clone, Copy, PartialEq, Eq, Hash, Structural)]
pub struct PixelRect {
    /// Left edge, may be negative on a multi-monitor virtual desktop.
    pub x: i32,
    /// Top edge, may be negative on a multi-monitor virtual desktop.
    pub y: i32,
    /// Width in physical pixels.
    pub width: u32,
    /// Height in physical pixels.
    pub height: u32,
}

/// A coordinate that the pixel grid can hold. The far end, `2^31`, stands for
/// the last coordinate.
pub open spec fn on_grid(edge: int) -> bool {
    -0x8000_0000 <= edge <= 0x8000_0000
}

/// Larger in some direction than the grid of `i32` coordinates can measure.
pub open spec fn spans_too_far(left: int, top: int, right: int, bottom: int) -> bool {
    right - left > i32::MAX || bottom - top > i32::MAX
}

/// An edge of `r` is beyond the pixel grid, or `r` is too large for it.
pub open spec fn off_grid(r: Rect) -> bool {
    ||| !on_grid(r.left as int)
    ||| !on_grid(r.top as int)
    ||| !on_grid(r.right as int)
    ||| !on_grid(r.bottom as int)
    ||| spans_too_far(
        clip_i32(r.left as int),
        clip_i32(r.top as int),
        clip_i32(r.right as int),
        clip_i32(r.bottom as int),
    )
}

/// Four edges, written out.
pub open spec fn edges_text(
    left: Seq<char>,
    top: Seq<char>,
    right: Seq<char>,
    bottom: Seq<char>,
) -> Seq<char> {
    "left "@ + left + ", top "@ + top + ", right "@ + right + ", bottom "@ + bottom
}

/// What is said of a region that is off the pixel grid.
pub open spec fn off_grid_text(r: Rect) -> Seq<char> {
    "region does not fit in i32 pixel coordinates: "@ + edges_text(
        crate::text::signed_text(r.left as int),
        crate::text::signed_text(r.top as int),
        crate::text::signed_text(r.right as int),
        crate::text::signed_text(r.bottom as int),
    )
}

/// A single-precision edge by its bit pattern, in hexadecimal.
pub open spec fn pattern_text(bits: u32) -> Seq<char> {
    "0x"@ + crate::text::hex_text(bits as nat)
}

/// Single-precision edges by their bit patterns.
pub open spec fn patterns_text(left: u32, top: u32, right: u32, bottom: u32) -> Seq<char> {
    edges_text(
        pattern_text(left),
        pattern_text(top),
        pattern_text(right),
        pattern_text(bottom),
    )
}

fn edges(left: &str, top: &str, right: &str, bottom: &str) -> (text: String)
    ensures
        text@ == edges_text(left@, top@, right@, bottom@),
{
    let mut text = joined("left ", left);
    text.append(", top ");
    text.append(top);
    text.append(", right ");
    text.append(right);
    text.append(", bottom ");
    text.append(bottom);
    text
}

fn pattern(bits: u32) -> (text: String)
    ensures
        text@ == pattern_text(bits),
{
    joined("0x", hexadecimal(bits).as_str())
}

fn patterns(left: u32, top: u32, right: u32, bottom: u32) -> (text: String)
    ensures
        text@ == patterns_text(left, top, right, bottom),
{
    edges(
        pattern(left).as_str(),
        pattern(top).as_str(),
        pattern(right).as_str(),
        pattern(bottom).as_str(),
    )
}

fn too_far(left: i32, top: i32, right: i32, bottom: i32) -> (yes: bool)
    ensures
        yes == spans_too_far(left as int, top as int, right as int, bottom as int),
{
    right as i64 - left as i64 > i32::MAX as i64 || bottom as i64 - top as i64 > i32::MAX as i64
}

/// What snapping a rectangle with these ordered edges to the pixel grid gives.
pub open spec fn is_snapped(
    result: Result<PixelRect, CaptureError>,
    left: int,
    top: int,
    right: int,
    bottom: int,
) -> bool {
    if right <= left || bottom <= top {
        result matches Err(e) && e is EmptyRegion
    } else {
        result matches Ok(p) && p.x == left && p.y == top && p.width == right - left && p.height
            == bottom - top
    }
}

fn from_pixel_edges(left: i32, top: i32, right: i32, bottom: i32) -> (result: Result<
    PixelRect,
    CaptureError,
>)
    ensures
        is_snapped(result, left as int, top as int, right as int, bottom as int),
{
    if right <= left || bottom <= top {
        return Err(CaptureError::EmptyRegion);
    }
    let width: u32 = (right as i64 - left as i64) as u32;
    let height: u32 = (bottom as i64 - top as i64) as u32;
    Ok(PixelRect::new(left, top, width, height))
}

impl PixelRect {
    /// Construct directly from integer components.
    pub fn new(x: i32, y: i32, width: u32, height: u32) -> (p: PixelRect)
        ensures
            p == (PixelRect { x, y, width, height }),
    {
        PixelRect { x, y, width, height }
    }

    /// What [`PixelRect::from_rect`] gives for `rect`.
    pub open spec fn is_from_rect(
        result: Result<PixelRect, CaptureError>,
        rect: Rect,
    ) -> bool {
        let r = rect.in_order();
        if off_grid(r) {
            result matches Err(e) && e is InvalidFrame && e.detail() == off_grid_text(r)
        } else {
            is_snapped(
                result,
                clip_i32(r.left as int),
                clip_i32(r.top as int),
                clip_i32(r.right as int),
                clip_i32(r.bottom as int),
            )
        }
    }

    /// The pixel rectangle that `rect` covers.
    ///
    /// Fails with [`CaptureError::EmptyRegion`] when it would have no area, and
    /// with [`CaptureError::InvalidFrame`] when it is absurdly large: an edge is
    /// beyond the pixel grid, or the width or height is beyond `i32::MAX`.
    pub fn from_rect(rect: Rect) -> (result: Result<PixelRect, CaptureError>)
        ensures
            PixelRect::is_from_rect(result, rect),
    {
        let r = rect.normalized();
        let limit: i64 = 0x8000_0000;
        let left: i32 = clip_to_i32(r.left);
        let top: i32 = clip_to_i32(r.top);
        let right: i32 = clip_to_i32(r.right);
        let bottom: i32 = clip_to_i32(r.bottom);
        if r.left < -limit || r.left > limit || r.top < -limit || r.top > limit || r.right < -limit
            || r.right > limit || r.bottom < -limit || r.bottom > limit || too_far(
            left,
            top,
            right,
            bottom,
        ) {
            let place = edges(
                signed_decimal(r.left).as_str(),
                signed_decimal(r.top).as_str(),
                signed_decimal(r.right).as_str(),
                signed_decimal(r.bottom).as_str(),
            );
            return Err(
                CaptureError::InvalidFrame(
                    joined("region does not fit in i32 pixel coordinates: ", place.as_str()),
                ),
            );
        }
        from_pixel_edges(left, top, right, bottom)
    }

    /// What [`PixelRect::from_edges`] gives for four single-precision edges.
    pub open spec fn is_from_edges(
        result: Result<PixelRect, CaptureError>,
        left: u32,
        top: u32,
        right: u32,
        bottom: u32,
    ) -> bool {
        if !(crate::single::is_finite(left) && crate::single::is_finite(top)
            && crate::single::is_finite(right) && crate::single::is_finite(bottom)) {
            result matches Err(e) && e is InvalidFrame && e.detail()
                == "region has non-finite coordinates: "@ + patterns_text(left, top, right, bottom)
        } else if !(crate::single::fits_grid(left) && crate::single::fits_grid(top)
            && crate::single::fits_grid(right) && crate::single::fits_grid(bottom))
            || spans_too_far(
            crate::single::snapped(left),
            crate::single::snapped(top),
            crate::single::snapped(right),
            crate::single::snapped(bottom),
        ) {
            result matches Err(e) && e is InvalidFrame && e.detail()
                == "region does not fit in i32 pixel coordinates: "@ + patterns_text(
                left,
                top,
                right,
                bottom,
            )
        } else {
            is_snapped(
                result,
                crate::single::snapped(left),
                crate::single::snapped(top),
                crate::single::snapped(right),
                crate::single::snapped(bottom),
            )
        }
    }

    /// Snap a rectangle with single-precision edges, given as bit patterns and
    /// in order, to the pixel grid.
    ///
    /// Each *edge* is rounded independently and the size derived from the
    /// rounded edges, so a rectangle that is already integral survives
    /// untouched and adjacent rectangles stay adjacent.
    ///
    /// Fails with [`CaptureError::EmptyRegion`] when the result would have no
    /// area, and with [`CaptureError::InvalidFrame`] for non-finite or absurdly
    /// large input. The error names the edges by their bit patterns.
    pub fn from_edges(left: u32, top: u32, right: u32, bottom: u32) -> (result: Result<
        PixelRect,
        CaptureError,
    >)
        ensures
            PixelRect::is_from_edges(result, left, top, right, bottom),
    {
        if !finite(left) || !finite(top) || !finite(right) || !finite(bottom) {
            return Err(
                CaptureError::InvalidFrame(
                    joined(
                        "region has non-finite coordinates: ",
                        patterns(left, top, right, bottom).as_str(),
                    ),
                ),
            );
        }
        if let (Some(l), Some(t), Some(r), Some(b)) = (
            snap(left),
            snap(top),
            snap(right),
            snap(bottom),
        ) {
            if !too_far(l, t, r, b) {
                return from_pixel_edges(l, t, r, b);
            }
        }
        Err(
            CaptureError::InvalidFrame(
                joined(
                    "region does not fit in i32 pixel coordinates: ",
                    patterns(left, top, right, bottom).as_str(),
                ),
            ),
        )
    }

    /// The rectangle in virtual-desktop coordinates.
    pub open spec fn rect(self) -> Rect {
        Rect {
            left: self.x as i64,
            top: self.y as i64,
            right: (self.x + self.width) as i64,
            bottom: (self.y + self.height) as i64,
        }
    }

    /// Back to the rectangle space of the virtual desktop.
    pub fn to_rect(self) -> (r: Rect)
        ensures
            r == self.rect(),
    {
        Rect {
            left: self.x as i64,
            top: self.y as i64,
            right: self.x as i64 + self.width as i64,
            bottom: self.y as i64 + self.height as i64,
        }
    }

    /// Exclusive right edge, limited to the last coordinate of the grid.
    pub fn right(self) -> (edge: i32)
        ensures
            edge == clip_i32(self.x + self.width),
    {
        clip_to_i32(self.x as i64 + self.width as i64)
    }

    /// Exclusive bottom edge, limited to the last coordinate of the grid.
    pub fn bottom(self) -> (edge: i32)
        ensures
            edge == clip_i32(self.y + self.height),
    {
        clip_to_i32(self.y as i64 + self.height as i64)
    }

    /// Number of pixels, as `u64` so that large virtual desktops cannot
    /// overflow.
    pub fn pixel_count(self) -> (count: u64)
        ensures
            count == self.width * self.height,
    {
        assert(self.width * self.height <= 0xffff_ffff * 0xffff_ffff) by (nonlinear_arith)
            requires
                self.width <= 0xffff_ffff,
                self.height <= 0xffff_ffff,
        ;
        self.width as u64 * self.height as u64
    }

    /// Same rectangle, shifted so that `origin` becomes `(0, 0)`.
    pub fn relative_to(self, origin: Vec2D) -> (p: PixelRect)
        requires
            i32::MIN <= self.x - clip_i32(origin.x as int) <= i32::MAX,
            i32::MIN <= self.y - clip_i32(origin.y as int) <= i32::MAX,
        ensures
            p.x == self.x - clip_i32(origin.x as int),
            p.y == self.y - clip_i32(origin.y as int),
            p.width == self.width,
            p.height == self.height,
    {
        PixelRect::new(
            self.x - clip_to_i32(origin.x),
            self.y - clip_to_i32(origin.y),
            self.width,
            self.height,
        )
    }
}

fn finite(bits: u32) -> (yes: bool)
    ensures
        yes == crate::single::is_finite(bits),
{
    (bits / 0x80_0000) % 0x100 < 0xff
}

/// A pixel rectangle that has pixels, and no more in a row or column than the
/// grid can measure, survives the way to a [`Rect`] and back.
pub proof fn law_pixel_rects_round_trip(p: PixelRect, result: Result<PixelRect, CaptureError>)
    requires
        0 < p.width <= i32::MAX,
        0 < p.height <= i32::MAX,
        p.x + p.width <= i32::MAX,
        p.y + p.height <= i32::MAX,
        PixelRect::is_from_rect(result, p.rect()),
    ensures
        result == Ok::<PixelRect, CaptureError>(p),
{
}

/// A number is limited to the nearest one in range: it stays when it is in
/// range, and otherwise becomes the end that it is beyond.
pub proof fn law_limits_are_the_nearest(n: int)
    ensures
        -0x8000_0000_0000_0000 <= n <= 0x7fff_ffff_ffff_ffff ==> clip_i64(n) == n,
        n < -0x8000_0000_0000_0000 ==> clip_i64(n) == -0x8000_0000_0000_0000,
        n > 0x7fff_ffff_ffff_ffff ==> clip_i64(n) == 0x7fff_ffff_ffff_ffff,
        -0x8000_0000 <= n <= 0x7fff_ffff ==> clip_i32(n) == n,
        n < -0x8000_0000 ==> clip_i32(n) == -0x8000_0000,
        n > 0x7fff_ffff ==> clip_i32(n) == 0x7fff_ffff,
{
}

/// Moving a point by a vector and looking at it from the vector's end are each
/// other's inverse, and each is the plain sum or difference in both directions.
pub proof fn law_points_move_by_both_components(p: Vec2D, by: Vec2D)
    requires
        i64::MIN <= p.x + by.x <= i64::MAX,
        i64::MIN <= p.y + by.y <= i64::MAX,
    ensures
        p.shifted(by).x == p.x + by.x,
        p.shifted(by).y == p.y + by.y,
        p.shifted(by).seen_from(by) == p,
        p.shifted(by).seen_from(p) == by,
{
}

/// A rectangle moves with all of its four edges.
pub proof fn law_rects_move_with_every_edge(r: Rect, by: Vec2D)
    requires
        i64::MIN <= r.left + by.x <= i64::MAX,
        i64::MIN <= r.right + by.x <= i64::MAX,
        i64::MIN <= r.top + by.y <= i64::MAX,
        i64::MIN <= r.bottom + by.y <= i64::MAX,
    ensures
        r.moved(by).left - r.left == by.x,
        r.moved(by).right - r.right == by.x,
        r.moved(by).top - r.top == by.y,
        r.moved(by).bottom - r.bottom == by.y,
{
}

/// A rectangle owns the pixels from its first column up to, but not including,
/// the one after its last, and likewise for rows. It is empty exactly when it
/// owns none, and its area is the product of its extents when it is not.
pub proof fn law_a_rect_owns_its_columns_and_rows(r: Rect, x: int, y: int)
    ensures
        r.owns(x, y) <==> r.left <= x && x < r.right && r.top <= y && y < r.bottom,
        r.owns(x, y) ==> !r.empty(),
        !r.empty() ==> r.owns(r.left as int, r.top as int) && r.owns(r.right - 1, r.bottom - 1),
        r.empty() ==> r.pixels() == 0,
        !r.empty() ==> r.pixels() == (r.right - r.left) * (r.bottom - r.top),
{
}

/// Putting edges in order keeps the two columns and the two rows that bound the
/// rectangle, and nothing changes where they are in order already.
pub proof fn law_ordering_keeps_the_edges(r: Rect)
    ensures
        ({
            let o = r.in_order();
            &&& o.left <= o.right && o.top <= o.bottom
            &&& o.left == r.left && o.right == r.right || o.left == r.right && o.right == r.left
            &&& o.top == r.top && o.bottom == r.bottom || o.top == r.bottom && o.bottom == r.top
            &&& r.left <= r.right && r.top <= r.bottom ==> o == r
        }),
{
}

/// Cutting to bounds gives the overlap: the later of the first edges and the
/// earlier of the last ones. Where there is no overlap the part has no extent
/// and sits at the later of the first edges.
pub proof fn law_cutting_gives_the_overlap(r: Rect, bounds: Rect)
    ensures
        ({
            let part = r.within(bounds);
            &&& part.left == r.left || part.left == bounds.left
            &&& part.left >= r.left && part.left >= bounds.left
            &&& part.top == r.top || part.top == bounds.top
            &&& part.top >= r.top && part.top >= bounds.top
            &&& part.right == r.right || part.right == bounds.right || part.right == part.left
            &&& part.left <= part.right
            &&& part.left < part.right ==> part.right <= r.right && part.right <= bounds.right
            &&& part.left < r.right && part.left < bounds.right ==> part.left < part.right && (
            part.right == r.right || part.right == bounds.right)
            &&& part.bottom == r.bottom || part.bottom == bounds.bottom || part.bottom == part.top
            &&& part.top <= part.bottom
            &&& part.top < part.bottom ==> part.bottom <= r.bottom && part.bottom <= bounds.bottom
            &&& part.top < r.bottom && part.top < bounds.bottom ==> part.top < part.bottom && (
            part.bottom == r.bottom || part.bottom == bounds.bottom)
        }),
{
}

/// A request is granted exactly when it shares a pixel with the bounds, and what
/// is granted is the pixels that they share. A request may name its corners in
/// any order.
pub proof fn law_requests_get_what_they_share(
    result: Result<Rect, CaptureError>,
    requested: Rect,
    bounds: Rect,
    x: int,
    y: int,
)
    requires
        is_clamped(result, requested, bounds),
    ensures
        ({
            let across = requested.left <= x < requested.right || requested.right <= x
                < requested.left;
            let down = requested.top <= y < requested.bottom || requested.bottom <= y
                < requested.top;
            let shared = across && down && bounds.left <= x < bounds.right && bounds.top <= y
                < bounds.bottom;
            &&& shared ==> result is Ok
            &&& result matches Ok(r) ==> (r.left <= x < r.right && r.top <= y < r.bottom <==> shared)
            &&& result matches Ok(r) ==> r.left < r.right && r.top < r.bottom
            &&& result matches Err(e) ==> e is EmptyRegion
        }),
{
}

/// The smallest covering rectangle, in plain numbers: no edge of any rectangle
/// lies outside it, and none of its own edges could be moved inwards.
pub proof fn law_the_bounding_box_is_tight(b: Rect, rects: Seq<Rect>, i: int)
    requires
        is_bounding_box(b, rects),
        0 <= i < rects.len(),
    ensures
        b.left <= rects[i].left <= b.right && b.left <= rects[i].right <= b.right,
        b.top <= rects[i].top <= b.bottom && b.top <= rects[i].bottom <= b.bottom,
        exists|k: int|
            0 <= k < rects.len() && ((#[trigger] rects[k]).left == b.left || rects[k].right
                == b.left),
        exists|k: int|
            0 <= k < rects.len() && ((#[trigger] rects[k]).left == b.right || rects[k].right
                == b.right),
        exists|k: int|
            0 <= k < rects.len() && ((#[trigger] rects[k]).top == b.top || rects[k].bottom
                == b.top),
        exists|k: int|
            0 <= k < rects.len() && ((#[trigger] rects[k]).top == b.bottom || rects[k].bottom
                == b.bottom),
{
    assert(b.covers(rects[i].in_order()));
    let l = choose|k: int| 0 <= k < rects.len() && (#[trigger] rects[k]).in_order().left == b.left;
    let t = choose|k: int| 0 <= k < rects.len() && (#[trigger] rects[k]).in_order().top == b.top;
    let e = choose|k: int|
        0 <= k < rects.len() && (#[trigger] rects[k]).in_order().right == b.right;
    let m = choose|k: int|
        0 <= k < rects.len() && (#[trigger] rects[k]).in_order().bottom == b.bottom;
    assert(rects[l].left == b.left || rects[l].right == b.left);
    assert(rects[t].top == b.top || rects[t].bottom == b.top);
    assert(rects[e].left == b.right || rects[e].right == b.right);
    assert(rects[m].top == b.bottom || rects[m].bottom == b.bottom);
}

/// Edges on the pixel grid become a pixel rectangle with the same edges, and the
/// distances between them. There is none without area; and none whose edges are
/// beyond the grid, or further apart than the grid can measure. The last column
/// and row stand for the ones just after the grid.
pub proof fn law_pixel_rects_keep_their_edges(rect: Rect, result: Result<PixelRect, CaptureError>)
    requires
        PixelRect::is_from_rect(result, rect),
        rect.left <= rect.right,
        rect.top <= rect.bottom,
    ensures
        ({
            let on = -0x8000_0000 <= rect.left && rect.right <= 0x8000_0000 && -0x8000_0000
                <= rect.top && rect.bottom <= 0x8000_0000;
            let inside = on && rect.right < 0x8000_0000 && rect.bottom < 0x8000_0000;
            let near = rect.right - rect.left <= 0x7fff_ffff && rect.bottom - rect.top
                <= 0x7fff_ffff;
            &&& !on ==> (result matches Err(e) && e is InvalidFrame)
            &&& inside && !near ==> (result matches Err(e) && e is InvalidFrame)
            &&& inside && near && (rect.left == rect.right || rect.top == rect.bottom)
                ==> (result matches Err(e) && e is EmptyRegion)
            &&& inside && near && rect.left < rect.right && rect.top < rect.bottom
                ==> (result matches Ok(p) && p.x == rect.left && p.y == rect.top && p.x + p.width
                == rect.right && p.y + p.height == rect.bottom)
        }),
{
}

/// A finite edge lies at its nearest pixel, or at the end of the grid that it is
/// beyond.
pub proof fn law_edges_lie_at_their_nearest_pixel(bits: u32)
    requires
        crate::single::is_finite(bits),
    ensures
        ({
            let m = crate::single::magnitude(bits);
            let far = vstd::arithmetic::power2::pow2(180);
            let n = crate::single::nearest(bits);
            &&& m > far && bits < 0x8000_0000 ==> edge_pixel(bits) == 0x7fff_ffff
            &&& m > far && bits >= 0x8000_0000 ==> edge_pixel(bits) == -0x8000_0000
            &&& m <= far && n < 0x8000_0000 ==> edge_pixel(bits) == n
            &&& m <= far && n >= 0x8000_0000 ==> edge_pixel(bits) == 0x7fff_ffff
        }),
{
    crate::single::law_snapping_goes_to_the_nearest_pixel(bits);
    let m = crate::single::magnitude(bits) as int;
    let pixel = vstd::arithmetic::power2::pow2(149) as int;
    let n = if bits < 0x8000_0000 {
        crate::single::nearest(bits)
    } else {
        -crate::single::nearest(bits)
    };
    if crate::single::fits_grid(bits) {
        vstd::arithmetic::power2::lemma_pow2_pos(149);
        assert(n <= 0x8000_0000) by (nonlinear_arith)
            requires
                m <= 0x8000_0000 * pixel,
                2 * (n * pixel) <= 2 * m + pixel,
                pixel > 0,
        ;
    }
}

/// The corners of a pixel rectangle's rectangle are its own, and the opposite
/// ones lie its extents away.
pub proof fn law_pixel_rects_span_their_extents(p: PixelRect)
    ensures
        p.rect().left == p.x,
        p.rect().top == p.y,
        p.rect().right - p.rect().left == p.width,
        p.rect().bottom - p.rect().top == p.height,
{
}

/// Single-precision edges become a pixel rectangle between their nearest pixels.
/// There is none where an edge is no finite number or lies beyond the grid, where
/// two are further apart than the grid can measure, or where none lie between.
pub proof fn law_edges_become_the_pixels_between_them(
    result: Result<PixelRect, CaptureError>,
    left: u32,
    top: u32,
    right: u32,
    bottom: u32,
)
    requires
        PixelRect::is_from_edges(result, left, top, right, bottom),
    ensures
        ({
            let finite = crate::single::is_finite(left) && crate::single::is_finite(top)
                && crate::single::is_finite(right) && crate::single::is_finite(bottom);
            let fits = crate::single::fits_grid(left) && crate::single::fits_grid(top)
                && crate::single::fits_grid(right) && crate::single::fits_grid(bottom);
            let l = crate::single::snapped(left);
            let t = crate::single::snapped(top);
            let r = crate::single::snapped(right);
            let b = crate::single::snapped(bottom);
            let near = r - l <= 0x7fff_ffff && b - t <= 0x7fff_ffff;
            &&& result is Ok <==> finite && fits && near && l < r && t < b
            &&& result matches Ok(p) ==> p.x == l && p.y == t && p.x + p.width == r && p.y
                + p.height == b
            &&& result matches Err(e) ==> (e is EmptyRegion <==> finite && fits && near) && (
            e is EmptyRegion || e is InvalidFrame)
        }),
{
}

/// A bit pattern stands for a finite number exactly when its exponent bits are
/// not all set, whatever its sign.
pub proof fn law_finite_patterns(bits: u32)
    ensures
        crate::single::is_finite(bits) <==> bits < 0x7f80_0000 || 0x8000_0000 <= bits < 0xff80_0000,
{
}

/// A rectangle has no place on the pixel grid exactly when an edge lies beyond
/// it, or two lie further apart than it can measure. The far end of the grid
/// counts as its last coordinate.
pub proof fn law_which_rects_the_grid_holds(result: Result<PixelRect, CaptureError>, rect: Rect)
    requires
        PixelRect::is_from_rect(result, rect),
    ensures
        ({
            let far = |edge: int| edge < -0x8000_0000 || 0x8000_0000 < edge;
            let at = |edge: int| if edge == 0x8000_0000 { 0x7fff_ffff } else { edge };
            let beyond = far(rect.left as int) || far(rect.top as int) || far(rect.right as int)
                || far(rect.bottom as int);
            let across = at(rect.right as int) - at(rect.left as int);
            let down = at(rect.bottom as int) - at(rect.top as int);
            let fits = -0x7fff_ffff <= across <= 0x7fff_ffff && -0x7fff_ffff <= down <= 0x7fff_ffff;
            &&& result matches Err(e) ==> (e is InvalidFrame <==> beyond || !fits) && (
            e is EmptyRegion <==> !beyond && fits)
            &&& result is Ok <==> !beyond && fits && across != 0 && down != 0
        }),
{
}

/// The edges in a message stand in the order left, top, right, bottom, each
/// after its name.
pub proof fn law_edges_are_named(
    left: Seq<char>,
    top: Seq<char>,
    right: Seq<char>,
    bottom: Seq<char>,
)
    ensures
        ({
            let text = edges_text(left, top, right, bottom);
            let a = 5 + left.len() as int;
            let b = a + 6 + top.len();
            let c = b + 8 + right.len();
            &&& text.len() == c + 9 + bottom.len()
            &&& text.subrange(0, a) == "left "@ + left
            &&& text.subrange(a, b) == ", top "@ + top
            &&& text.subrange(b, c) == ", right "@ + right
            &&& text.subrange(c, text.len() as int) == ", bottom "@ + bottom
        }),
{
    reveal_strlit("left ");
    reveal_strlit(", top ");
    reveal_strlit(", right ");
    reveal_strlit(", bottom ");
    let text = edges_text(left, top, right, bottom);
    let a = 5 + left.len() as int;
    let b = a + 6 + top.len();
    let c = b + 8 + right.len();
    assert(text.subrange(0, a) =~= "left "@ + left);
    assert(text.subrange(a, b) =~= ", top "@ + top);
    assert(text.subrange(b, c) =~= ", right "@ + right);
    assert(text.subrange(c, text.len() as int) =~= ", bottom "@ + bottom);
}

/// The message on a rectangle that is off the grid gives its own edges.
pub proof fn law_off_grid_messages_give_the_edges(r: Rect)
    ensures
        off_grid_text(r).subrange(46, off_grid_text(r).len() as int) == edges_text(
            crate::text::signed_text(r.left as int),
            crate::text::signed_text(r.top as int),
            crate::text::signed_text(r.right as int),
            crate::text::signed_text(r.bottom as int),
        ),
{
    reveal_strlit("region does not fit in i32 pixel coordinates: ");
    let edges = edges_text(
        crate::text::signed_text(r.left as int),
        crate::text::signed_text(r.top as int),
        crate::text::signed_text(r.right as int),
        crate::text::signed_text(r.bottom as int),
    );
    assert(off_grid_text(r).subrange(46, off_grid_text(r).len() as int) =~= edges);
}

/// Edges given as bit patterns are written as their numbers in hexadecimal, in
/// the same order.
pub proof fn law_patterns_are_named(left: u32, top: u32, right: u32, bottom: u32)
    ensures
        patterns_text(left, top, right, bottom) == edges_text(
            "0x"@ + crate::text::hex_text(left as nat),
            "0x"@ + crate::text::hex_text(top as nat),
            "0x"@ + crate::text::hex_text(right as nat),
            "0x"@ + crate::text::hex_text(bottom as nat),
        ),
{
}

} // verus!
