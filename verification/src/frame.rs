//! [`RawFrame`], the pixels a capture produced, and the compositing operations
//! the backends build on.
//!
//! A frame is RGBA8, row-major, top-left origin and tightly packed. Backends
//! convert whatever the system handed them into that shape, so everything above
//! this module only ever sees one layout.

use crate::error::CaptureError;
use crate::geometry::{bounding_box, clamp_region, clip_to_i32, PixelRect, Rect, Vec2D};
use crate::single::ScaleFactor;
use crate::text::{decimal, joined};
use vstd::arithmetic::div_mod::*;
use vstd::prelude::*;
use vstd::string::*;

verus! {

/// Bytes per pixel in a [`RawFrame`].
pub const BYTES_PER_PIXEL: usize = 4;

/// A captured image and where on the virtual desktop it came from.
#[derive(Debug, Clone, PartialEq)]
pub struct RawFrame {
    /// Width in physical pixels.
    pub width: u32,
    /// Height in physical pixels.
    pub height: u32,
    /// RGBA8, row-major, straight (non-premultiplied) alpha.
    pub data: Vec<u8>,
    /// Top-left corner on the virtual desktop, in physical pixels. Negative
    /// values are normal on multi-monitor layouts.
    pub origin: Vec2D,
    /// Scale of the source display. Purely metadata: `data` is always physical
    /// pixels.
    pub scale_factor: ScaleFactor,
}

/// The four bytes of pixel number `n` in a tightly packed buffer.
pub open spec fn nth_pixel(data: Seq<u8>, n: int) -> Seq<u8> {
    seq![data[4 * n], data[4 * n + 1], data[4 * n + 2], data[4 * n + 3]]
}

/// A pixel with no colour and no opacity.
pub open spec fn clear_pixel() -> Seq<u8> {
    seq![0u8, 0u8, 0u8, 0u8]
}

/// Pixel `(x, y)` of an image that is `w` wide has a number below `w * h`, and
/// the number leads back to `x` and `y`.
pub proof fn lemma_pixel_number(w: int, h: int, x: int, y: int)
    requires
        0 <= x < w,
        0 <= y < h,
    ensures
        0 <= y * w + x < w * h,
        (y * w + x) / w == y,
        (y * w + x) % w == x,
{
    assert(0 <= y * w + x < w * h) by (nonlinear_arith)
        requires
            0 <= x < w,
            0 <= y < h,
    ;
    lemma_fundamental_div_mod_converse(y * w + x, w, y, x);
}

/// A pixel's number leads to a column and a row inside the image.
pub proof fn lemma_pixel_position(w: int, h: int, n: int)
    requires
        0 <= n < w * h,
        0 <= w,
        0 <= h,
    ensures
        0 < w,
        0 <= n % w < w,
        0 <= n / w < h,
        (n / w) * w + n % w == n,
{
    assert(w > 0) by (nonlinear_arith)
        requires
            0 <= n < w * h,
            0 <= w,
    ;
    lemma_fundamental_div_mod(n, w);
    assert((n / w) * w == w * (n / w)) by (nonlinear_arith);
    let y = n / w;
    assert(0 <= y < h) by (nonlinear_arith)
        requires
            0 <= n < w * h,
            n == w * y + n % w,
            0 <= n % w < w,
            w > 0,
    ;
}

/// The number of bytes of a `width` by `height` image.
pub open spec fn byte_len(width: u32, height: u32) -> int {
    width * height * 4
}

/// The dimensions, as an error names them.
pub open spec fn dimensions_text(width: u32, height: u32) -> Seq<char> {
    crate::text::decimal_text(width as nat) + "x"@ + crate::text::decimal_text(height as nat)
}

/// What is wrong with an image that memory cannot hold.
pub open spec fn too_large_text(width: u32, height: u32) -> Seq<char> {
    dimensions_text(width, height) + " RGBA does not fit in memory"@
}

/// What is wrong with a buffer of `got` bytes for a `width` by `height` image.
pub open spec fn wrong_length_text(width: u32, height: u32, got: nat) -> Seq<char> {
    if byte_len(width, height) > usize::MAX {
        too_large_text(width, height)
    } else {
        dimensions_text(width, height) + " RGBA needs "@ + crate::text::decimal_text(
            byte_len(width, height) as nat,
        ) + " bytes, got "@ + crate::text::decimal_text(got)
    }
}

/// An error about a frame, which says this.
pub open spec fn is_invalid(e: CaptureError, text: Seq<char>) -> bool {
    e is InvalidFrame && e.detail() == text
}

impl RawFrame {
    /// The buffer matches the dimensions, and the scale is positive.
    pub open spec fn wf(self) -> bool {
        &&& self.data@.len() == byte_len(self.width, self.height)
        &&& self.scale_factor.wf()
    }

    /// `(x, y)` is a pixel of the frame.
    pub open spec fn has(self, x: int, y: int) -> bool {
        0 <= x < self.width && 0 <= y < self.height
    }

    /// The four bytes of pixel `(x, y)`.
    pub open spec fn at(self, x: int, y: int) -> Seq<u8> {
        nth_pixel(self.data@, y * self.width + x)
    }

    /// The frame covers pixel `(x, y)` of the virtual desktop.
    pub open spec fn shows(self, x: int, y: int) -> bool {
        self.has(x - self.origin.x, y - self.origin.y)
    }

    /// What the frame shows at pixel `(x, y)` of the virtual desktop.
    pub open spec fn seen_at(self, x: int, y: int) -> Seq<u8> {
        self.at(x - self.origin.x, y - self.origin.y)
    }

    /// No pixels at all.
    pub open spec fn blank(self) -> bool {
        self.width == 0 || self.height == 0
    }

    /// The frame lies on the grid of `i32` pixel coordinates, far edges
    /// included.
    pub open spec fn placed(self) -> bool {
        &&& i32::MIN <= self.origin.x
        &&& self.origin.x + self.width <= i32::MAX
        &&& i32::MIN <= self.origin.y
        &&& self.origin.y + self.height <= i32::MAX
    }

    /// No wider and no taller than a pixel rectangle can be.
    pub open spec fn measurable(self) -> bool {
        self.width <= i32::MAX && self.height <= i32::MAX
    }

    /// Position and size on the virtual desktop.
    pub open spec fn area(self) -> Rect {
        Rect {
            left: self.origin.x,
            top: self.origin.y,
            right: crate::geometry::clip_i64(self.origin.x + self.width) as i64,
            bottom: crate::geometry::clip_i64(self.origin.y + self.height) as i64,
        }
    }

    /// Wrap an existing RGBA8 buffer, checking that it matches `width` and
    /// `height`. `scale_bits` is the single-precision scale factor.
    pub fn new(
        width: u32,
        height: u32,
        data: Vec<u8>,
        origin: Vec2D,
        scale_bits: u32,
    ) -> (result: Result<RawFrame, CaptureError>)
        ensures
            match result {
                Ok(f) => data@.len() == byte_len(width, height) && f.wf() && f.width == width
                    && f.height == height && f.data == data && f.origin == origin && f.scale_factor
                    == ScaleFactor::sanitized(scale_bits),
                Err(e) => data@.len() != byte_len(width, height) && is_invalid(
                    e,
                    wrong_length_text(width, height, data@.len()),
                ),
            },
    {
        let got: usize = data.len();
        match expected_len(width, height) {
            Ok(expected) => {
                if got != expected {
                    let mut message = size_text(width, height);
                    message.append(" RGBA needs ");
                    message.append(decimal(expected as u64).as_str());
                    message.append(" bytes, got ");
                    message.append(decimal(got as u64).as_str());
                    return Err(CaptureError::InvalidFrame(message));
                }
                Ok(
                    RawFrame {
                        width,
                        height,
                        data,
                        origin,
                        scale_factor: ScaleFactor::from_bits(scale_bits),
                    },
                )
            },
            Err(e) => Err(e),
        }
    }

    /// A fully transparent frame: the background a stitched desktop starts
    /// from, so that gaps between monitors are visibly "no monitor here".
    pub fn transparent(width: u32, height: u32, origin: Vec2D, scale_bits: u32) -> (result: Result<
        RawFrame,
        CaptureError,
    >)
        ensures
            match result {
                Ok(f) => byte_len(width, height) <= usize::MAX && f.wf() && f.width == width
                    && f.height == height && f.origin == origin && f.scale_factor
                    == ScaleFactor::sanitized(scale_bits) && forall|x: int, y: int|
                    f.has(x, y) ==> #[trigger] f.at(x, y) == clear_pixel(),
                Err(e) => byte_len(width, height) > usize::MAX && is_invalid(
                    e,
                    too_large_text(width, height),
                ),
            },
    {
        let rgba: [u8; 4] = [0, 0, 0, 0];
        RawFrame::filled(width, height, rgba, origin, scale_bits)
    }

    /// A frame filled with one RGBA colour.
    pub fn filled(
        width: u32,
        height: u32,
        rgba: [u8; 4],
        origin: Vec2D,
        scale_bits: u32,
    ) -> (result: Result<RawFrame, CaptureError>)
        ensures
            match result {
                Ok(f) => byte_len(width, height) <= usize::MAX && f.wf() && f.width == width
                    && f.height == height && f.origin == origin && f.scale_factor
                    == ScaleFactor::sanitized(scale_bits) && forall|x: int, y: int|
                    f.has(x, y) ==> #[trigger] f.at(x, y) == rgba@,
                Err(e) => byte_len(width, height) > usize::MAX && is_invalid(
                    e,
                    too_large_text(width, height),
                ),
            },
    {
        match expected_len(width, height) {
            Ok(len) => {
                let mut data: Vec<u8> = Vec::with_capacity(len);
                let pixels: usize = len / BYTES_PER_PIXEL;
                let mut n: usize = 0;
                while n < pixels
                    invariant
                        n <= pixels,
                        data@.len() == 4 * n,
                        forall|q: int| 0 <= q < n ==> #[trigger] nth_pixel(data@, q) == rgba@,
                    decreases pixels - n,
                {
                    let ghost before = data@;
                    data.push(rgba[0]);
                    data.push(rgba[1]);
                    data.push(rgba[2]);
                    data.push(rgba[3]);
                    proof {
                        assert forall|q: int| 0 <= q < n + 1 implies #[trigger] nth_pixel(data@, q)
                            == rgba@ by {
                            if q < n {
                                assert(nth_pixel(data@, q) =~= nth_pixel(before, q));
                            } else {
                                assert(nth_pixel(data@, q) =~= rgba@);
                            }
                        }
                    }
                    n = n + 1;
                }
                let frame = RawFrame {
                    width,
                    height,
                    data,
                    origin,
                    scale_factor: ScaleFactor::from_bits(scale_bits),
                };
                proof {
                    assert forall|x: int, y: int| frame.has(x, y) implies #[trigger] frame.at(x, y)
                        == rgba@ by {
                        lemma_pixel_number(width as int, height as int, x, y);
                    }
                }
                Ok(frame)
            },
            Err(e) => Err(e),
        }
    }

    /// Position and size on the virtual desktop, in physical pixels.
    pub fn bounds(&self) -> (r: Rect)
        ensures
            r == self.area(),
    {
        Rect::from_xywh(self.origin.x, self.origin.y, self.width as i64, self.height as i64)
    }

    /// Same as [`RawFrame::bounds`], on the grid of `i32` coordinates.
    pub fn pixel_bounds(&self) -> (p: PixelRect)
        ensures
            p.x == crate::geometry::clip_i32(self.origin.x as int),
            p.y == crate::geometry::clip_i32(self.origin.y as int),
            p.width == self.width,
            p.height == self.height,
    {
        PixelRect::new(
            clip_to_i32(self.origin.x),
            clip_to_i32(self.origin.y),
            self.width,
            self.height,
        )
    }

    /// No pixels at all.
    pub fn is_empty(&self) -> (yes: bool)
        ensures
            yes == self.blank(),
    {
        self.width == 0 || self.height == 0
    }

    /// Number of pixels.
    pub fn pixel_count(&self) -> (count: u64)
        ensures
            count == self.width * self.height,
    {
        PixelRect::new(0, 0, self.width, self.height).pixel_count()
    }

    fn offset(&self, x: u32, y: u32) -> (at: Option<usize>)
        requires
            self.wf(),
        ensures
            match at {
                Some(at) => self.has(x as int, y as int) && at == 4 * (y * self.width + x) && at
                    + 3 < self.data@.len(),
                None => !self.has(x as int, y as int),
            },
    {
        if x >= self.width || y >= self.height {
            return None;
        }
        assert(self.data.len() == byte_len(self.width, self.height));
        proof {
            lemma_pixel_number(self.width as int, self.height as int, x as int, y as int);
            lemma_rows_fit(self.width as int, self.height as int, y as int);
        }
        Some((y as usize * self.width as usize + x as usize) * BYTES_PER_PIXEL)
    }

    /// The RGBA value at frame-local `(x, y)`, or `None` when out of range.
    pub fn pixel(&self, x: u32, y: u32) -> (rgba: Option<[u8; 4]>)
        requires
            self.wf(),
        ensures
            match rgba {
                Some(p) => self.has(x as int, y as int) && p@ == self.at(x as int, y as int),
                None => !self.has(x as int, y as int),
            },
    {
        match self.offset(x, y) {
            Some(at) => {
                let p: [u8; 4] = [
                    self.data[at],
                    self.data[at + 1],
                    self.data[at + 2],
                    self.data[at + 3],
                ];
                assert(p@ =~= self.at(x as int, y as int));
                Some(p)
            },
            None => None,
        }
    }

    /// Overwrite the RGBA value at frame-local `(x, y)`. Out-of-range writes
    /// are ignored.
    pub fn set_pixel(&mut self, x: u32, y: u32, rgba: [u8; 4])
        requires
            old(self).wf(),
        ensures
            final(self).wf(),
            final(self).same_shape(*old(self)),
            !old(self).has(x as int, y as int) ==> final(self).data@ == old(self).data@,
            old(self).has(x as int, y as int) ==> final(self).at(x as int, y as int) == rgba@,
            forall|i: int, j: int|
                old(self).has(i, j) && (i != x || j != y) ==> #[trigger] final(self).at(i, j)
                    == old(self).at(i, j),
    {
        match self.offset(x, y) {
            Some(at) => {
                let ghost before = *self;
                self.data.set(at, rgba[0]);
                self.data.set(at + 1, rgba[1]);
                self.data.set(at + 2, rgba[2]);
                self.data.set(at + 3, rgba[3]);
                proof {
                    let n = y * self.width + x;
                    assert(self.at(x as int, y as int) =~= rgba@);
                    assert forall|i: int, j: int|
                        before.has(i, j) && (i != x || j != y) implies #[trigger] self.at(i, j)
                        == before.at(i, j) by {
                        let w = self.width as int;
                        lemma_pixel_number(w, self.height as int, i, j);
                        lemma_pixel_number(w, self.height as int, x as int, y as int);
                        assert(j * w + i != n);
                        assert(self.at(i, j) =~= before.at(i, j));
                    }
                }
            },
            None => {},
        }
    }

    /// Same dimensions, place and scale.
    pub open spec fn same_shape(self, other: RawFrame) -> bool {
        &&& self.width == other.width
        &&& self.height == other.height
        &&& self.origin == other.origin
        &&& self.scale_factor == other.scale_factor
    }
}

/// A rectangle's edges on the grid of `i32` coordinates.
pub open spec fn grid_rect(r: Rect) -> Rect {
    Rect {
        left: crate::geometry::clip_i32(r.left as int) as i64,
        top: crate::geometry::clip_i32(r.top as int) as i64,
        right: crate::geometry::clip_i32(r.right as int) as i64,
        bottom: crate::geometry::clip_i32(r.bottom as int) as i64,
    }
}

/// `cut` is the part `r` of `whole`: it sits where `r` sits, is as large as
/// `r`, and shows at every place what `whole` shows there.
pub open spec fn is_cut(cut: RawFrame, whole: RawFrame, r: Rect) -> bool {
    &&& cut.wf()
    &&& cut.width == r.right - r.left
    &&& cut.height == r.bottom - r.top
    &&& cut.origin == (Vec2D { x: r.left, y: r.top })
    &&& cut.scale_factor == whole.scale_factor
    &&& forall|x: int, y: int| r.owns(x, y) ==> #[trigger] cut.seen_at(x, y) == whole.seen_at(x, y)
}

/// What cutting `region` out of `frame` gives.
pub open spec fn is_cropped(
    result: Result<RawFrame, CaptureError>,
    frame: RawFrame,
    region: Rect,
) -> bool {
    let clipped = region.in_order().within(frame.area());
    if clipped.empty() {
        result matches Err(e) && e is EmptyRegion
    } else if crate::geometry::off_grid(clipped) {
        result matches Err(e) && is_invalid(e, crate::geometry::off_grid_text(clipped))
    } else if grid_rect(clipped).empty() {
        result matches Err(e) && e is EmptyRegion
    } else {
        result matches Ok(cut) && is_cut(cut, frame, grid_rect(clipped))
    }
}

/// The bytes of `w * h` pixels taken from `data`, an image `stride` pixels
/// wide, starting at column `x0` and row `y0`.
pub(crate) fn copy_block(data: &Vec<u8>, stride: usize, rows: usize, x0: usize, y0: usize, w: usize, h: usize) -> (block:
    Vec<u8>)
    requires
        data@.len() == stride * rows * 4,
        x0 + w <= stride,
        y0 + h <= rows,
    ensures
        block@.len() == w * h * 4,
        forall|x: int, y: int|
            0 <= x < w && 0 <= y < h ==> nth_pixel(block@, #[trigger] (y * w + x)) == nth_pixel(
                data@,
                (y0 + y) * stride + x0 + x,
            ),
{
    let total: usize = data.len();
    let mut block: Vec<u8> = Vec::new();
    let mut y: usize = 0;
    while y < h
        invariant
            y <= h,
            total == data@.len(),
            data@.len() == stride * rows * 4,
            x0 + w <= stride,
            y0 + h <= rows,
            block@.len() == y * w * 4,
            forall|i: int, j: int|
                0 <= i < w && 0 <= j < y ==> nth_pixel(block@, #[trigger] (j * w + i)) == nth_pixel(
                    data@,
                    (y0 + j) * stride + x0 + i,
                ),
        decreases h - y,
    {
        let ghost done = block@;
        let mut x: usize = 0;
        while x < w
            invariant
                y < h,
                x <= w,
                total == data@.len(),
                data@.len() == stride * rows * 4,
                x0 + w <= stride,
                y0 + h <= rows,
                block@.len() == (y * w + x) * 4,
                done.len() == y * w * 4,
                forall|n: int| 0 <= n < done.len() ==> #[trigger] block@[n] == done[n],
                forall|i: int|
                    0 <= i < x ==> nth_pixel(block@, #[trigger] (y * w + i)) == nth_pixel(
                        data@,
                        (y0 + y) * stride + x0 + i,
                    ),
            decreases w - x,
        {
            proof {
                lemma_pixel_number(stride as int, rows as int, x0 + x, y0 + y);
                lemma_rows_fit(stride as int, rows as int, y0 + y);
                assert(4 * (stride * rows) == stride * rows * 4);
            }
            let at: usize = ((y0 + y) * stride + x0 + x) * 4;
            let ghost before = block@;
            block.push(data[at]);
            block.push(data[at + 1]);
            block.push(data[at + 2]);
            block.push(data[at + 3]);
            proof {
                assert forall|i: int| 0 <= i < x + 1 implies nth_pixel(
                    block@,
                    #[trigger] (y * w + i),
                ) == nth_pixel(data@, (y0 + y) * stride + x0 + i) by {
                    lemma_rows_fit(w as int, h as int, y as int);
                    if i < x {
                        assert(nth_pixel(block@, y * w + i) =~= nth_pixel(before, y * w + i));
                    } else {
                        assert(nth_pixel(block@, y * w + i) =~= nth_pixel(
                            data@,
                            (y0 + y) * stride + x0 + i,
                        ));
                    }
                }
                assert((y * w + x) * 4 + 4 == (y * w + (x + 1)) * 4) by (nonlinear_arith);
            }
            x = x + 1;
        }
        proof {
            assert((y * w + w) * 4 == (y + 1) * w * 4) by (nonlinear_arith);
            assert forall|i: int, j: int| 0 <= i < w && 0 <= j < y + 1 implies nth_pixel(
                block@,
                #[trigger] (j * w + i),
            ) == nth_pixel(data@, (y0 + j) * stride + x0 + i) by {
                if j < y {
                    lemma_pixel_number(w as int, y as int, i, j);
                    assert((w * y) * 4 == y * w * 4) by (nonlinear_arith);
                    assert(nth_pixel(block@, j * w + i) =~= nth_pixel(done, j * w + i));
                }
            }
        }
        y = y + 1;
    }
    assert(h * w * 4 == w * h * 4) by (nonlinear_arith);
    block
}

impl RawFrame {
    /// Cut a sub-image out of this frame.
    ///
    /// `region` is in virtual-desktop coordinates, like [`RawFrame::origin`],
    /// and is clipped to the frame first. The result carries the clipped
    /// origin, so it stays locatable on the desktop.
    ///
    /// This is how backends that can only grab the whole screen serve monitor
    /// and region targets.
    pub fn crop(&self, region: Rect) -> (result: Result<RawFrame, CaptureError>)
        requires
            self.wf(),
        ensures
            is_cropped(result, *self, region),
    {
        let clipped = match clamp_region(region, self.bounds()) {
            Ok(r) => r,
            Err(e) => {
                return Err(e);
            },
        };
        let rect = match PixelRect::from_rect(clipped) {
            Ok(p) => p,
            Err(e) => {
                return Err(e);
            },
        };
        let x0: usize = (rect.x as i64 - self.origin.x) as usize;
        let y0: usize = (rect.y as i64 - self.origin.y) as usize;
        let data = copy_block(
            &self.data,
            self.width as usize,
            self.height as usize,
            x0,
            y0,
            rect.width as usize,
            rect.height as usize,
        );
        let cut = RawFrame {
            width: rect.width,
            height: rect.height,
            data,
            origin: Vec2D::new(rect.x as i64, rect.y as i64),
            scale_factor: self.scale_factor,
        };
        proof {
            let r = grid_rect(clipped);
            assert forall|x: int, y: int| r.owns(x, y) implies #[trigger] cut.seen_at(x, y)
                == self.seen_at(x, y) by {
                let i = x - r.left;
                let j = y - r.top;
                assert(0 <= i < cut.width && 0 <= j < cut.height);
                assert(nth_pixel(cut.data@, j * cut.width + i) == nth_pixel(
                    self.data@,
                    (y0 + j) * self.width + x0 + i,
                ));
            }
        }
        Ok(cut)
    }
}

/// The rows above `y` fit in the image.
pub proof fn lemma_rows_fit(w: int, h: int, y: int)
    requires
        0 <= w,
        0 <= y <= h,
    ensures
        0 <= y * w <= w * h,
{
    assert(0 <= y * w <= w * h) by (nonlinear_arith)
        requires
            0 <= w,
            0 <= y <= h,
    ;
}

fn size_text(width: u32, height: u32) -> (text: String)
    ensures
        text@ == dimensions_text(width, height),
{
    joined(
        joined(decimal(width as u64).as_str(), "x").as_str(),
        decimal(height as u64).as_str(),
    )
}

/// The number of bytes that a `width` by `height` frame needs, or
/// [`CaptureError::InvalidFrame`] when memory cannot hold them.
pub fn expected_len(width: u32, height: u32) -> (result: Result<usize, CaptureError>)
    ensures
        match result {
            Ok(len) => len == byte_len(width, height),
            Err(e) => byte_len(width, height) > usize::MAX && is_invalid(
                e,
                too_large_text(width, height),
            ),
        },
{
    let pixels: u64 = PixelRect::new(0, 0, width, height).pixel_count();
    let bytes: u128 = pixels as u128 * 4;
    if bytes <= usize::MAX as u128 {
        Ok(bytes as usize)
    } else {
        Err(
            CaptureError::InvalidFrame(
                joined(size_text(width, height).as_str(), " RGBA does not fit in memory"),
            ),
        )
    }
}

/// What the frames show together at pixel `(x, y)` of the virtual desktop: the
/// last one that covers it wins, and where none does it is clear.
pub open spec fn composed(frames: Seq<RawFrame>, x: int, y: int) -> Seq<u8>
    decreases frames.len(),
{
    if frames.len() == 0 {
        clear_pixel()
    } else if frames.last().shows(x, y) {
        frames.last().seen_at(x, y)
    } else {
        composed(frames.drop_last(), x, y)
    }
}

/// The places of the frames that have pixels.
pub open spec fn drawn(frames: Seq<RawFrame>) -> Seq<Rect>
    decreases frames.len(),
{
    if frames.len() == 0 {
        seq![]
    } else if frames.last().blank() {
        drawn(frames.drop_last())
    } else {
        drawn(frames.drop_last()).push(frames.last().area())
    }
}

/// The largest scale of the frames that have pixels, never below 1.0.
pub open spec fn finest_scale(frames: Seq<RawFrame>) -> ScaleFactor
    decreases frames.len(),
{
    if frames.len() == 0 {
        ScaleFactor { bits: crate::single::ONE_BITS }
    } else if frames.last().blank() {
        finest_scale(frames.drop_last())
    } else {
        finest_scale(frames.drop_last()).larger_of(frames.last().scale_factor)
    }
}

/// `out` covers exactly the smallest rectangle around the frames that have
/// pixels, and shows at each place what they show together.
pub open spec fn is_composition(out: RawFrame, frames: Seq<RawFrame>) -> bool {
    &&& out.wf()
    &&& crate::geometry::is_bounding_box(out.area(), drawn(frames))
    &&& out.scale_factor == finest_scale(frames)
    &&& forall|x: int, y: int|
        out.shows(x, y) ==> #[trigger] out.seen_at(x, y) == composed(frames, x, y)
}

/// The error says that a frame of this size does not fit in memory, and it does
/// not.
pub open spec fn is_too_large(e: CaptureError, width: int, height: int) -> bool {
    &&& 0 <= width <= u32::MAX
    &&& 0 <= height <= u32::MAX
    &&& width * height * 4 > usize::MAX
    &&& is_invalid(e, too_large_text(width as u32, height as u32))
}

/// What stitching frames together gives.
pub open spec fn is_stitched(result: Result<RawFrame, CaptureError>, frames: Seq<RawFrame>) -> bool {
    if drawn(frames).len() == 0 {
        result matches Err(e) && e is EmptyRegion
    } else {
        match result {
            Ok(out) => is_composition(out, frames),
            Err(e) => forall|b: Rect|
                crate::geometry::is_bounding_box(b, drawn(frames)) ==> is_too_large(
                    e,
                    b.right - b.left,
                    b.bottom - b.top,
                ),
        }
    }
}

/// Every frame with pixels contributes its place.
proof fn lemma_drawn(frames: Seq<RawFrame>, k: int)
    requires
        0 <= k < frames.len(),
        !frames[k].blank(),
    ensures
        drawn(frames).contains(frames[k].area()),
    decreases frames.len(),
{
    let n = frames.len() - 1;
    if k == n {
        let d = drawn(frames);
        assert(d[d.len() - 1] == frames[k].area());
    } else {
        lemma_drawn(frames.drop_last(), k);
        let d = drawn(frames.drop_last());
        let i = choose|i: int| 0 <= i < d.len() && d[i] == frames[k].area();
        assert(drawn(frames)[i] == frames[k].area());
    }
}

/// Every place comes from a frame with pixels.
proof fn lemma_drawn_from(frames: Seq<RawFrame>, i: int) -> (k: int)
    requires
        0 <= i < drawn(frames).len(),
    ensures
        0 <= k < frames.len(),
        !frames[k].blank(),
        drawn(frames)[i] == frames[k].area(),
    decreases frames.len(),
{
    let n = frames.len() - 1;
    if !frames.last().blank() && i == drawn(frames).len() - 1 {
        n
    } else {
        lemma_drawn_from(frames.drop_last(), i)
    }
}

proof fn lemma_finest_scale(frames: Seq<RawFrame>)
    requires
        forall|k: int| 0 <= k < frames.len() ==> (#[trigger] frames[k]).wf(),
    ensures
        finest_scale(frames).wf(),
    decreases frames.len(),
{
    if frames.len() > 0 {
        assert forall|k: int| 0 <= k < frames.drop_last().len() implies (
        #[trigger] frames.drop_last()[k]).wf() by {
            assert(frames[k].wf());
        }
        lemma_finest_scale(frames.drop_last());
        assert(frames[frames.len() - 1].wf());
    }
}

/// Copy all of `frame` into `out` at column `x0` and row `y0`.
fn paste(out: &mut RawFrame, frame: &RawFrame, x0: u32, y0: u32)
    requires
        old(out).wf(),
        frame.wf(),
        x0 + frame.width <= old(out).width,
        y0 + frame.height <= old(out).height,
    ensures
        final(out).wf(),
        final(out).same_shape(*old(out)),
        forall|x: int, y: int|
            old(out).has(x, y) ==> #[trigger] final(out).at(x, y) == (if frame.has(
                x - x0,
                y - y0,
            ) {
                frame.at(x - x0, y - y0)
            } else {
                old(out).at(x, y)
            }),
{
    let ghost start = *out;
    let mut y: u32 = 0;
    while y < frame.height
        invariant
            y <= frame.height,
            start.wf(),
            out.wf(),
            out.same_shape(start),
            frame.wf(),
            x0 + frame.width <= start.width,
            y0 + frame.height <= start.height,
            forall|i: int, j: int|
                start.has(i, j) ==> #[trigger] out.at(i, j) == (if frame.has(i - x0, j - y0) && j
                    - y0 < y {
                    frame.at(i - x0, j - y0)
                } else {
                    start.at(i, j)
                }),
        decreases frame.height - y,
    {
        let mut x: u32 = 0;
        while x < frame.width
            invariant
                y < frame.height,
                x <= frame.width,
                start.wf(),
                out.wf(),
                out.same_shape(start),
                frame.wf(),
                x0 + frame.width <= start.width,
                y0 + frame.height <= start.height,
                forall|i: int, j: int|
                    start.has(i, j) ==> #[trigger] out.at(i, j) == (if frame.has(i - x0, j - y0)
                        && (j - y0 < y || (j - y0 == y && i - x0 < x)) {
                        frame.at(i - x0, j - y0)
                    } else {
                        start.at(i, j)
                    }),
            decreases frame.width - x,
        {
            if let Some(rgba) = frame.pixel(x, y) {
                out.set_pixel(x0 + x, y0 + y, rgba);
            }
            x = x + 1;
        }
        y = y + 1;
    }
}

/// Compose several frames into one image covering their combined bounding box.
///
/// * The result's origin is the top-left of the bounding box, so negative
///   monitor origins are handled without shifting anyone's content.
/// * Areas no frame covers, the gaps in an L-shaped or staggered layout, stay
///   fully transparent: there are no pixels there.
/// * Frames are drawn in slice order, so later frames win where they overlap.
/// * The reported scale factor is the largest of the inputs, floored at 1.0: a
///   composite that claimed to be sub-unit scaled would tell a consumer to
///   enlarge it.
pub fn stitch(frames: &[RawFrame]) -> (result: Result<RawFrame, CaptureError>)
    requires
        forall|k: int|
            0 <= k < frames@.len() ==> (#[trigger] frames@[k]).wf() && (frames@[k].blank()
                || frames@[k].placed()),
    ensures
        is_stitched(result, frames@),
{
    let mut rects: Vec<Rect> = Vec::new();
    let mut scale = ScaleFactor::one();
    let mut i: usize = 0;
    while i < frames.len()
        invariant
            i <= frames@.len(),
            rects@ == drawn(frames@.take(i as int)),
            scale == finest_scale(frames@.take(i as int)),
        decreases frames.len() - i,
    {
        assert(frames@.take(i + 1).drop_last() =~= frames@.take(i as int));
        if !frames[i].is_empty() {
            rects.push(frames[i].bounds());
            scale = scale.larger(frames[i].scale_factor);
        }
        i = i + 1;
    }
    assert(frames@.take(i as int) =~= frames@);
    let b = match bounding_box(rects.as_slice()) {
        Some(b) => b,
        None => {
            return Err(CaptureError::EmptyRegion);
        },
    };
    proof {
        assert forall|j: int| 0 <= j < rects@.len() implies {
            &&& i32::MIN <= (#[trigger] rects@[j]).left < rects@[j].right <= i32::MAX
            &&& i32::MIN <= rects@[j].top < rects@[j].bottom <= i32::MAX
        } by {
            let k = lemma_drawn_from(frames@, j);
            assert(frames@[k].placed());
        }
        lemma_finest_scale(frames@);
    }
    let width: u32 = (b.right - b.left) as u32;
    let height: u32 = (b.bottom - b.top) as u32;
    proof {
        assert forall|c: Rect| crate::geometry::is_bounding_box(c, drawn(frames@)) implies c
            == b by {
            crate::geometry::law_bounding_box_is_unique(c, b, drawn(frames@), rects@);
        }
    }
    let mut out = match RawFrame::transparent(width, height, b.pos(), scale.bits) {
        Ok(out) => out,
        Err(e) => {
            return Err(e);
        },
    };
    let ghost blank = out;
    let mut k: usize = 0;
    while k < frames.len()
        invariant
            k <= frames@.len(),
            forall|j: int|
                0 <= j < frames@.len() ==> (#[trigger] frames@[j]).wf() && (frames@[j].blank()
                    || frames@[j].placed()),
            out.wf(),
            out.same_shape(blank),
            blank.origin == (Vec2D { x: b.left, y: b.top }),
            blank.width == b.right - b.left,
            blank.height == b.bottom - b.top,
            crate::geometry::is_bounding_box(b, drawn(frames@)),
            i32::MIN <= b.left <= b.right <= i32::MAX,
            i32::MIN <= b.top <= b.bottom <= i32::MAX,
            forall|x: int, y: int|
                out.has(x, y) ==> #[trigger] out.at(x, y) == composed(
                    frames@.take(k as int),
                    x + b.left,
                    y + b.top,
                ),
        decreases frames.len() - k,
    {
        let ghost before = out;
        assert(frames@.take(k + 1).drop_last() =~= frames@.take(k as int));
        assert(frames@.take(k + 1).last() == frames@[k as int]);
        let frame = &frames[k];
        if !frame.is_empty() {
            proof {
                lemma_drawn(frames@, k as int);
                let d = drawn(frames@);
                let j = choose|j: int| 0 <= j < d.len() && d[j] == frame.area();
                assert(b.covers(d[j].in_order()));
            }
            paste(
                &mut out,
                frame,
                (frame.origin.x - b.left) as u32,
                (frame.origin.y - b.top) as u32,
            );
        }
        proof {
            assert forall|x: int, y: int| out.has(x, y) implies #[trigger] out.at(x, y) == composed(
                frames@.take(k + 1),
                x + b.left,
                y + b.top,
            ) by {
                assert(before.has(x, y));
                assert(before.at(x, y) == composed(
                    frames@.take(k as int),
                    x + b.left,
                    y + b.top,
                ));
                let fx = x + b.left - frame.origin.x;
                let fy = y + b.top - frame.origin.y;
                assert(frame.has(fx, fy) == frame.shows(x + b.left, y + b.top));
            }
        }
        k = k + 1;
    }
    proof {
        assert(frames@.take(k as int) =~= frames@);
        assert forall|x: int, y: int| out.shows(x, y) implies #[trigger] out.seen_at(x, y)
            == composed(frames@, x, y) by {
            assert(out.has(x - b.left, y - b.top));
            assert(out.at(x - b.left, y - b.top) == composed(frames@, x, y));
        }
        assert(out.area() == b);
    }
    Ok(out)
}

/// Where frame `k` covers a pixel and no later frame does, the composition shows
/// frame `k`: later frames win where frames overlap.
pub proof fn law_later_frames_win(frames: Seq<RawFrame>, k: int, x: int, y: int)
    requires
        0 <= k < frames.len(),
        frames[k].shows(x, y),
        forall|j: int| k < j < frames.len() ==> !(#[trigger] frames[j]).shows(x, y),
    ensures
        composed(frames, x, y) == frames[k].seen_at(x, y),
    decreases frames.len(),
{
    if k < frames.len() - 1 {
        assert(!frames[frames.len() - 1].shows(x, y));
        law_later_frames_win(frames.drop_last(), k, x, y);
    }
}

/// Where no frame covers a pixel, the composition is fully transparent.
pub proof fn law_gaps_are_clear(frames: Seq<RawFrame>, x: int, y: int)
    requires
        forall|j: int| 0 <= j < frames.len() ==> !(#[trigger] frames[j]).shows(x, y),
    ensures
        composed(frames, x, y) == clear_pixel(),
    decreases frames.len(),
{
    if frames.len() > 0 {
        assert(!frames[frames.len() - 1].shows(x, y));
        law_gaps_are_clear(frames.drop_last(), x, y);
    }
}

/// Frames of one size that show the same pixels hold the same bytes.
proof fn lemma_same_pixels(a: RawFrame, b: RawFrame)
    requires
        a.wf(),
        b.wf(),
        a.width == b.width,
        a.height == b.height,
        forall|x: int, y: int| a.has(x, y) ==> #[trigger] a.at(x, y) == b.at(x, y),
    ensures
        a.data@ == b.data@,
{
    let w = a.width as int;
    let h = a.height as int;
    assert forall|n: int| 0 <= n < a.data@.len() implies a.data@[n] == b.data@[n] by {
        let q = n / 4;
        assert(w * h * 4 == 4 * (w * h));
        lemma_pixel_position(w, h, q);
        let x = q % w;
        let y = q / w;
        assert(a.has(x, y));
        assert(a.at(x, y) == b.at(x, y));
        let c = n - 4 * q;
        assert(nth_pixel(a.data@, q)[c] == a.data@[n]);
        assert(nth_pixel(b.data@, q)[c] == b.data@[n]);
    }
    assert(a.data@ =~= b.data@);
}

/// Cutting out all of a frame that is no larger than a pixel rectangle can be
/// gives the frame back.
pub proof fn law_cropping_to_everything_keeps_the_frame(
    frame: RawFrame,
    result: Result<RawFrame, CaptureError>,
)
    requires
        frame.wf(),
        !frame.blank(),
        frame.placed(),
        frame.measurable(),
        is_cropped(result, frame, frame.area()),
    ensures
        result matches Ok(cut) && cut.same_shape(frame) && cut.data@ == frame.data@,
{
    let cut = result->Ok_0;
    lemma_same_place(cut, frame);
}

/// Two frames at one place that show the same hold the same bytes.
proof fn lemma_same_place(a: RawFrame, b: RawFrame)
    requires
        a.wf(),
        b.wf(),
        a.width == b.width,
        a.height == b.height,
        a.origin == b.origin,
        forall|x: int, y: int| b.shows(x, y) ==> #[trigger] a.seen_at(x, y) == b.seen_at(x, y),
    ensures
        a.data@ == b.data@,
{
    assert forall|x: int, y: int| a.has(x, y) implies #[trigger] a.at(x, y) == b.at(x, y) by {
        let i = x + a.origin.x;
        let j = y + a.origin.y;
        assert(b.shows(i, j));
        assert(a.seen_at(i, j) == b.seen_at(i, j));
    }
    lemma_same_pixels(a, b);
}

/// A desktop of one monitor is that monitor: stitching a single frame copies
/// its place and its bytes.
pub proof fn law_stitching_one_frame_copies_it(frame: RawFrame, out: RawFrame)
    requires
        frame.wf(),
        !frame.blank(),
        frame.placed(),
        is_composition(out, seq![frame]),
    ensures
        out.area() == frame.area(),
        out.data@ == frame.data@,
{
    let frames = seq![frame];
    assert(frames.drop_last() =~= seq![]);
    assert(drawn(frames.drop_last()) =~= seq![]);
    assert(drawn(frames) =~= seq![frame.area()]);
    assert(out.area() == frame.area()) by {
        assert(crate::geometry::is_bounding_box(out.area(), drawn(frames)));
        assert(out.area().covers(drawn(frames)[0].in_order()));
    }
    assert(out.origin == frame.origin);
    assert forall|x: int, y: int| frame.shows(x, y) implies #[trigger] out.seen_at(x, y)
        == frame.seen_at(x, y) by {
        assert(out.shows(x, y));
        law_later_frames_win(frames, 0, x, y);
    }
    lemma_same_place(out, frame);
}

/// A stitched desktop loses nothing: cutting a monitor back out of it gives the
/// monitor's own bytes, when no later frame overlaps that monitor and it is no
/// larger than a pixel rectangle can be.
pub proof fn law_a_stitched_frame_can_be_cut_back_out(
    frames: Seq<RawFrame>,
    out: RawFrame,
    k: int,
    result: Result<RawFrame, CaptureError>,
)
    requires
        is_composition(out, frames),
        0 <= k < frames.len(),
        frames[k].wf(),
        !frames[k].blank(),
        frames[k].placed(),
        frames[k].measurable(),
        forall|j: int, x: int, y: int|
            k < j < frames.len() && frames[k].shows(x, y) ==> !(#[trigger] frames[j].shows(x, y)),
        is_cropped(result, out, frames[k].area()),
    ensures
        result matches Ok(cut) && cut.area() == frames[k].area() && cut.data@ == frames[k].data@,
{
    let frame = frames[k];
    lemma_drawn(frames, k);
    let d = drawn(frames);
    let i = choose|i: int| 0 <= i < d.len() && d[i] == frame.area();
    assert(out.area().covers(d[i].in_order()));
    let clipped = frame.area().in_order().within(out.area());
    assert(clipped == frame.area());
    let cut = result->Ok_0;
    assert(is_cut(cut, out, grid_rect(clipped)));
    assert(grid_rect(clipped) == frame.area());
    assert forall|x: int, y: int| frame.shows(x, y) implies #[trigger] cut.seen_at(x, y)
        == frame.seen_at(x, y) by {
        assert(frame.area().owns(x, y));
        assert(cut.seen_at(x, y) == out.seen_at(x, y));
        assert(out.shows(x, y));
        assert(out.seen_at(x, y) == composed(frames, x, y));
        law_later_frames_win(frames, k, x, y);
    }
    lemma_same_place(cut, frame);
}

/// A frame is rows of pixels, four bytes each, the rows one after another; and
/// it covers as many columns and rows of the desktop, from its origin on.
pub proof fn law_frames_are_rows_of_pixels(frame: RawFrame, x: int, y: int, c: int)
    requires
        0 <= c < 4,
    ensures
        byte_len(frame.width, frame.height) == 4 * (frame.width * frame.height),
        frame.at(x, y).len() == 4,
        frame.at(x, y)[c] == frame.data@[4 * (y * frame.width + x) + c],
        clear_pixel().len() == 4 && clear_pixel()[c] == 0,
        frame.has(x, y) <==> 0 <= x && x < frame.width && 0 <= y && y < frame.height,
        frame.shows(x, y) <==> frame.origin.x <= x && x < frame.origin.x + frame.width
            && frame.origin.y <= y && y < frame.origin.y + frame.height,
        frame.seen_at(x, y) == frame.at(x - frame.origin.x, y - frame.origin.y),
        frame.blank() <==> frame.width * frame.height == 0,
{
    let w = frame.width as int;
    let h = frame.height as int;
    assert(w * h * 4 == 4 * (w * h)) by (nonlinear_arith);
    assert(w * h == 0 <==> w == 0 || h == 0) by (nonlinear_arith);
}

/// A frame's place on the desktop starts at its origin and is as large as the
/// frame.
pub proof fn law_a_frames_place_is_its_size(frame: RawFrame)
    requires
        frame.origin.x + frame.width <= i64::MAX,
        frame.origin.y + frame.height <= i64::MAX,
    ensures
        frame.area().left == frame.origin.x,
        frame.area().top == frame.origin.y,
        frame.area().right - frame.area().left == frame.width,
        frame.area().bottom - frame.area().top == frame.height,
{
}

/// Cutting copies bytes: every byte of the part is the byte that the frame has
/// for the same pixel of the desktop, and every pixel of the part is one of the
/// frame's.
pub proof fn law_cropping_copies_bytes(
    frame: RawFrame,
    region: Rect,
    result: Result<RawFrame, CaptureError>,
    x: int,
    y: int,
    c: int,
)
    requires
        is_cropped(result, frame, region),
        result is Ok,
        0 <= x < result->Ok_0.width,
        0 <= y < result->Ok_0.height,
        0 <= c < 4,
    ensures
        ({
            let cut = result->Ok_0;
            let column = cut.origin.x + x - frame.origin.x;
            let row = cut.origin.y + y - frame.origin.y;
            &&& 0 <= column < frame.width
            &&& 0 <= row < frame.height
            &&& cut.data@[4 * (y * cut.width + x) + c] == frame.data@[4 * (row * frame.width
                + column) + c]
            &&& cut.data@.len() == 4 * (cut.width * cut.height)
            &&& cut.scale_factor == frame.scale_factor
        }),
{
    let cut = result->Ok_0;
    let r = grid_rect(region.in_order().within(frame.area()));
    let i = cut.origin.x + x;
    let j = cut.origin.y + y;
    assert(r.owns(i, j));
    assert(cut.seen_at(i, j) == frame.seen_at(i, j));
    law_frames_are_rows_of_pixels(cut, x, y, c);
    law_frames_are_rows_of_pixels(frame, i - frame.origin.x, j - frame.origin.y, c);
    assert(cut.seen_at(i, j)[c] == frame.seen_at(i, j)[c]);
}

/// Cutting keeps what the region and the frame share: a pixel of the desktop is
/// in the part exactly when it is in both. Where they share one the part is
/// there, and where they share none there is an error. A region may name its
/// corners in any order.
pub proof fn law_cropping_keeps_what_is_shared(
    frame: RawFrame,
    region: Rect,
    result: Result<RawFrame, CaptureError>,
    x: int,
    y: int,
)
    requires
        frame.placed(),
        frame.measurable(),
        is_cropped(result, frame, region),
    ensures
        ({
            let across = region.left <= x < region.right || region.right <= x < region.left;
            let down = region.top <= y < region.bottom || region.bottom <= y < region.top;
            let shared = across && down && frame.origin.x <= x < frame.origin.x + frame.width
                && frame.origin.y <= y < frame.origin.y + frame.height;
            &&& shared ==> result is Ok
            &&& result matches Ok(cut) ==> (shared <==> cut.origin.x <= x < cut.origin.x + cut.width
                && cut.origin.y <= y < cut.origin.y + cut.height)
            &&& result matches Ok(cut) ==> cut.width > 0 && cut.height > 0
            &&& result matches Err(e) ==> e is EmptyRegion
        }),
{
}

/// Stitching copies bytes: every byte of the whole is that of the last frame
/// that covers its place on the desktop, and zero where no frame does.
pub proof fn law_stitching_copies_bytes(
    frames: Seq<RawFrame>,
    result: Result<RawFrame, CaptureError>,
    x: int,
    y: int,
    c: int,
)
    requires
        is_stitched(result, frames),
        result is Ok,
        0 <= x < result->Ok_0.width,
        0 <= y < result->Ok_0.height,
        0 <= c < 4,
    ensures
        ({
            let out = result->Ok_0;
            let i = out.origin.x + x;
            let j = out.origin.y + y;
            let byte = out.data@[4 * (y * out.width + x) + c];
            &&& out.data@.len() == 4 * (out.width * out.height)
            &&& (forall|k: int|
                #![trigger frames[k]]
                0 <= k < frames.len() ==> !(frames[k].origin.x <= i < frames[k].origin.x
                    + frames[k].width && frames[k].origin.y <= j < frames[k].origin.y
                    + frames[k].height)) ==> byte == 0
            &&& forall|k: int|
                #![trigger frames[k]]
                0 <= k < frames.len() && frames[k].origin.x <= i < frames[k].origin.x
                    + frames[k].width && frames[k].origin.y <= j < frames[k].origin.y
                    + frames[k].height && (forall|m: int|
                    #![trigger frames[m]]
                    k < m < frames.len() ==> !(frames[m].origin.x <= i < frames[m].origin.x
                        + frames[m].width && frames[m].origin.y <= j < frames[m].origin.y
                        + frames[m].height)) ==> byte == frames[k].data@[4 * ((j
                    - frames[k].origin.y) * frames[k].width + (i - frames[k].origin.x)) + c]
        }),
{
    let out = result->Ok_0;
    let i = out.origin.x + x;
    let j = out.origin.y + y;
    law_frames_are_rows_of_pixels(out, x, y, c);
    assert(out.shows(i, j));
    assert(out.seen_at(i, j) == composed(frames, i, j));
    assert(out.seen_at(i, j)[c] == out.data@[4 * (y * out.width + x) + c]);
    if forall|k: int|
        #![trigger frames[k]]
        0 <= k < frames.len() ==> !(frames[k].origin.x <= i < frames[k].origin.x + frames[k].width
            && frames[k].origin.y <= j < frames[k].origin.y + frames[k].height) {
        law_gaps_are_clear(frames, i, j);
    }
    assert forall|k: int|
        #![trigger frames[k]]
        0 <= k < frames.len() && frames[k].origin.x <= i < frames[k].origin.x + frames[k].width
            && frames[k].origin.y <= j < frames[k].origin.y + frames[k].height && (forall|m: int|
            #![trigger frames[m]]
            k < m < frames.len() ==> !(frames[m].origin.x <= i < frames[m].origin.x
                + frames[m].width && frames[m].origin.y <= j < frames[m].origin.y
                + frames[m].height)) implies out.data@[4 * (y * out.width + x) + c]
        == frames[k].data@[4 * ((j - frames[k].origin.y) * frames[k].width + (i
        - frames[k].origin.x)) + c] by {
        law_later_frames_win(frames, k, i, j);
        law_frames_are_rows_of_pixels(frames[k], i - frames[k].origin.x, j - frames[k].origin.y, c);
    }
}

/// A stitched desktop reaches to the outermost edges of its frames and no
/// further. Frames without pixels count for nothing, and without any others
/// there is nothing to stitch.
pub proof fn law_a_stitched_desktop_reaches_its_frames(
    frames: Seq<RawFrame>,
    result: Result<RawFrame, CaptureError>,
)
    requires
        is_stitched(result, frames),
        forall|k: int|
            0 <= k < frames.len() ==> (#[trigger] frames[k]).blank() || frames[k].placed(),
    ensures
        (result matches Err(e) && e is EmptyRegion) <==> forall|k: int|
            #![trigger frames[k]]
            0 <= k < frames.len() ==> frames[k].width == 0 || frames[k].height == 0,
        result matches Ok(out) ==> {
            &&& forall|k: int|
                #![trigger frames[k]]
                0 <= k < frames.len() && frames[k].width > 0 && frames[k].height > 0 ==> {
                    &&& out.origin.x <= frames[k].origin.x
                    &&& out.origin.y <= frames[k].origin.y
                    &&& frames[k].origin.x + frames[k].width <= out.origin.x + out.width
                    &&& frames[k].origin.y + frames[k].height <= out.origin.y + out.height
                }
            &&& exists|k: int|
                #![trigger frames[k]]
                0 <= k < frames.len() && frames[k].width > 0 && frames[k].height > 0
                    && frames[k].origin.x == out.origin.x
            &&& exists|k: int|
                #![trigger frames[k]]
                0 <= k < frames.len() && frames[k].width > 0 && frames[k].height > 0
                    && frames[k].origin.y == out.origin.y
            &&& exists|k: int|
                #![trigger frames[k]]
                0 <= k < frames.len() && frames[k].width > 0 && frames[k].height > 0
                    && frames[k].origin.x + frames[k].width == out.origin.x + out.width
            &&& exists|k: int|
                #![trigger frames[k]]
                0 <= k < frames.len() && frames[k].width > 0 && frames[k].height > 0
                    && frames[k].origin.y + frames[k].height == out.origin.y + out.height
        },
{
    if drawn(frames).len() > 0 {
        let some = lemma_drawn_from(frames, 0);
        if let Ok(out) = result {
            lemma_stitched_reach(frames, out);
        } else {
            lemma_stitched_error(frames, result->Err_0);
        }
    } else {
        assert forall|k: int| #![trigger frames[k]] 0 <= k < frames.len() implies frames[k].width
            == 0 || frames[k].height == 0 by {
            if !frames[k].blank() {
                lemma_drawn(frames, k);
            }
        }
    }
}

proof fn lemma_stitched_reach(frames: Seq<RawFrame>, out: RawFrame)
    requires
        is_composition(out, frames),
        forall|k: int|
            0 <= k < frames.len() ==> (#[trigger] frames[k]).blank() || frames[k].placed(),
    ensures
        forall|k: int|
            #![trigger frames[k]]
            0 <= k < frames.len() && frames[k].width > 0 && frames[k].height > 0 ==> {
                &&& out.origin.x <= frames[k].origin.x
                &&& out.origin.y <= frames[k].origin.y
                &&& frames[k].origin.x + frames[k].width <= out.origin.x + out.width
                &&& frames[k].origin.y + frames[k].height <= out.origin.y + out.height
            },
        exists|k: int|
            #![trigger frames[k]]
            0 <= k < frames.len() && frames[k].width > 0 && frames[k].height > 0
                && frames[k].origin.x == out.origin.x,
        exists|k: int|
            #![trigger frames[k]]
            0 <= k < frames.len() && frames[k].width > 0 && frames[k].height > 0
                && frames[k].origin.y == out.origin.y,
        exists|k: int|
            #![trigger frames[k]]
            0 <= k < frames.len() && frames[k].width > 0 && frames[k].height > 0
                && frames[k].origin.x + frames[k].width == out.origin.x + out.width,
        exists|k: int|
            #![trigger frames[k]]
            0 <= k < frames.len() && frames[k].width > 0 && frames[k].height > 0
                && frames[k].origin.y + frames[k].height == out.origin.y + out.height,
{
    let d = drawn(frames);
    let b = out.area();
    assert forall|k: int|
        #![trigger frames[k]]
        0 <= k < frames.len() && frames[k].width > 0 && frames[k].height > 0 implies {
        &&& out.origin.x <= frames[k].origin.x
        &&& out.origin.y <= frames[k].origin.y
        &&& frames[k].origin.x + frames[k].width <= out.origin.x + out.width
        &&& frames[k].origin.y + frames[k].height <= out.origin.y + out.height
    } by {
        lemma_drawn(frames, k);
        let i = choose|i: int| 0 <= i < d.len() && d[i] == frames[k].area();
        assert(b.covers(d[i].in_order()));
    }
    let l = choose|i: int| 0 <= i < d.len() && (#[trigger] d[i]).in_order().left == b.left;
    let t = choose|i: int| 0 <= i < d.len() && (#[trigger] d[i]).in_order().top == b.top;
    let kl = lemma_drawn_from(frames, l);
    let kt = lemma_drawn_from(frames, t);
    let e = choose|i: int| 0 <= i < d.len() && (#[trigger] d[i]).in_order().right == b.right;
    let m = choose|i: int| 0 <= i < d.len() && (#[trigger] d[i]).in_order().bottom == b.bottom;
    let ke = lemma_drawn_from(frames, e);
    let km = lemma_drawn_from(frames, m);
    assert(frames[kl].placed() && frames[kt].placed() && frames[ke].placed() && frames[km].placed());
    assert(frames[ke].origin.x + frames[ke].width == out.origin.x + out.width);
    assert(frames[km].origin.y + frames[km].height == out.origin.y + out.height);
    assert(frames[kl].origin.x == out.origin.x && frames[kt].origin.y == out.origin.y);
}

proof fn lemma_stitched_error(frames: Seq<RawFrame>, e: CaptureError)
    requires
        drawn(frames).len() > 0,
        is_stitched(Err::<RawFrame, CaptureError>(e), frames),
    ensures
        !(e is EmptyRegion),
{
    let b = lemma_some_box(drawn(frames));
}

proof fn lemma_some_box(rects: Seq<Rect>) -> (b: Rect)
    requires
        rects.len() > 0,
    ensures
        crate::geometry::is_bounding_box(b, rects),
    decreases rects.len(),
{
    let r = rects.last().in_order();
    if rects.len() == 1 {
        assert(rects[0] == rects.last());
        r
    } else {
        let before = lemma_some_box(rects.drop_last());
        let grown = Rect {
            left: crate::geometry::least(before.left as int, r.left as int) as i64,
            top: crate::geometry::least(before.top as int, r.top as int) as i64,
            right: crate::geometry::greatest(before.right as int, r.right as int) as i64,
            bottom: crate::geometry::greatest(before.bottom as int, r.bottom as int) as i64,
        };
        crate::geometry::lemma_bounding_box_grows(before, rects.drop_last(), rects.last(), grown);
        assert(rects.drop_last().push(rects.last()) =~= rects);
        grown
    }
}

/// The scale of a stitched desktop is at least 1.0 and at least that of each of
/// its frames with pixels, and it is 1.0 or the scale of one of them.
pub proof fn law_a_stitched_desktop_takes_the_finest_scale(frames: Seq<RawFrame>)
    ensures
        finest_scale(frames).bits >= 0x3f80_0000,
        forall|k: int|
            #![trigger frames[k]]
            0 <= k < frames.len() && frames[k].width > 0 && frames[k].height > 0
                ==> finest_scale(frames).bits >= frames[k].scale_factor.bits,
        finest_scale(frames).bits == 0x3f80_0000 || exists|k: int|
            #![trigger frames[k]]
            0 <= k < frames.len() && frames[k].width > 0 && frames[k].height > 0
                && finest_scale(frames) == frames[k].scale_factor,
    decreases frames.len(),
{
    if frames.len() > 0 {
        let rest = frames.drop_last();
        law_a_stitched_desktop_takes_the_finest_scale(rest);
        let last = frames.len() - 1;
        assert forall|k: int|
            #![trigger frames[k]]
            0 <= k < frames.len() && frames[k].width > 0 && frames[k].height > 0 implies
            finest_scale(frames).bits >= frames[k].scale_factor.bits by {
            if k < last {
                assert(rest[k] == frames[k]);
            }
        }
        if finest_scale(frames).bits != 0x3f80_0000 {
            if finest_scale(frames) == finest_scale(rest) {
                let k = choose|k: int|
                    #![trigger rest[k]]
                    0 <= k < rest.len() && rest[k].width > 0 && rest[k].height > 0 && finest_scale(
                        rest,
                    ) == rest[k].scale_factor;
                assert(frames[k] == rest[k]);
            } else {
                assert(finest_scale(frames) == frames[last].scale_factor);
            }
        }
    }
}

/// The dimensions in a message read as the width, a cross, and the height.
pub proof fn law_dimensions_read_as_width_and_height(width: u32, height: u32)
    ensures
        ({
            let text = dimensions_text(width, height);
            let cross = crate::text::first_position(text, 'x');
            &&& 0 < cross < text.len()
            &&& crate::text::decimal_value(text.subrange(0, cross)) == width
            &&& crate::text::decimal_value(text.subrange(cross + 1, text.len() as int)) == height
        }),
{
    let w = crate::text::decimal_text(width as nat);
    let h = crate::text::decimal_text(height as nat);
    let text = dimensions_text(width, height);
    crate::text::law_decimals_read_as_their_number(width as nat);
    crate::text::law_decimals_read_as_their_number(height as nat);
    reveal_strlit("x");
    let cross = w.len() as int;
    assert(text[cross] == 'x');
    assert forall|i: int| 0 <= i < cross implies #[trigger] text[i] != 'x' by {
        assert(text[i] == w[i]);
        assert('0' <= w[i] <= '9');
    }
    crate::text::lemma_first_position(text, 'x', cross);
    assert(text.subrange(0, cross) =~= w);
    assert(text.subrange(cross + 1, text.len() as int) =~= h);
}

/// The message on a buffer of the wrong length starts with the dimensions, and
/// gives the length that they need, four bytes for each pixel, and the one found.
pub proof fn law_length_messages_give_both_lengths(width: u32, height: u32, got: nat)
    ensures
        ({
            let text = wrong_length_text(width, height, got);
            let size = dimensions_text(width, height).len() as int;
            let needed = crate::text::decimal_text((4 * (width * height)) as nat);
            let found = crate::text::decimal_text(got);
            let end = text.len() as int;
            &&& text.subrange(0, size) == dimensions_text(width, height)
            &&& 4 * (width * height) <= usize::MAX ==> {
                &&& text.subrange(size + 12, size + 12 + needed.len()) == needed
                &&& text.subrange(end - found.len(), end) == found
            }
        }),
{
    reveal_strlit(" RGBA needs ");
    assert(width * height * 4 == 4 * (width * height));
    let text = wrong_length_text(width, height, got);
    let size = dimensions_text(width, height).len() as int;
    let needed = crate::text::decimal_text((4 * (width * height)) as nat);
    let found = crate::text::decimal_text(got);
    let end = text.len() as int;
    assert(text.subrange(0, size) =~= dimensions_text(width, height));
    if 4 * (width * height) <= usize::MAX {
        assert(text.subrange(size + 12, size + 12 + needed.len()) =~= needed);
        assert(text.subrange(end - found.len(), end) =~= found);
    }
}

/// An error about a frame is of that kind, and says what was to be said.
pub proof fn law_errors_about_frames_are_of_their_kind(e: CaptureError, text: Seq<char>)
    requires
        is_invalid(e, text),
    ensures
        e is InvalidFrame,
        e.detail() == text,
{
}

/// Any frame whose far edges are coordinates is on the grid.
pub proof fn law_the_grid_ends_at_the_last_coordinate(frame: RawFrame)
    ensures
        frame.origin.x + frame.width <= 0x7fff_ffff && frame.origin.y + frame.height <= 0x7fff_ffff
            && frame.origin.x >= -0x8000_0000 && frame.origin.y >= -0x8000_0000 ==> frame.placed(),
        frame.origin.x + frame.width > 0x7fff_ffff || frame.origin.y + frame.height > 0x7fff_ffff
            ==> !frame.placed(),
{
}

} // verus!
