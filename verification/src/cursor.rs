//! The mouse cursor, and drawing it into a captured frame.
//!
//! Screenshots do not hold the pointer: compositors draw it on a separate
//! hardware plane. A tool that wants it has to fetch the cursor bitmap
//! separately and blend it in itself. Everything here is arithmetic on buffers;
//! the only platform-specific part is *asking* for the cursor.
//!
//! Cursors are anti-aliased and translucent at the edges. [`CursorImage`] stores
//! **premultiplied** RGBA, which makes the source-over blend exact, while
//! [`RawFrame`] stays straight. The conversion happens once, on the way in.

use crate::error::CaptureError;
use crate::frame::{lemma_pixel_number, lemma_pixel_position, lemma_rows_fit, RawFrame};
use crate::geometry::{PixelRect, Vec2D};
use crate::text::{decimal, joined};
use vstd::arithmetic::power2::*;
use vstd::prelude::*;
use vstd::string::*;

verus! {

/// Where a platform says the cursor is.
///
/// The two conventions differ by the hotspot, the pixel inside the bitmap that
/// is "the point of the arrow".
#[derive(Debug, Clone, Copy, PartialEq, Eq, Structural)]
pub enum CursorAnchor {
    /// The position is the top-left corner of the bitmap already.
    TopLeft(Vec2D),
    /// The position is the hotspot, which sits at `(xhot, yhot)` inside the
    /// bitmap.
    Hotspot {
        /// Hotspot position on the virtual desktop, in physical pixels.
        position: Vec2D,
        /// Hotspot column within the bitmap.
        xhot: u32,
        /// Hotspot row within the bitmap.
        yhot: u32,
    },
}

impl CursorAnchor {
    /// The bitmap's top-left corner on the virtual desktop.
    pub open spec fn corner(self) -> Vec2D {
        match self {
            CursorAnchor::TopLeft(p) => p,
            CursorAnchor::Hotspot { position, xhot, yhot } => position.seen_from(
                Vec2D { x: xhot as i64, y: yhot as i64 },
            ),
        }
    }

    /// The bitmap's top-left corner on the virtual desktop.
    pub fn top_left(self) -> (p: Vec2D)
        ensures
            p == self.corner(),
    {
        match self {
            CursorAnchor::TopLeft(p) => p,
            CursorAnchor::Hotspot { position, xhot, yhot } => position.minus(
                Vec2D::new(xhot as i64, yhot as i64),
            ),
        }
    }
}

/// A cursor bitmap and where it belongs on the virtual desktop.
#[derive(Debug, Clone, PartialEq)]
pub struct CursorImage {
    /// Width in physical pixels.
    pub width: u32,
    /// Height in physical pixels.
    pub height: u32,
    /// RGBA8, row-major, premultiplied.
    pub data: Vec<u8>,
    /// Top-left corner on the virtual desktop, in physical pixels. Already
    /// hotspot-adjusted.
    pub position: Vec2D,
}

/// `v / 255`, rounded to the nearest integer. There are no ties: 255 is odd.
pub open spec fn over255(v: int) -> int {
    (2 * v + 255) / 510
}

/// The smaller of two bytes.
pub open spec fn least_byte(a: u8, b: u8) -> u8 {
    if b < a {
        b
    } else {
        a
    }
}

/// A pixel whose colours are limited to its alpha, as premultiplied ones are.
pub open spec fn limited(px: Seq<u8>) -> Seq<u8> {
    seq![
        least_byte(px[0], px[3]),
        least_byte(px[1], px[3]),
        least_byte(px[2], px[3]),
        px[3],
    ]
}

/// A straight pixel with its colours multiplied by its alpha.
pub open spec fn premultiplied(px: Seq<u8>) -> Seq<u8> {
    seq![
        over255(px[0] * px[3]) as u8,
        over255(px[1] * px[3]) as u8,
        over255(px[2] * px[3]) as u8,
        px[3],
    ]
}

/// Divide by 255 with rounding: the nearest integer, for every product of two
/// bytes.
pub fn div255(v: u32) -> (q: u32)
    requires
        v <= 65025,
    ensures
        q == over255(v as int),
        q <= 255,
{
    let t: u32 = v + 128;
    let carry: u32 = t >> 8;
    assert(t >> 8 == t / 256) by (bit_vector);
    let u: u32 = t + carry;
    proof {
        assert(u >> 8 == u / 256) by (bit_vector);
        let q = over255(v as int);
        assert(255 * q - 127 <= v <= 255 * q + 127);
        assert(q - 1 <= t / 256 <= q);
    }
    u >> 8
}

proof fn lemma_product(a: u8, b: u8)
    ensures
        0 <= a * b <= 65025,
        a * b == b * a,
        over255(a * b) <= b,
        over255(a * b) <= a,
        over255(a * b) >= 0,
{
    assert(0 <= a * b <= 255 * b && a * b <= a * 255 && a * b <= 65025 && a * b == b * a)
        by (nonlinear_arith)
        requires
            a <= 255,
            b <= 255,
    ;
}

/// What is wrong with a buffer of `got` bytes for a `width` by `height` cursor.
pub open spec fn cursor_length_text(width: u32, height: u32, got: nat) -> Seq<char> {
    if crate::frame::byte_len(width, height) > usize::MAX {
        "cursor does not fit in memory"@
    } else {
        crate::frame::dimensions_text(width, height) + " cursor needs "@
            + crate::text::decimal_text(crate::frame::byte_len(width, height) as nat)
            + " bytes, got "@ + crate::text::decimal_text(got)
    }
}

/// What is wrong with `got` pixels for a `width` by `height` cursor.
pub open spec fn short_cursor_text(width: u32, height: u32, got: nat) -> Seq<char> {
    "cursor is "@ + crate::frame::dimensions_text(width, height) + " but only "@
        + crate::text::decimal_text(got) + " pixels were returned"@
}

/// What is wrong with a mask of `len` bytes whose `rows` rows are `stride` bytes
/// long, for a cursor `width` pixels wide.
pub open spec fn mask_text(width: u32, len: nat, stride: usize, rows: int) -> Seq<char> {
    if 8 * stride < width {
        "a "@ + crate::text::decimal_text(width as nat) + "px mask row needs at least "@
            + crate::text::decimal_text((width as nat + 7) / 8) + " bytes, got a stride of "@
            + crate::text::decimal_text(stride as nat)
    } else if stride * rows > usize::MAX {
        "cursor mask does not fit in memory"@
    } else {
        "cursor mask is "@ + crate::text::decimal_text(len) + " bytes, expected "@
            + crate::text::decimal_text((stride * rows) as nat) + " for "@
            + crate::text::decimal_text(rows as nat) + " rows of "@ + crate::text::decimal_text(
            stride as nat,
        )
    }
}

impl CursorImage {
    /// The buffer matches the dimensions.
    pub open spec fn sized(self) -> bool {
        self.data@.len() == crate::frame::byte_len(self.width, self.height)
    }

    /// The buffer matches the dimensions, and no colour is above its alpha.
    pub open spec fn wf(self) -> bool {
        &&& self.sized()
        &&& forall|n: int|
            0 <= n < self.width * self.height ==> {
                let px = #[trigger] crate::frame::nth_pixel(self.data@, n);
                px[0] <= px[3] && px[1] <= px[3] && px[2] <= px[3]
            }
    }

    /// The four bytes of pixel `(x, y)`.
    pub open spec fn at(self, x: int, y: int) -> Seq<u8> {
        crate::frame::nth_pixel(self.data@, y * self.width + x)
    }

    /// `(x, y)` is a pixel of the bitmap.
    pub open spec fn has(self, x: int, y: int) -> bool {
        0 <= x < self.width && 0 <= y < self.height
    }

    /// Build from already-premultiplied RGBA8.
    ///
    /// Channels above the alpha value are clamped down to it: a cursor that
    /// violates the premultiplied invariant would otherwise blend to more than
    /// full brightness.
    pub fn from_premultiplied(
        width: u32,
        height: u32,
        data: Vec<u8>,
        anchor: CursorAnchor,
    ) -> (result: Result<CursorImage, CaptureError>)
        ensures
            match result {
                Ok(c) => {
                    &&& data@.len() == crate::frame::byte_len(width, height)
                    &&& c.wf()
                    &&& c.width == width
                    &&& c.height == height
                    &&& c.position == anchor.corner()
                    &&& forall|n: int|
                        0 <= n < width * height ==> #[trigger] crate::frame::nth_pixel(c.data@, n)
                            == limited(crate::frame::nth_pixel(data@, n))
                },
                Err(e) => {
                    &&& data@.len() != crate::frame::byte_len(width, height)
                    &&& crate::frame::is_invalid(
                        e,
                        cursor_length_text(width, height, data@.len()),
                    )
                },
            },
    {
        match check_len(width, height, data.len()) {
            Ok(pixels) => {
                let data = limit_to_alpha(data, pixels);
                Ok(CursorImage { width, height, data, position: anchor.top_left() })
            },
            Err(e) => Err(e),
        }
    }

    /// Build from straight (non-premultiplied) RGBA8, premultiplying on the way
    /// in.
    pub fn from_straight(
        width: u32,
        height: u32,
        data: Vec<u8>,
        anchor: CursorAnchor,
    ) -> (result: Result<CursorImage, CaptureError>)
        ensures
            match result {
                Ok(c) => {
                    &&& data@.len() == crate::frame::byte_len(width, height)
                    &&& c.wf()
                    &&& c.width == width
                    &&& c.height == height
                    &&& c.position == anchor.corner()
                    &&& forall|n: int|
                        0 <= n < width * height ==> #[trigger] crate::frame::nth_pixel(c.data@, n)
                            == premultiplied(crate::frame::nth_pixel(data@, n))
                },
                Err(e) => {
                    &&& data@.len() != crate::frame::byte_len(width, height)
                    &&& crate::frame::is_invalid(
                        e,
                        cursor_length_text(width, height, data@.len()),
                    )
                },
            },
    {
        match check_len(width, height, data.len()) {
            Ok(pixels) => {
                let data = premultiply(data, pixels);
                Ok(CursorImage { width, height, data, position: anchor.top_left() })
            },
            Err(e) => Err(e),
        }
    }

    /// The RGBA bytes of an ARGB word.
    pub open spec fn of_argb_word(word: u32) -> Seq<u8> {
        seq![
            (word / 0x1_0000 % 0x100) as u8,
            (word / 0x100 % 0x100) as u8,
            (word % 0x100) as u8,
            (word / 0x100_0000) as u8,
        ]
    }

    /// Build from a buffer of 32-bit `ARGB` words in host byte order:
    /// premultiplied, with alpha in the high byte.
    ///
    /// A short buffer is an error; a longer one has its tail ignored, since a
    /// reply carrying padding past `width * height` is still a usable cursor.
    pub fn from_argb_words(
        width: u32,
        height: u32,
        words: &[u32],
        anchor: CursorAnchor,
    ) -> (result: Result<CursorImage, CaptureError>)
        ensures
            match result {
                Ok(c) => {
                    &&& words@.len() >= width * height
                    &&& crate::frame::byte_len(width, height) <= usize::MAX
                    &&& c.wf()
                    &&& c.width == width
                    &&& c.height == height
                    &&& c.position == anchor.corner()
                    &&& forall|n: int|
                        0 <= n < width * height ==> #[trigger] crate::frame::nth_pixel(c.data@, n)
                            == limited(CursorImage::of_argb_word(words@[n]))
                },
                Err(e) => if words@.len() < width * height {
                    crate::frame::is_invalid(e, short_cursor_text(width, height, words@.len()))
                } else {
                    &&& crate::frame::byte_len(width, height) > usize::MAX
                    &&& crate::frame::is_invalid(e, "cursor does not fit in memory"@)
                },
            },
    {
        let pixels: u64 = PixelRect::new(0, 0, width, height).pixel_count();
        if (words.len() as u64) < pixels {
            let mut message = joined("cursor is ", decimal(width as u64).as_str());
            message.append("x");
            message.append(decimal(height as u64).as_str());
            message.append(" but only ");
            message.append(decimal(words.len() as u64).as_str());
            message.append(" pixels were returned");
            assert(message@ =~= short_cursor_text(width, height, words@.len()));
            return Err(CaptureError::InvalidFrame(message));
        }
        let expected: usize = pixels as usize;
        let mut data: Vec<u8> = Vec::new();
        let mut n: usize = 0;
        while n < expected
            invariant
                n <= expected <= words@.len(),
                data@.len() == 4 * n,
                forall|q: int|
                    0 <= q < n ==> #[trigger] crate::frame::nth_pixel(data@, q)
                        == CursorImage::of_argb_word(words@[q]),
            decreases expected - n,
        {
            let word: u32 = words[n];
            let ghost before = data@;
            data.push((word / 0x1_0000 % 0x100) as u8);
            data.push((word / 0x100 % 0x100) as u8);
            data.push((word % 0x100) as u8);
            data.push((word / 0x100_0000) as u8);
            proof {
                assert forall|q: int| 0 <= q < n + 1 implies #[trigger] crate::frame::nth_pixel(
                    data@,
                    q,
                ) == CursorImage::of_argb_word(words@[q]) by {
                    if q < n {
                        assert(crate::frame::nth_pixel(data@, q) =~= crate::frame::nth_pixel(
                            before,
                            q,
                        ));
                    } else {
                        assert(crate::frame::nth_pixel(data@, q) =~= CursorImage::of_argb_word(
                            words@[q],
                        ));
                    }
                }
            }
            n = n + 1;
        }
        assert(data.len() == 4 * expected);
        CursorImage::from_premultiplied(width, height, data, anchor)
    }

    /// No pixels at all: a hidden cursor, which several platforms report as a
    /// zero-sized bitmap rather than an absence.
    pub fn is_empty(&self) -> (yes: bool)
        ensures
            yes == (self.width == 0 || self.height == 0),
    {
        self.width == 0 || self.height == 0
    }
}

fn min_byte(a: u8, b: u8) -> (m: u8)
    ensures
        m == least_byte(a, b),
{
    if b < a {
        b
    } else {
        a
    }
}

fn limit_to_alpha(data: Vec<u8>, pixels: usize) -> (out: Vec<u8>)
    requires
        data@.len() == 4 * pixels,
    ensures
        out@.len() == data@.len(),
        forall|n: int|
            0 <= n < pixels ==> #[trigger] crate::frame::nth_pixel(out@, n) == limited(
                crate::frame::nth_pixel(data@, n),
            ),
        forall|n: int|
            0 <= n < pixels ==> {
                let px = #[trigger] crate::frame::nth_pixel(out@, n);
                px[0] <= px[3] && px[1] <= px[3] && px[2] <= px[3]
            },
{
    let total: usize = data.len();
    let mut out: Vec<u8> = Vec::with_capacity(total);
    let mut n: usize = 0;
    while n < pixels
        invariant
            n <= pixels,
            total == data@.len(),
            data@.len() == 4 * pixels,
            out@.len() == 4 * n,
            forall|q: int|
                0 <= q < n ==> #[trigger] crate::frame::nth_pixel(out@, q) == limited(
                    crate::frame::nth_pixel(data@, q),
                ),
        decreases pixels - n,
    {
        let ghost before = out@;
        let a: u8 = data[4 * n + 3];
        out.push(min_byte(data[4 * n], a));
        out.push(min_byte(data[4 * n + 1], a));
        out.push(min_byte(data[4 * n + 2], a));
        out.push(a);
        proof {
            assert forall|q: int| 0 <= q < n + 1 implies #[trigger] crate::frame::nth_pixel(out@, q)
                == limited(crate::frame::nth_pixel(data@, q)) by {
                if q < n {
                    assert(crate::frame::nth_pixel(out@, q) =~= crate::frame::nth_pixel(before, q));
                } else {
                    assert(crate::frame::nth_pixel(out@, q) =~= limited(
                        crate::frame::nth_pixel(data@, q),
                    ));
                }
            }
        }
        n = n + 1;
    }
    out
}

fn premultiply(data: Vec<u8>, pixels: usize) -> (out: Vec<u8>)
    requires
        data@.len() == 4 * pixels,
    ensures
        out@.len() == data@.len(),
        forall|n: int|
            0 <= n < pixels ==> #[trigger] crate::frame::nth_pixel(out@, n) == premultiplied(
                crate::frame::nth_pixel(data@, n),
            ),
        forall|n: int|
            0 <= n < pixels ==> {
                let px = #[trigger] crate::frame::nth_pixel(out@, n);
                px[0] <= px[3] && px[1] <= px[3] && px[2] <= px[3]
            },
{
    let total: usize = data.len();
    let mut out: Vec<u8> = Vec::with_capacity(total);
    let mut n: usize = 0;
    while n < pixels
        invariant
            n <= pixels,
            total == data@.len(),
            data@.len() == 4 * pixels,
            out@.len() == 4 * n,
            forall|q: int|
                0 <= q < n ==> #[trigger] crate::frame::nth_pixel(out@, q) == premultiplied(
                    crate::frame::nth_pixel(data@, q),
                ),
            forall|q: int|
                0 <= q < n ==> {
                    let px = #[trigger] crate::frame::nth_pixel(out@, q);
                    px[0] <= px[3] && px[1] <= px[3] && px[2] <= px[3]
                },
        decreases pixels - n,
    {
        let ghost before = out@;
        let a: u8 = data[4 * n + 3];
        proof {
            lemma_product(data@[4 * n as int], a);
            lemma_product(data@[4 * n + 1], a);
            lemma_product(data@[4 * n + 2], a);
        }
        out.push(div255(data[4 * n] as u32 * a as u32) as u8);
        out.push(div255(data[4 * n + 1] as u32 * a as u32) as u8);
        out.push(div255(data[4 * n + 2] as u32 * a as u32) as u8);
        out.push(a);
        proof {
            assert forall|q: int| 0 <= q < n + 1 implies #[trigger] crate::frame::nth_pixel(out@, q)
                == premultiplied(crate::frame::nth_pixel(data@, q)) && {
                let px = crate::frame::nth_pixel(out@, q);
                px[0] <= px[3] && px[1] <= px[3] && px[2] <= px[3]
            } by {
                if q < n {
                    assert(crate::frame::nth_pixel(out@, q) =~= crate::frame::nth_pixel(before, q));
                } else {
                    assert(crate::frame::nth_pixel(out@, q) =~= premultiplied(
                        crate::frame::nth_pixel(data@, q),
                    ));
                }
            }
        }
        n = n + 1;
    }
    out
}

/// The number of pixels, when `len` bytes are exactly what a `width` by
/// `height` cursor needs.
fn check_len(width: u32, height: u32, len: usize) -> (result: Result<usize, CaptureError>)
    ensures
        match result {
            Ok(pixels) => len == crate::frame::byte_len(width, height) && pixels == width * height,
            Err(e) => {
                &&& len != crate::frame::byte_len(width, height)
                &&& crate::frame::is_invalid(e, cursor_length_text(width, height, len as nat))
            },
        },
{
    let pixels: u64 = PixelRect::new(0, 0, width, height).pixel_count();
    let expected: u128 = pixels as u128 * 4;
    if expected > usize::MAX as u128 {
        return Err(CaptureError::invalid_frame("cursor does not fit in memory"));
    }
    if len as u128 != expected {
        let mut message = joined(decimal(width as u64).as_str(), "x");
        message.append(decimal(height as u64).as_str());
        message.append(" cursor needs ");
        message.append(decimal(expected as u64).as_str());
        message.append(" bytes, got ");
        message.append(decimal(len as u64).as_str());
        return Err(CaptureError::InvalidFrame(message));
    }
    Ok(pixels as usize)
}

/// Bit `x` of row `row` in a mask whose rows are `stride` bytes long: the
/// leftmost pixel is the high bit of a byte. Beyond the mask every bit is set.
pub open spec fn mask_bit_at(mask: Seq<u8>, stride: int, x: int, row: int) -> bool {
    let index = row * stride + x / 8;
    index >= mask.len() || (mask[index] as nat / pow2((7 - x % 8) as nat)) % 2 == 1
}

fn bit_of_row(mask: &[u8], stride: usize, x: u32, row: usize) -> (set: bool)
    requires
        row * stride + x / 8 <= usize::MAX,
    ensures
        set == mask_bit_at(mask@, stride as int, x as int, row as int),
{
    proof {
        lemma2_to64();
        assert(0 <= row * stride) by (nonlinear_arith);
    }
    let index: usize = row * stride + x as usize / 8;
    if index >= mask.len() {
        // A short mask is rejected before this; a cursor is never worth taking
        // the process down for.
        return true;
    }
    let byte: u8 = mask[index];
    let unit: u8 = match x % 8 {
        0 => 128,
        1 => 64,
        2 => 32,
        3 => 16,
        4 => 8,
        5 => 4,
        6 => 2,
        _ => 1,
    };
    (byte / unit) % 2 == 1
}

/// Read one pixel from a 1-bit-per-pixel mask.
///
/// Masks are packed most-significant-bit first, with each row padded out to
/// `stride` bytes. A set bit means "transparent" in an AND mask.
pub fn mask_bit(mask: &[u8], stride: usize, x: u32, y: u32) -> (set: bool)
    requires
        y * stride + x / 8 <= usize::MAX,
    ensures
        set == mask_bit_at(mask@, stride as int, x as int, y as int),
{
    bit_of_row(mask, stride, x, y as usize)
}

/// A mask of `len` bytes holds `rows` rows that are `stride` bytes long, and a
/// row holds `width` bits.
pub open spec fn mask_suffices(width: u32, len: nat, stride: usize, rows: int) -> bool {
    &&& 8 * stride >= width
    &&& stride * rows <= len
}

/// Check that a 1-bit mask covers `rows_per_cursor * height` padded rows.
fn require_mask(
    width: u32,
    height: u32,
    mask: &[u8],
    stride: usize,
    rows_per_cursor: u32,
) -> (result: Result<(), CaptureError>)
    requires
        1 <= rows_per_cursor <= 2,
    ensures
        match result {
            Ok(_) => width > 0 && height > 0 && mask_suffices(
                width,
                mask@.len(),
                stride,
                height * rows_per_cursor,
            ),
            Err(e) => if width == 0 || height == 0 {
                e is EmptyRegion
            } else {
                &&& !mask_suffices(width, mask@.len(), stride, height * rows_per_cursor)
                &&& crate::frame::is_invalid(
                    e,
                    mask_text(width, mask@.len(), stride, height * rows_per_cursor),
                )
            },
        },
{
    if width == 0 || height == 0 {
        return Err(CaptureError::EmptyRegion);
    }
    let minimum: usize = (width as usize - 1) / 8 + 1;
    if stride < minimum {
        let mut message = joined("a ", decimal(width as u64).as_str());
        message.append("px mask row needs at least ");
        message.append(decimal(minimum as u64).as_str());
        message.append(" bytes, got a stride of ");
        message.append(decimal(stride as u64).as_str());
        return Err(CaptureError::InvalidFrame(message));
    }
    assert(height * rows_per_cursor <= 0x2_0000_0000) by (nonlinear_arith)
        requires
            height <= 0xffff_ffff,
            rows_per_cursor <= 2,
    ;
    let rows: u64 = height as u64 * rows_per_cursor as u64;
    assert(stride * rows <= usize::MAX * 0x2_0000_0000) by (nonlinear_arith)
        requires
            stride <= usize::MAX,
            rows <= 0x2_0000_0000,
    ;
    let needed: u128 = stride as u128 * rows as u128;
    let held: usize = mask.len();
    if needed > usize::MAX as u128 {
        return Err(CaptureError::invalid_frame("cursor mask does not fit in memory"));
    }
    if (held as u128) < needed {
        let mut message = joined("cursor mask is ", decimal(held as u64).as_str());
        message.append(" bytes, expected ");
        message.append(decimal(needed as u64).as_str());
        message.append(" for ");
        message.append(decimal(rows).as_str());
        message.append(" rows of ");
        message.append(decimal(stride as u64).as_str());
        return Err(CaptureError::InvalidFrame(message));
    }
    Ok(())
}

/// Every bit of a row lies in the mask.
proof fn lemma_mask_index(width: int, stride: int, rows: int, x: int, row: int)
    requires
        0 <= x < width,
        8 * stride >= width,
        0 <= row < rows,
    ensures
        0 <= row * stride + x / 8 < stride * rows,
{
    assert(x / 8 < stride);
    assert(0 <= row * stride + x / 8 < stride * rows) by (nonlinear_arith)
        requires
            0 <= x / 8 < stride,
            0 <= row < rows,
    ;
}

/// Every pixel's alpha is zero: the bitmap predates alpha and leaves the shape
/// to its mask.
pub open spec fn without_alpha(bgra: Seq<u8>, pixels: int) -> bool {
    forall|n: int| 0 <= n < pixels ==> #[trigger] crate::frame::nth_pixel(bgra, n)[3] == 0
}

/// The straight RGBA pixel that a BGRA pixel stands for. Without an alpha
/// channel a set mask bit leaves the screen alone, and a clear one is opaque.
pub open spec fn of_bgra(px: Seq<u8>, no_alpha: bool, masked: bool) -> Seq<u8> {
    seq![
        px[2],
        px[1],
        px[0],
        if !no_alpha {
            px[3]
        } else if masked {
            0
        } else {
            255
        },
    ]
}

/// The straight RGBA pixel that the two bits of a monochrome cursor stand for.
/// Inversion of what is underneath cannot be held in an image: it is black.
pub open spec fn of_mask_bits(and: bool, xor: bool) -> Seq<u8> {
    if and && !xor {
        seq![0u8, 0u8, 0u8, 0u8]
    } else if !and && xor {
        seq![255u8, 255u8, 255u8, 255u8]
    } else {
        seq![0u8, 0u8, 0u8, 255u8]
    }
}

/// Black, white and nothing are what they are when premultiplied.
proof fn lemma_black_and_white(px: Seq<u8>)
    requires
        px.len() == 4,
        px[0] == px[1] == px[2],
        px[0] == 0 || (px[0] == 255 && px[3] == 255),
    ensures
        premultiplied(px) == px,
{
    let a = px[3] as int;
    assert(0 * a == 0);
    assert(255 * 255 == 65025int);
    assert(over255(0) == 0 && over255(65025) == 255);
    if px[0] == 0 {
        assert(px[0] * px[3] == 0) by (nonlinear_arith)
            requires
                px[0] == 0,
        ;
    } else {
        assert(px[0] * px[3] == 65025) by (nonlinear_arith)
            requires
                px[0] == 255,
                px[3] == 255,
        ;
    }
    assert(premultiplied(px) =~= px);
}

fn all_alpha_zero(bgra: &[u8], pixels: usize) -> (yes: bool)
    requires
        bgra@.len() == 4 * pixels,
    ensures
        yes == without_alpha(bgra@, pixels as int),
{
    let total: usize = bgra.len();
    let mut n: usize = 0;
    while n < pixels
        invariant
            n <= pixels,
            total == bgra@.len(),
            bgra@.len() == 4 * pixels,
            without_alpha(bgra@, n as int),
        decreases pixels - n,
    {
        if bgra[4 * n + 3] != 0 {
            assert(crate::frame::nth_pixel(bgra@, n as int)[3] != 0);
            return false;
        }
        n = n + 1;
    }
    true
}

impl CursorImage {
    /// Build from a colour cursor: a top-down BGRA image plus the 1-bit AND
    /// mask that accompanies it. The colours are straight.
    ///
    /// The mask is not redundant. Plenty of cursors are 32 bits per pixel with
    /// the alpha channel left entirely zero, because they predate alpha and
    /// rely on the AND mask for shape. Trusting the alpha there yields a
    /// completely invisible cursor, so an all-zero alpha channel falls back to
    /// the mask.
    pub fn from_win32_color(
        width: u32,
        height: u32,
        bgra: &[u8],
        mask: &[u8],
        mask_stride: usize,
        anchor: CursorAnchor,
    ) -> (result: Result<CursorImage, CaptureError>)
        ensures
            match result {
                Ok(c) => {
                    &&& bgra@.len() == crate::frame::byte_len(width, height)
                    &&& width > 0 && height > 0
                    &&& mask_suffices(width, mask@.len(), mask_stride, height as int)
                    &&& c.wf()
                    &&& c.width == width
                    &&& c.height == height
                    &&& c.position == anchor.corner()
                    &&& forall|x: int, y: int|
                        c.has(x, y) ==> #[trigger] c.at(x, y) == premultiplied(
                            of_bgra(
                                crate::frame::nth_pixel(bgra@, y * width + x),
                                without_alpha(bgra@, width * height),
                                mask_bit_at(mask@, mask_stride as int, x, y),
                            ),
                        )
                },
                Err(e) => if bgra@.len() != crate::frame::byte_len(width, height) {
                    crate::frame::is_invalid(e, cursor_length_text(width, height, bgra@.len()))
                } else if width == 0 || height == 0 {
                    e is EmptyRegion
                } else {
                    &&& !mask_suffices(width, mask@.len(), mask_stride, height as int)
                    &&& crate::frame::is_invalid(
                        e,
                        mask_text(width, mask@.len(), mask_stride, height as int),
                    )
                },
            },
    {
        let pixels: usize = match check_len(width, height, bgra.len()) {
            Ok(pixels) => pixels,
            Err(e) => {
                return Err(e);
            },
        };
        match require_mask(width, height, mask, mask_stride, 1) {
            Ok(_) => {},
            Err(e) => {
                return Err(e);
            },
        }
        let no_alpha = all_alpha_zero(bgra, pixels);
        let total: usize = bgra.len();
        let held: usize = mask.len();
        let w: usize = width as usize;
        let mut data: Vec<u8> = Vec::with_capacity(total);
        let mut n: usize = 0;
        while n < pixels
            invariant
                n <= pixels,
                total == bgra@.len(),
                held == mask@.len(),
                bgra@.len() == 4 * pixels,
                pixels == width * height,
                w == width,
                width > 0,
                no_alpha == without_alpha(bgra@, width * height),
                mask_suffices(width, mask@.len(), mask_stride, height as int),
                data@.len() == 4 * n,
                forall|q: int|
                    0 <= q < n ==> #[trigger] crate::frame::nth_pixel(data@, q) == of_bgra(
                        crate::frame::nth_pixel(bgra@, q),
                        no_alpha,
                        mask_bit_at(mask@, mask_stride as int, q % w as int, q / w as int),
                    ),
            decreases pixels - n,
        {
            proof {
                lemma_pixel_position(w as int, height as int, n as int);
                lemma_mask_index(
                    width as int,
                    mask_stride as int,
                    height as int,
                    n as int % w as int,
                    n as int / w as int,
                );
            }
            let masked = bit_of_row(mask, mask_stride, (n % w) as u32, n / w);
            let alpha: u8 = if !no_alpha {
                bgra[4 * n + 3]
            } else if masked {
                0
            } else {
                255
            };
            let ghost before = data@;
            data.push(bgra[4 * n + 2]);
            data.push(bgra[4 * n + 1]);
            data.push(bgra[4 * n]);
            data.push(alpha);
            proof {
                assert forall|q: int| 0 <= q < n + 1 implies #[trigger] crate::frame::nth_pixel(
                    data@,
                    q,
                ) == of_bgra(
                    crate::frame::nth_pixel(bgra@, q),
                    no_alpha,
                    mask_bit_at(mask@, mask_stride as int, q % w as int, q / w as int),
                ) by {
                    if q < n {
                        assert(crate::frame::nth_pixel(data@, q) =~= crate::frame::nth_pixel(
                            before,
                            q,
                        ));
                    } else {
                        assert(crate::frame::nth_pixel(data@, q) =~= of_bgra(
                            crate::frame::nth_pixel(bgra@, q),
                            no_alpha,
                            masked,
                        ));
                    }
                }
            }
            n = n + 1;
        }
        let result = CursorImage::from_straight(width, height, data, anchor);
        proof {
            let c = result->Ok_0;
            assert forall|x: int, y: int| c.has(x, y) implies #[trigger] c.at(x, y)
                == premultiplied(
                of_bgra(
                    crate::frame::nth_pixel(bgra@, y * width + x),
                    without_alpha(bgra@, width * height),
                    mask_bit_at(mask@, mask_stride as int, x, y),
                ),
            ) by {
                lemma_pixel_number(width as int, height as int, x, y);
            }
        }
        result
    }

    /// Build from a monochrome cursor, where there is no colour bitmap at all
    /// and the mask is double height: the AND mask on top, the XOR mask below
    /// it. The two bits together pick one of four behaviours per pixel: opaque
    /// black, opaque white, transparent, or inversion of whatever is
    /// underneath, which is rendered as opaque black.
    ///
    /// `height` is the cursor's height, not the bitmap's; the buffer must hold
    /// `2 * height` rows.
    pub fn from_win32_monochrome(
        width: u32,
        height: u32,
        mask: &[u8],
        mask_stride: usize,
        anchor: CursorAnchor,
    ) -> (result: Result<CursorImage, CaptureError>)
        ensures
            match result {
                Ok(c) => {
                    &&& width > 0 && height > 0
                    &&& mask_suffices(width, mask@.len(), mask_stride, height * 2)
                    &&& crate::frame::byte_len(width, height) <= usize::MAX
                    &&& c.wf()
                    &&& c.width == width
                    &&& c.height == height
                    &&& c.position == anchor.corner()
                    &&& forall|x: int, y: int|
                        c.has(x, y) ==> #[trigger] c.at(x, y) == of_mask_bits(
                            mask_bit_at(mask@, mask_stride as int, x, y),
                            mask_bit_at(mask@, mask_stride as int, x, y + height),
                        )
                },
                Err(e) => if width == 0 || height == 0 {
                    e is EmptyRegion
                } else if !mask_suffices(width, mask@.len(), mask_stride, height * 2) {
                    crate::frame::is_invalid(
                        e,
                        mask_text(width, mask@.len(), mask_stride, height * 2),
                    )
                } else {
                    &&& crate::frame::byte_len(width, height) > usize::MAX
                    &&& crate::frame::is_invalid(e, "cursor does not fit in memory"@)
                },
            },
    {
        match require_mask(width, height, mask, mask_stride, 2) {
            Ok(_) => {},
            Err(e) => {
                return Err(e);
            },
        }
        let pixels: u64 = PixelRect::new(0, 0, width, height).pixel_count();
        let held: usize = mask.len();
        let w: u64 = width as u64;
        let mut data: Vec<u8> = Vec::new();
        let mut n: u64 = 0;
        while n < pixels
            invariant
                n <= pixels,
                held == mask@.len(),
                pixels == width * height,
                w == width,
                width > 0,
                mask_suffices(width, mask@.len(), mask_stride, height * 2),
                data@.len() == 4 * n,
                forall|q: int|
                    0 <= q < n ==> #[trigger] crate::frame::nth_pixel(data@, q) == of_mask_bits(
                        mask_bit_at(mask@, mask_stride as int, q % w as int, q / w as int),
                        mask_bit_at(mask@, mask_stride as int, q % w as int, q / w as int + height),
                    ),
            decreases pixels - n,
        {
            proof {
                lemma_pixel_position(w as int, height as int, n as int);
                lemma_mask_index(
                    width as int,
                    mask_stride as int,
                    height * 2,
                    n as int % w as int,
                    n as int / w as int,
                );
                lemma_mask_index(
                    width as int,
                    mask_stride as int,
                    height * 2,
                    n as int % w as int,
                    n as int / w as int + height,
                );
                assert(height * 2 <= mask_stride * (height * 2)) by (nonlinear_arith)
                    requires
                        mask_stride >= 1,
                ;
            }
            let x: u32 = (n % w) as u32;
            let y: usize = (n / w) as usize;
            let and = bit_of_row(mask, mask_stride, x, y);
            let xor = bit_of_row(mask, mask_stride, x, y + height as usize);
            let luma: u8 = if !and && xor {
                255
            } else {
                0
            };
            let alpha: u8 = if and && !xor {
                0
            } else {
                255
            };
            let ghost before = data@;
            data.push(luma);
            data.push(luma);
            data.push(luma);
            data.push(alpha);
            proof {
                assert forall|q: int| 0 <= q < n + 1 implies #[trigger] crate::frame::nth_pixel(
                    data@,
                    q,
                ) == of_mask_bits(
                    mask_bit_at(mask@, mask_stride as int, q % w as int, q / w as int),
                    mask_bit_at(mask@, mask_stride as int, q % w as int, q / w as int + height),
                ) by {
                    if q < n {
                        assert(crate::frame::nth_pixel(data@, q) =~= crate::frame::nth_pixel(
                            before,
                            q,
                        ));
                    } else {
                        assert(crate::frame::nth_pixel(data@, q) =~= of_mask_bits(and, xor));
                    }
                }
            }
            n = n + 1;
        }
        assert(data.len() == 4 * pixels);
        let result = CursorImage::from_straight(width, height, data, anchor);
        proof {
            if result is Ok {
                let c = result->Ok_0;
                assert forall|x: int, y: int| c.has(x, y) implies #[trigger] c.at(x, y)
                    == of_mask_bits(
                    mask_bit_at(mask@, mask_stride as int, x, y),
                    mask_bit_at(mask@, mask_stride as int, x, y + height),
                ) by {
                    lemma_pixel_number(width as int, height as int, x, y);
                    let bits = of_mask_bits(
                        mask_bit_at(mask@, mask_stride as int, x, y),
                        mask_bit_at(mask@, mask_stride as int, x, y + height),
                    );
                    lemma_black_and_white(bits);
                }
            }
        }
        result
    }
}

/// A premultiplied colour channel, limited to its alpha.
pub open spec fn source_channel(src: Seq<u8>, c: int) -> int {
    least_byte(src[c], src[3]) as int
}

/// One channel of a premultiplied source over an opaque destination.
pub open spec fn over_opaque(src: Seq<u8>, dst: Seq<u8>, c: int) -> int {
    source_channel(src, c) + over255(dst[c] * (255 - src[3]))
}

/// The alpha of a source over a destination, 255 times as fine as a byte.
pub open spec fn fine_alpha(src: Seq<u8>, dst: Seq<u8>) -> int {
    src[3] * 255 + dst[3] * (255 - src[3])
}

/// One channel of a premultiplied source over a translucent destination: the
/// weighted mean of both colours, rounded once to the nearest byte.
pub open spec fn over_translucent(src: Seq<u8>, dst: Seq<u8>, c: int) -> int {
    let fine = fine_alpha(src, dst);
    (source_channel(src, c) * 65025 + dst[c] * dst[3] * (255 - src[3]) + fine / 2) / fine
}

/// The alpha byte of a source over a destination.
pub open spec fn over_alpha(src: Seq<u8>, dst: Seq<u8>) -> int {
    src[3] + over255(dst[3] * (255 - src[3]))
}

/// Source-over of a premultiplied `src` onto a straight `dst`.
pub open spec fn blended(src: Seq<u8>, dst: Seq<u8>) -> Seq<u8> {
    if dst[3] == 255 {
        seq![
            over_opaque(src, dst, 0) as u8,
            over_opaque(src, dst, 1) as u8,
            over_opaque(src, dst, 2) as u8,
            255u8,
        ]
    } else if over_alpha(src, dst) == 0 {
        crate::frame::clear_pixel()
    } else {
        seq![
            over_translucent(src, dst, 0) as u8,
            over_translucent(src, dst, 1) as u8,
            over_translucent(src, dst, 2) as u8,
            over_alpha(src, dst) as u8,
        ]
    }
}

fn opaque_channel(s: u8, sa: u8, d: u8) -> (out: u8)
    ensures
        out == least_byte(s, sa) + over255(d * (255 - sa)),
        least_byte(s, sa) + over255(d * (255 - sa)) <= 255,
{
    let inv: u8 = 255 - sa;
    proof {
        lemma_product(d, inv);
    }
    let s: u8 = min_byte(s, sa);
    s + div255(d as u32 * inv as u32) as u8
}

fn translucent_channel(s: u8, sa: u8, d: u8, da: u8, fine: u32) -> (out: u8)
    requires
        fine == sa * 255 + da * (255 - sa),
        fine > 0,
    ensures
        out == (least_byte(s, sa) * 65025 + d * da * (255 - sa) + fine as int / 2) / fine as int,
        0 <= (least_byte(s, sa) * 65025 + d * da * (255 - sa) + fine as int / 2) / fine as int
            <= 255,
{
    let inv: u8 = 255 - sa;
    let s: u8 = min_byte(s, sa);
    proof {
        lemma_product(d, da);
        let p = d * da;
        assert(0 <= d * da * inv <= 65025 * 255) by (nonlinear_arith)
            requires
                0 <= d * da <= 65025,
                inv <= 255,
        ;
        assert(d * da * inv <= 255 * (da * inv)) by (nonlinear_arith)
            requires
                d <= 255,
        ;
        assert(d as u32 * da as u32 == d * da);
    }
    let weight: u32 = d as u32 * da as u32 * inv as u32;
    let numerator: u32 = s as u32 * 65025 + weight;
    proof {
        // The numerator is at most 255 times the denominator, so the mean is a
        // byte.
        assert(numerator <= 255 * fine);
        assert((numerator + fine / 2) / (fine as int) <= 255) by (nonlinear_arith)
            requires
                numerator <= 255 * fine,
                fine > 0,
        ;
        assert((numerator + fine / 2) / (fine as int) >= 0) by (nonlinear_arith)
            requires
                fine > 0,
        ;
    }
    ((numerator + fine / 2) / fine) as u8
}

/// Source-over of a premultiplied `src` onto a straight-alpha `dst`, in place.
/// `sa` is the alpha of `src`.
///
/// The overwhelmingly common case is an opaque screenshot: the result stays
/// opaque and no un-premultiplying is needed. Otherwise the destination is
/// premultiplied, blended and converted back in a single quotient, because a
/// final division by a small alpha would amplify every earlier rounding.
pub fn blend_premultiplied_over(src: &[u8; 4], dst: &mut [u8; 4], sa: u32)
    requires
        sa == src@[3],
    ensures
        final(dst)@ == blended(src@, old(dst)@),
{
    let alpha: u8 = sa as u8;
    let d: [u8; 4] = *dst;
    let da: u8 = d[3];
    if da == 255 {
        let out: [u8; 4] = [
            opaque_channel(src[0], alpha, d[0]),
            opaque_channel(src[1], alpha, d[1]),
            opaque_channel(src[2], alpha, d[2]),
            255,
        ];
        assert(out@ =~= blended(src@, d@));
        *dst = out;
        return;
    }
    let inv: u8 = 255 - alpha;
    proof {
        lemma_product(da, inv);
    }
    let out_a: u32 = sa + div255(da as u32 * inv as u32);
    if out_a == 0 {
        let out: [u8; 4] = [0, 0, 0, 0];
        assert(out@ =~= blended(src@, d@));
        *dst = out;
        return;
    }
    let fine: u32 = sa * 255 + da as u32 * inv as u32;
    proof {
        assert(fine > 0) by {
            if sa == 0 {
                assert(over255(0) == 0);
            }
        }
    }
    let out: [u8; 4] = [
        translucent_channel(src[0], alpha, d[0], da, fine),
        translucent_channel(src[1], alpha, d[1], da, fine),
        translucent_channel(src[2], alpha, d[2], da, fine),
        out_a as u8,
    ];
    assert(out@ =~= blended(src@, d@));
    *dst = out;
}

/// What a cursor pixel makes of the frame pixel under it. Premultiplied: zero
/// alpha means zero contribution.
pub open spec fn drawn_over(src: Seq<u8>, dst: Seq<u8>) -> Seq<u8> {
    if src[3] == 0 {
        dst
    } else {
        blended(src, dst)
    }
}

/// The cursor covers pixel `(x, y)` of the frame.
pub open spec fn cursor_covers(cursor: CursorImage, frame: RawFrame, x: int, y: int) -> bool {
    cursor.sized() && cursor.has(
        x + frame.origin.x - cursor.position.x,
        y + frame.origin.y - cursor.position.y,
    )
}

/// What pixel `(x, y)` of the frame is with the cursor drawn into it.
pub open spec fn with_cursor(frame: RawFrame, cursor: CursorImage, x: int, y: int) -> Seq<u8> {
    if cursor_covers(cursor, frame, x, y) {
        drawn_over(
            cursor.at(
                x + frame.origin.x - cursor.position.x,
                y + frame.origin.y - cursor.position.y,
            ),
            frame.at(x, y),
        )
    } else {
        frame.at(x, y)
    }
}

fn cursor_pixel(cursor: &CursorImage, x: u32, y: u32) -> (px: [u8; 4])
    requires
        cursor.sized(),
        cursor.has(x as int, y as int),
    ensures
        px@ == cursor.at(x as int, y as int),
{
    let total: usize = cursor.data.len();
    proof {
        lemma_pixel_number(cursor.width as int, cursor.height as int, x as int, y as int);
        lemma_rows_fit(cursor.width as int, cursor.height as int, y as int);
    }
    let at: usize = (y as usize * cursor.width as usize + x as usize) * 4;
    let px: [u8; 4] = [
        cursor.data[at],
        cursor.data[at + 1],
        cursor.data[at + 2],
        cursor.data[at + 3],
    ];
    assert(px@ =~= cursor.at(x as int, y as int));
    px
}

fn max_i128(a: i128, b: i128) -> (m: i128)
    ensures
        m == crate::geometry::greatest(a as int, b as int),
{
    if b > a {
        b
    } else {
        a
    }
}

fn min_i128(a: i128, b: i128) -> (m: i128)
    ensures
        m == crate::geometry::least(a as int, b as int),
{
    if b < a {
        b
    } else {
        a
    }
}

/// Blend `cursor` into `frame` where the two overlap.
///
/// Both are positioned on the virtual desktop, so this handles the cursor
/// hanging off the edge of the frame, the normal case at a screen border. A
/// cursor that misses the frame entirely, has no pixels, or whose buffer does
/// not match its size, leaves the frame untouched.
pub fn composite_cursor(frame: &mut RawFrame, cursor: &CursorImage)
    requires
        old(frame).wf(),
    ensures
        final(frame).wf(),
        final(frame).same_shape(*old(frame)),
        forall|x: int, y: int|
            old(frame).has(x, y) ==> #[trigger] final(frame).at(x, y) == with_cursor(
                *old(frame),
                *cursor,
                x,
                y,
            ),
{
    if cursor.is_empty() || frame.is_empty() {
        return;
    }
    // The fields are public, so a struct literal can skip the constructors'
    // checks: look again rather than run off the end of a short buffer.
    match check_len(cursor.width, cursor.height, cursor.data.len()) {
        Ok(_) => {},
        Err(_) => {
            return;
        },
    }
    let left: i128 = cursor.position.x as i128 - frame.origin.x as i128;
    let top: i128 = cursor.position.y as i128 - frame.origin.y as i128;
    let x0: i128 = max_i128(left, 0);
    let y0: i128 = max_i128(top, 0);
    let x1: i128 = min_i128(left + cursor.width as i128, frame.width as i128);
    let y1: i128 = min_i128(top + cursor.height as i128, frame.height as i128);
    if x1 <= x0 || y1 <= y0 {
        return;
    }
    let ghost start = *frame;
    let mut fy: i128 = y0;
    while fy < y1
        invariant
            0 <= y0 <= fy <= y1 <= start.height,
            0 <= x0 < x1 <= start.width,
            start.wf(),
            frame.wf(),
            frame.same_shape(start),
            cursor.sized(),
            left == cursor.position.x - start.origin.x,
            top == cursor.position.y - start.origin.y,
            x0 == crate::geometry::greatest(left as int, 0),
            y0 == crate::geometry::greatest(top as int, 0),
            x1 == crate::geometry::least(left + cursor.width, start.width as int),
            y1 == crate::geometry::least(top + cursor.height, start.height as int),
            forall|x: int, y: int|
                start.has(x, y) ==> #[trigger] frame.at(x, y) == (if y < fy {
                    with_cursor(start, *cursor, x, y)
                } else {
                    start.at(x, y)
                }),
        decreases y1 - fy,
    {
        let mut fx: i128 = x0;
        while fx < x1
            invariant
                0 <= y0 <= fy < y1 <= start.height,
                0 <= x0 <= fx <= x1 <= start.width,
                start.wf(),
                frame.wf(),
                frame.same_shape(start),
                cursor.sized(),
                left == cursor.position.x - start.origin.x,
                top == cursor.position.y - start.origin.y,
                x0 == crate::geometry::greatest(left as int, 0),
                y0 == crate::geometry::greatest(top as int, 0),
                x1 == crate::geometry::least(left + cursor.width, start.width as int),
                y1 == crate::geometry::least(top + cursor.height, start.height as int),
                forall|x: int, y: int|
                    start.has(x, y) ==> #[trigger] frame.at(x, y) == (if y < fy || (y == fy && x
                        < fx) {
                        with_cursor(start, *cursor, x, y)
                    } else {
                        start.at(x, y)
                    }),
            decreases x1 - fx,
        {
            let src = cursor_pixel(cursor, (fx - left) as u32, (fy - top) as u32);
            let sa: u32 = src[3] as u32;
            if sa != 0 {
                if let Some(under) = frame.pixel(fx as u32, fy as u32) {
                    let mut dst: [u8; 4] = under;
                    blend_premultiplied_over(&src, &mut dst, sa);
                    frame.set_pixel(fx as u32, fy as u32, dst);
                }
            }
            assert(frame.at(fx as int, fy as int) == with_cursor(
                start,
                *cursor,
                fx as int,
                fy as int,
            ));
            fx = fx + 1;
        }
        fy = fy + 1;
    }
}

/// An opaque cursor pixel replaces what is under it.
pub proof fn law_an_opaque_pixel_replaces(src: Seq<u8>, dst: Seq<u8>)
    requires
        src.len() == 4,
        dst.len() == 4,
        src[3] == 255,
    ensures
        drawn_over(src, dst) == src,
{
    assert(over255(0) == 0);
    assert(dst[3] * (255 - src[3]) == 0) by (nonlinear_arith)
        requires
            src[3] == 255,
    ;
    assert(fine_alpha(src, dst) == 65025);
    assert forall|c: int| 0 <= c < 3 implies #[trigger] over_translucent(src, dst, c) == src[c]
        && over_opaque(src, dst, c) == src[c] by {
        assert(dst[c] * (255 - src[3]) == 0 && dst[c] * dst[3] * (255 - src[3]) == 0)
            by (nonlinear_arith)
            requires
                src[3] == 255,
        ;
        assert((src[c] * 65025 + 65025int / 2) / 65025 == src[c]);
    }
    assert(over_translucent(src, dst, 0) == src[0]);
    assert(over_translucent(src, dst, 1) == src[1]);
    assert(over_translucent(src, dst, 2) == src[2]);
    assert(drawn_over(src, dst) =~= src);
}

/// Drawing over an opaque pixel leaves it opaque.
pub proof fn law_an_opaque_frame_stays_opaque(src: Seq<u8>, dst: Seq<u8>)
    requires
        src.len() == 4,
        dst.len() == 4,
        dst[3] == 255,
    ensures
        drawn_over(src, dst)[3] == 255,
{
}

/// A cursor that misses the frame leaves every pixel of it alone.
pub proof fn law_a_cursor_beside_the_frame_changes_nothing(
    frame: RawFrame,
    cursor: CursorImage,
    x: int,
    y: int,
)
    requires
        frame.has(x, y),
        cursor.position.x + cursor.width <= frame.origin.x || frame.origin.x + frame.width
            <= cursor.position.x || cursor.position.y + cursor.height <= frame.origin.y
            || frame.origin.y + frame.height <= cursor.position.y,
    ensures
        with_cursor(frame, cursor, x, y) == frame.at(x, y),
{
}

/// The hotspot lands where the platform says the cursor is: going from the
/// bitmap's corner by the hotspot leads to the reported position. A platform
/// that reports the corner is taken at its word.
pub proof fn law_the_hotspot_lands_on_its_position(position: Vec2D, xhot: u32, yhot: u32)
    requires
        i64::MIN <= position.x - xhot,
        i64::MIN <= position.y - yhot,
    ensures
        ({
            let corner = CursorAnchor::Hotspot { position, xhot, yhot }.corner();
            &&& corner.x + xhot == position.x
            &&& corner.y + yhot == position.y
        }),
        CursorAnchor::TopLeft(position).corner() == position,
{
}

/// Dividing by 255 gives the nearest integer: 255 times the quotient is less
/// than half of 255 away.
pub proof fn law_quotients_by_255_are_nearest(v: int)
    ensures
        -127 <= v - 255 * over255(v) <= 127,
{
}

/// A premultiplied pixel keeps its alpha, and its colours as far as they are not
/// above it; a colour above it becomes the alpha.
pub proof fn law_colours_are_limited_to_alpha(px: Seq<u8>, c: int)
    requires
        px.len() == 4,
        0 <= c < 3,
    ensures
        limited(px).len() == 4,
        limited(px)[3] == px[3],
        px[c] <= px[3] ==> limited(px)[c] == px[c],
        px[c] > px[3] ==> limited(px)[c] == px[3],
{
}

/// Premultiplying keeps the alpha, and multiplies every colour by it, rounded to
/// the nearest byte.
pub proof fn law_premultiplying_scales_by_alpha(px: Seq<u8>, c: int)
    requires
        px.len() == 4,
        0 <= c < 3,
    ensures
        premultiplied(px).len() == 4,
        premultiplied(px)[3] == px[3],
        -127 <= px[c] * px[3] - 255 * premultiplied(px)[c] <= 127,
{
    lemma_product(px[c], px[3]);
}

/// A word holds alpha, red, green and blue, from its highest byte down.
pub proof fn law_argb_words_hold_four_bytes(word: u32)
    ensures
        ({
            let px = CursorImage::of_argb_word(word);
            &&& px.len() == 4
            &&& word == 0x100_0000 * px[3] + 0x1_0000 * px[0] + 0x100 * px[1] + px[2]
        }),
{
}

/// A mask holds one bit per pixel, eight to a byte, the leftmost in the high
/// bit, and its rows are `stride` bytes apart.
pub proof fn law_masks_hold_the_leftmost_pixel_high(mask: Seq<u8>, stride: int, x: int, row: int)
    requires
        0 <= x,
        0 <= row,
        0 <= stride,
    ensures
        row * stride + x / 8 < mask.len() ==> (mask_bit_at(mask, stride, x, row) <==> (mask[row
            * stride + x / 8] >> ((7 - x % 8) as u8)) & 1u8 == 1u8),
        row * stride + x / 8 >= mask.len() ==> mask_bit_at(mask, stride, x, row),
{
    assert(0 <= row * stride) by (nonlinear_arith)
        requires
            0 <= row,
            0 <= stride,
    ;
    if row * stride + x / 8 < mask.len() {
        let byte = mask[row * stride + x / 8];
        let by = (7 - x % 8) as u8;
        vstd::bits::lemma_u8_shr_is_div(byte, by);
        let q = byte >> by;
        assert(q & 1u8 == q % 2) by (bit_vector);
    }
}

/// A mask suffices when a row has a bit for every column and the rows are all
/// there.
pub proof fn law_a_mask_suffices_when_it_has_every_bit(
    width: u32,
    len: nat,
    stride: usize,
    rows: int,
)
    ensures
        mask_suffices(width, len, stride, rows) <==> width <= 8 * stride && stride * rows <= len,
{
}

/// A colour cursor's pixel is red, green and blue from the third, second and
/// first byte. Its alpha is the fourth byte, unless no pixel of the cursor has
/// any; then the mask decides between nothing and all of it.
pub proof fn law_colour_cursors_are_blue_first(px: Seq<u8>, no_alpha: bool, masked: bool)
    requires
        px.len() == 4,
    ensures
        ({
            let out = of_bgra(px, no_alpha, masked);
            &&& out.len() == 4
            &&& out[0] == px[2] && out[1] == px[1] && out[2] == px[0]
            &&& !no_alpha ==> out[3] == px[3]
            &&& no_alpha && masked ==> out[3] == 0
            &&& no_alpha && !masked ==> out[3] == 255
        }),
{
}

/// A cursor is without alpha exactly when the fourth byte of every pixel is zero.
pub proof fn law_a_cursor_without_alpha_has_none_anywhere(bgra: Seq<u8>, pixels: int)
    ensures
        without_alpha(bgra, pixels) <==> forall|n: int|
            0 <= n < pixels ==> #[trigger] bgra[4 * n + 3] == 0,
{
    if without_alpha(bgra, pixels) {
        assert forall|n: int| 0 <= n < pixels implies #[trigger] bgra[4 * n + 3] == 0 by {
            assert(crate::frame::nth_pixel(bgra, n)[3] == 0);
        }
    }
    if forall|n: int| 0 <= n < pixels ==> #[trigger] bgra[4 * n + 3] == 0 {
        assert forall|n: int| 0 <= n < pixels implies #[trigger] crate::frame::nth_pixel(
            bgra,
            n,
        )[3] == 0 by {
            assert(bgra[4 * n + 3] == 0);
        }
    }
}

/// The two bits of a monochrome cursor: set and clear leaves the screen alone,
/// clear and set is white, and the rest is black. All but the first are opaque.
pub proof fn law_monochrome_cursors_are_black_and_white(and: bool, xor: bool)
    ensures
        ({
            let out = of_mask_bits(and, xor);
            &&& out.len() == 4
            &&& out[0] == out[1] == out[2]
            &&& out[0] == (if !and && xor {
                255u8
            } else {
                0u8
            })
            &&& out[3] == (if and && !xor {
                0u8
            } else {
                255u8
            })
        }),
{
}

/// A cursor pixel over an opaque one adds its colour, limited to its alpha, to
/// the rest of the colour below, and the sum is opaque.
pub proof fn law_blending_over_opaque_adds_the_rest(src: Seq<u8>, dst: Seq<u8>, c: int)
    requires
        src.len() == 4,
        dst.len() == 4,
        dst[3] == 255,
        src[3] > 0,
        0 <= c < 3,
    ensures
        ({
            let out = drawn_over(src, dst);
            let s = if src[c] <= src[3] {
                src[c] as int
            } else {
                src[3] as int
            };
            &&& out.len() == 4
            &&& -127 <= 255 * s + dst[c] * (255 - src[3]) - 255 * out[c] <= 127
            &&& out[3] == 255
        }),
{
    let inv = (255 - src[3]) as u8;
    lemma_product(dst[c], inv);
}

/// A cursor pixel over a translucent one is the mean of both colours, each
/// weighted with the alpha that it contributes, to the nearest byte; and its
/// alpha is the cursor's and the rest of the alpha below.
pub proof fn law_blending_over_translucent_is_the_weighted_mean(
    src: Seq<u8>,
    dst: Seq<u8>,
    c: int,
)
    requires
        src.len() == 4,
        dst.len() == 4,
        dst[3] < 255,
        src[3] > 0,
        0 <= c < 3,
    ensures
        ({
            let out = drawn_over(src, dst);
            let s = if src[c] <= src[3] {
                src[c] as int
            } else {
                src[3] as int
            };
            let above = 255 * src[3];
            let below = dst[3] * (255 - src[3]);
            let sum = 65025 * s + dst[c] * below;
            &&& out.len() == 4
            &&& 2 * sum - (above + below) <= 2 * (out[c] * (above + below)) <= 2 * sum + (above
                + below)
            &&& -127 <= above + below - 255 * out[3] <= 127
        }),
{
    let inv = (255 - src[3]) as u8;
    lemma_product(dst[3], inv);
    let s = source_channel(src, c);
    let fine = fine_alpha(src, dst);
    let d = dst[c] as int;
    let da = dst[3] as int;
    let below = da * (255 - src[3]);
    assert(d * da * (255 - src[3]) == d * below) by (nonlinear_arith)
        requires
            below == da * (255 - src[3]),
    ;
    let sum = s * 65025 + d * below;
    vstd::arithmetic::div_mod::lemma_fundamental_div_mod(sum + fine / 2, fine);
    let q = (sum + fine / 2) / fine;
    assert(fine * q == q * fine) by (nonlinear_arith);
    assert(0 <= d * below <= 255 * below) by (nonlinear_arith)
        requires
            0 <= d <= 255,
            0 <= below,
    ;
    assert(0 <= q <= 255) by (nonlinear_arith)
        requires
            0 <= sum <= 255 * fine,
            fine > 0,
            q == (sum + fine / 2) / fine,
    ;
    assert(over_translucent(src, dst, c) == q);
}

/// A cursor pixel without alpha leaves what is under it alone.
pub proof fn law_a_clear_pixel_changes_nothing(src: Seq<u8>, dst: Seq<u8>)
    requires
        src[3] == 0,
    ensures
        drawn_over(src, dst) == dst,
{
}

/// The cursor is drawn where it is: column `i` and row `j` of its bitmap fall on
/// the pixel of the frame that is at the same place of the desktop. A cursor
/// whose buffer does not match its size is not drawn.
pub proof fn law_the_cursor_is_drawn_in_its_place(
    frame: RawFrame,
    cursor: CursorImage,
    i: int,
    j: int,
)
    requires
        0 <= i < cursor.width,
        0 <= j < cursor.height,
    ensures
        ({
            let x = cursor.position.x + i - frame.origin.x;
            let y = cursor.position.y + j - frame.origin.y;
            let n = j * cursor.width + i;
            let src = seq![
                cursor.data@[4 * n],
                cursor.data@[4 * n + 1],
                cursor.data@[4 * n + 2],
                cursor.data@[4 * n + 3],
            ];
            with_cursor(frame, cursor, x, y) == (if cursor.data@.len() == 4 * (cursor.width
                * cursor.height) {
                drawn_over(src, frame.at(x, y))
            } else {
                frame.at(x, y)
            })
        }),
{
    assert(cursor.width * cursor.height * 4 == 4 * (cursor.width * cursor.height));
}

/// The message on a mask gives the numbers that are wrong: a stride that is too
/// short for the row, or else the length that the mask has.
pub proof fn law_mask_messages_give_what_is_wrong(width: u32, len: nat, stride: usize, rows: int)
    requires
        rows >= 0,
    ensures
        ({
            let text = mask_text(width, len, stride, rows);
            let n = crate::text::decimal_text(stride as nat).len();
            let m = crate::text::decimal_text(len).len();
            &&& 8 * stride < width ==> text.subrange(text.len() - n, text.len() as int)
                == crate::text::decimal_text(stride as nat) && text.subrange(0, 2) == "a "@
            &&& 8 * stride < width ==> exists|bytes: nat|
                8 * bytes >= width && 8 * (bytes - 1) < width && text == "a "@
                    + crate::text::decimal_text(width as nat) + "px mask row needs at least "@
                    + (#[trigger] crate::text::decimal_text(bytes)) + " bytes, got a stride of "@
                    + crate::text::decimal_text(stride as nat)
            &&& width <= 8 * stride && stride * rows <= usize::MAX ==> text.subrange(15, 15 + m as int)
                == crate::text::decimal_text(len) && text.subrange(text.len() - n, text.len() as int)
                == crate::text::decimal_text(stride as nat)
        }),
{
    reveal_strlit("a ");
    reveal_strlit("cursor mask is ");
    let text = mask_text(width, len, stride, rows);
    let n = crate::text::decimal_text(stride as nat).len();
    let m = crate::text::decimal_text(len).len();
    if 8 * stride < width {
        let bytes = (width as nat + 7) / 8;
        assert(8 * bytes >= width && 8 * (bytes - 1) < width);
        assert(text.subrange(0, 2) =~= "a "@);
        assert(text == "a "@ + crate::text::decimal_text(width as nat)
            + "px mask row needs at least "@ + crate::text::decimal_text(bytes)
            + " bytes, got a stride of "@ + crate::text::decimal_text(stride as nat));
        assert(text.subrange(text.len() - n, text.len() as int) =~= crate::text::decimal_text(
            stride as nat,
        ));
    } else if stride * rows <= usize::MAX {
        assert(text.subrange(15, 15 + m as int) =~= crate::text::decimal_text(len));
        assert(text.subrange(text.len() - n, text.len() as int) =~= crate::text::decimal_text(
            stride as nat,
        ));
    }
}

/// The message on a cursor's buffer starts with the dimensions, and gives the
/// length that they need, four bytes for each pixel, and the one found.
pub proof fn law_cursor_length_messages_give_both_lengths(width: u32, height: u32, got: nat)
    requires
        4 * (width * height) <= usize::MAX,
    ensures
        ({
            let text = cursor_length_text(width, height, got);
            let size = crate::frame::dimensions_text(width, height).len() as int;
            let needed = crate::text::decimal_text((4 * (width * height)) as nat);
            let found = crate::text::decimal_text(got);
            let end = text.len() as int;
            &&& text.subrange(0, size) == crate::frame::dimensions_text(width, height)
            &&& text.subrange(size + 14, size + 14 + needed.len()) == needed
            &&& text.subrange(end - found.len(), end) == found
        }),
{
    reveal_strlit(" cursor needs ");
    assert(width * height * 4 == 4 * (width * height));
    let text = cursor_length_text(width, height, got);
    let size = crate::frame::dimensions_text(width, height).len() as int;
    let needed = crate::text::decimal_text((4 * (width * height)) as nat);
    let found = crate::text::decimal_text(got);
    let end = text.len() as int;
    assert(text.subrange(0, size) =~= crate::frame::dimensions_text(width, height));
    assert(text.subrange(size + 14, size + 14 + needed.len()) =~= needed);
    assert(text.subrange(end - found.len(), end) =~= found);
}

/// The message on a cursor that came short gives its dimensions and the number
/// of pixels that came.
pub proof fn law_short_cursor_messages_give_the_pixels(width: u32, height: u32, got: nat)
    ensures
        ({
            let text = short_cursor_text(width, height, got);
            let size = crate::frame::dimensions_text(width, height);
            let found = crate::text::decimal_text(got);
            let n = 10 + size.len() as int;
            &&& text.subrange(10, n) == size
            &&& text.subrange(n + 10, n + 10 + found.len()) == found
        }),
{
    reveal_strlit("cursor is ");
    reveal_strlit(" but only ");
    let text = short_cursor_text(width, height, got);
    let size = crate::frame::dimensions_text(width, height);
    let found = crate::text::decimal_text(got);
    let n = 10 + size.len() as int;
    assert(text.subrange(10, n) =~= size);
    assert(text.subrange(n + 10, n + 10 + found.len()) =~= found);
}

/// A colour may be as strong as its alpha, and no stronger.
pub proof fn law_colours_reach_up_to_their_alpha(cursor: CursorImage)
    requires
        cursor.sized(),
    ensures
        (forall|n: int|
            0 <= n < cursor.width * cursor.height ==> {
                let px = #[trigger] crate::frame::nth_pixel(cursor.data@, n);
                px[0] == px[3] && px[1] == px[3] && px[2] == px[3]
            }) ==> cursor.wf(),
        forall|n: int|
            0 <= n < cursor.width * cursor.height && cursor.wf() ==> {
                let px = #[trigger] crate::frame::nth_pixel(cursor.data@, n);
                px[0] <= px[3] && px[1] <= px[3] && px[2] <= px[3]
            },
{
}

} // verus!
