//! Turning platform pixel buffers into the RGBA8 a frame wants.
//!
//! Backends receive pixels in whatever layout the display server prefers: X11's
//! `ZPixmap` is words masked by the visual, Windows bitmaps are BGRA with a junk
//! alpha channel. Both conversions are pure byte pushing.

use crate::error::CaptureError;
use crate::frame::{lemma_pixel_number, lemma_pixel_position};
use crate::geometry::PixelRect;
use crate::text::{decimal, joined};
use vstd::arithmetic::power2::*;
use vstd::prelude::*;
use vstd::string::*;

verus! {

/// Description of an X11 `ZPixmap` buffer: how the server packed it, and which
/// bits of each pixel word hold which channel.
#[derive(Debug, Clone, Copy, PartialEq, Eq, Structural)]
pub struct ZPixmapFormat {
    /// Bits per pixel from the server's table of formats (24 or 32 in practice).
    pub bits_per_pixel: u8,
    /// Scanline padding in bits from the same table (8, 16 or 32).
    pub scanline_pad: u8,
    /// `true` when the server's byte order is LSB-first.
    pub little_endian: bool,
    /// Red channel mask from the visual, e.g. `0x00ff0000`.
    pub red_mask: u32,
    /// Green channel mask from the visual, e.g. `0x0000ff00`.
    pub green_mask: u32,
    /// Blue channel mask from the visual, e.g. `0x000000ff`.
    pub blue_mask: u32,
}

impl ZPixmapFormat {
    /// The layout essentially every modern X server uses: 32 bits per pixel,
    /// 32-bit scanline padding, little-endian, TrueColor BGRX byte order.
    pub fn common_bgrx() -> (format: ZPixmapFormat)
        ensures
            format == bgrx(),
    {
        ZPixmapFormat {
            bits_per_pixel: 32,
            scanline_pad: 32,
            little_endian: true,
            red_mask: 0x00ff_0000,
            green_mask: 0x0000_ff00,
            blue_mask: 0x0000_00ff,
        }
    }

    /// Pixels of 24 and 32 bits can be read.
    pub open spec fn supported(self) -> bool {
        self.bits_per_pixel == 24 || self.bits_per_pixel == 32
    }

    /// Bytes each pixel occupies.
    pub open spec fn pixel_bytes(self) -> int {
        self.bits_per_pixel as int / 8
    }

    /// The bits that a row is padded to a multiple of.
    pub open spec fn pad_bits(self) -> int {
        if self.scanline_pad == 0 {
            8
        } else {
            self.scanline_pad as int
        }
    }

    /// Bytes per row, padding included: the bits of the row, rounded up to a
    /// multiple of the padding.
    pub open spec fn row_bytes(self, width: u32) -> int {
        let row_bits = width * self.pixel_bytes() * 8;
        let units = (row_bits + self.pad_bits() - 1) / self.pad_bits();
        units * self.pad_bits() / 8
    }

    /// The error says that pixels of this depth cannot be read.
    pub open spec fn is_unsupported(self, e: CaptureError) -> bool {
        &&& e is Unsupported
        &&& e.detail() == crate::text::decimal_text(self.bits_per_pixel as nat)
            + "-bit X11 pixmaps are not supported (need 24 or 32)"@
    }

    /// What is wrong with `got` bytes for a `width` by `height` image.
    pub open spec fn short_text(self, width: u32, height: u32, got: nat) -> Seq<char> {
        if self.row_bytes(width) > usize::MAX {
            "X11 scanline does not fit in memory"@
        } else if self.row_bytes(width) * height > usize::MAX {
            "X11 image does not fit in memory"@
        } else {
            "X11 image is "@ + crate::text::decimal_text(got) + " bytes, expected at least "@
                + crate::text::decimal_text((self.row_bytes(width) * height) as nat) + " for "@
                + crate::frame::dimensions_text(width, height)
        }
    }

    /// Bytes each pixel occupies.
    pub fn bytes_per_pixel(&self) -> (result: Result<usize, CaptureError>)
        ensures
            match result {
                Ok(bytes) => self.supported() && bytes == self.pixel_bytes(),
                Err(e) => !self.supported() && self.is_unsupported(e),
            },
    {
        if self.bits_per_pixel == 24 {
            Ok(3)
        } else if self.bits_per_pixel == 32 {
            Ok(4)
        } else {
            Err(
                CaptureError::Unsupported(
                    joined(
                        decimal(self.bits_per_pixel as u64).as_str(),
                        "-bit X11 pixmaps are not supported (need 24 or 32)",
                    ),
                ),
            )
        }
    }

    /// Bytes per row including the server's scanline padding.
    pub fn stride(&self, width: u32) -> (result: Result<usize, CaptureError>)
        ensures
            match result {
                Ok(bytes) => self.supported() && bytes == self.row_bytes(width) && bytes >= width
                    * self.pixel_bytes(),
                Err(e) => if self.supported() {
                    &&& self.row_bytes(width) > usize::MAX
                    &&& crate::frame::is_invalid(e, "X11 scanline does not fit in memory"@)
                } else {
                    self.is_unsupported(e)
                },
            },
    {
        let bytes: usize = match self.bytes_per_pixel() {
            Ok(bytes) => bytes,
            Err(e) => {
                return Err(e);
            },
        };
        let pad: u64 = if self.scanline_pad == 0 { 8 } else { self.scanline_pad as u64 };
        assert(width * bytes <= 0xffff_ffff * 4) by (nonlinear_arith)
            requires
                width <= 0xffff_ffff,
                bytes <= 4,
        ;
        let row_bits: u64 = width as u64 * bytes as u64 * 8;
        let units: u64 = (row_bits + pad - 1) / pad;
        proof {
            vstd::arithmetic::div_mod::lemma_fundamental_div_mod(
                (row_bits + pad - 1) as int,
                pad as int,
            );
            let rest = (row_bits + pad - 1) % pad as int;
            assert(row_bits <= units * pad <= row_bits + pad - 1) by (nonlinear_arith)
                requires
                    row_bits + pad - 1 == pad * units + rest,
                    0 <= rest < pad,
            ;
        }
        let bytes_per_row: u64 = units * pad / 8;
        if bytes_per_row > usize::MAX as u64 {
            return Err(CaptureError::invalid_frame("X11 scanline does not fit in memory"));
        }
        Ok(bytes_per_row as usize)
    }
}

/// How often `mask` can be halved before it is odd.
pub open spec fn low_zeros(mask: nat) -> nat
    decreases mask,
{
    if mask == 0 || mask % 2 == 1 {
        0
    } else {
        1 + low_zeros(mask / 2)
    }
}

/// How many bits of `mask` are set.
pub open spec fn ones(mask: nat) -> nat
    decreases mask,
{
    if mask == 0 {
        0
    } else {
        mask % 2 + ones(mask / 2)
    }
}

/// `raw` moved up by `by` bits, or down when `by` is negative.
pub open spec fn moved_bits(raw: u32, by: int) -> u32 {
    if by >= 0 {
        raw << (by as u32)
    } else {
        raw >> ((-by) as u32)
    }
}

/// Copies of the `bits` wide `raw`, each just below the one before, from the
/// top of a byte down. `filled` bits of the byte are taken already.
pub open spec fn spread(raw: u32, bits: nat, filled: nat) -> u32
    decreases
            if filled < 8 {
                8 - filled
            } else {
                0
            },
{
    if filled >= 8 || bits == 0 {
        0
    } else {
        moved_bits(raw, 8 - filled - bits) | spread(raw, bits, filled + bits)
    }
}

/// The part of `pixel` under `mask`, moved down to the lowest bit.
pub open spec fn under_mask(pixel: u32, mask: u32) -> nat {
    (pixel & mask) as nat / pow2(low_zeros(mask as nat))
}

/// The 8-bit channel of `pixel` under `mask`: the top eight bits of a wide
/// channel, and a narrow channel repeated downwards until it fills a byte.
pub open spec fn channel_byte(pixel: u32, mask: u32) -> u8 {
    let bits = ones(mask as nat);
    let raw = under_mask(pixel, mask);
    if mask == 0 {
        0
    } else if bits == 8 {
        (raw % 256) as u8
    } else if bits > 8 {
        (raw / pow2((bits - 8) as nat) % 256) as u8
    } else {
        (spread(raw as u32, bits, 0) & 0xff) as u8
    }
}

fn count_low_zeros(mask: u32) -> (n: u32)
    requires
        mask > 0,
    ensures
        n == low_zeros(mask as nat),
        n < 32,
        pow2(n as nat) <= mask,
{
    let mut rest: u32 = mask;
    let mut n: u32 = 0;
    proof {
        lemma2_to64();
    }
    while rest % 2 == 0
        invariant
            rest > 0,
            low_zeros(mask as nat) == n + low_zeros(rest as nat),
            rest * pow2(n as nat) <= mask,
            n < 32,
        decreases rest,
    {
        proof {
            lemma2_to64();
            lemma_pow2_unfold((n + 1) as nat);
            let p = pow2(n as nat);
            assert((rest / 2) * pow2((n + 1) as nat) <= mask) by (nonlinear_arith)
                requires
                    rest * p <= mask,
                    pow2((n + 1) as nat) == 2 * p,
                    rest % 2 == 0,
            ;
            let half = rest / 2;
            assert(pow2((n + 1) as nat) <= mask) by (nonlinear_arith)
                requires
                    half * pow2((n + 1) as nat) <= mask,
                    half >= 1,
            ;
            if n + 1 >= 32 {
                assert(n + 1 == 32);
                assert(false);
            }
        }
        rest = rest / 2;
        n = n + 1;
    }
    let p = Ghost(pow2(n as nat));
    assert(p@ <= mask) by (nonlinear_arith)
        requires
            rest * p@ <= mask,
            rest >= 1,
    ;
    n
}

fn count_ones(mask: u32) -> (n: u32)
    ensures
        n == ones(mask as nat),
        n <= 32,
{
    let mut rest: u32 = mask;
    let mut n: u32 = 0;
    let mut steps: u32 = 0;
    proof {
        lemma2_to64();
    }
    while rest > 0
        invariant
            ones(mask as nat) == n + ones(rest as nat),
            n <= steps <= 32,
            rest < pow2((32 - steps) as nat),
        decreases rest,
    {
        proof {
            lemma2_to64();
            if steps == 32 {
                assert(false);
            }
            lemma_pow2_unfold((32 - steps) as nat);
        }
        n = n + rest % 2;
        rest = rest / 2;
        steps = steps + 1;
    }
    n
}

fn repeat_downwards(raw: u32, bits: u32) -> (byte: u8)
    requires
        1 <= bits < 8,
    ensures
        byte == (spread(raw, bits as nat, 0) & 0xff) as u8,
{
    let mut value: u32 = 0;
    let mut filled: u32 = 0;
    assert(0u32 | spread(raw, bits as nat, 0) == spread(raw, bits as nat, 0)) by {
        let s = spread(raw, bits as nat, 0);
        assert(0u32 | s == s) by (bit_vector);
    }
    while filled < 8
        invariant
            1 <= bits < 8,
            filled < 16,
            value | spread(raw, bits as nat, filled as nat) == spread(raw, bits as nat, 0),
        decreases 16 - filled,
    {
        let part: u32 = if 8 >= filled + bits {
            raw << (8 - filled - bits)
        } else {
            raw >> (filled + bits - 8)
        };
        proof {
            assert(part == moved_bits(raw, 8 - filled - bits));
            let rest = spread(raw, bits as nat, (filled + bits) as nat);
            assert((value | part) | rest == value | (part | rest)) by (bit_vector);
        }
        value = value | part;
        filled = filled + bits;
    }
    proof {
        assert(value | 0u32 == value) by (bit_vector);
        assert(value & 0xff <= 0xff) by (bit_vector);
    }
    (value & 0xff) as u8
}

/// Extract one 8-bit channel from a pixel word.
///
/// Masks narrower than 8 bits are expanded by replicating the high bits
/// downwards, so that an all-ones channel reaches 255.
pub fn channel(pixel: u32, mask: u32) -> (byte: u8)
    ensures
        byte == channel_byte(pixel, mask),
{
    if mask == 0 {
        return 0;
    }
    let shift: u32 = count_low_zeros(mask);
    let bits: u32 = count_ones(mask);
    let raw: u32 = (pixel & mask) >> shift;
    proof {
        vstd::bits::lemma_u32_shr_is_div(pixel & mask, shift);
    }
    if bits == 8 {
        (raw % 256) as u8
    } else if bits > 8 {
        proof {
            vstd::bits::lemma_u32_shr_is_div(raw, (bits - 8) as u32);
        }
        ((raw >> (bits - 8)) % 256) as u8
    } else {
        proof {
            // A mask above zero has a bit.
            lemma_some_ones(mask as nat);
        }
        repeat_downwards(raw, bits)
    }
}

proof fn lemma_some_ones(mask: nat)
    requires
        mask > 0,
    ensures
        ones(mask) > 0,
    decreases mask,
{
    if mask % 2 == 0 {
        lemma_some_ones(mask / 2);
    }
}

/// The pixel word in the four (or three) bytes at `at`.
pub open spec fn word_at(data: Seq<u8>, at: int, bytes: int, little_endian: bool) -> u32 {
    if bytes == 3 {
        if little_endian {
            (data[at] + 0x100 * data[at + 1] + 0x1_0000 * data[at + 2]) as u32
        } else {
            (0x1_0000 * data[at] + 0x100 * data[at + 1] + data[at + 2]) as u32
        }
    } else if little_endian {
        (data[at] + 0x100 * data[at + 1] + 0x1_0000 * data[at + 2] + 0x100_0000 * data[at
            + 3]) as u32
    } else {
        (0x100_0000 * data[at] + 0x1_0000 * data[at + 1] + 0x100 * data[at + 2] + data[at
            + 3]) as u32
    }
}

fn read_word(data: &[u8], at: usize, bytes: usize, little_endian: bool) -> (word: u32)
    requires
        bytes == 3 || bytes == 4,
        at + bytes <= data@.len(),
    ensures
        word == word_at(data@, at as int, bytes as int, little_endian),
{
    let b0: u32 = data[at] as u32;
    let b1: u32 = data[at + 1] as u32;
    let b2: u32 = data[at + 2] as u32;
    if bytes == 3 {
        if little_endian {
            b0 + 0x100 * b1 + 0x1_0000 * b2
        } else {
            0x1_0000 * b0 + 0x100 * b1 + b2
        }
    } else {
        let b3: u32 = data[at + 3] as u32;
        if little_endian {
            b0 + 0x100 * b1 + 0x1_0000 * b2 + 0x100_0000 * b3
        } else {
            0x100_0000 * b0 + 0x1_0000 * b1 + 0x100 * b2 + b3
        }
    }
}

/// The opaque RGBA pixel that a pixel word stands for.
pub open spec fn rgba_of_word(word: u32, format: ZPixmapFormat) -> Seq<u8> {
    seq![
        channel_byte(word, format.red_mask),
        channel_byte(word, format.green_mask),
        channel_byte(word, format.blue_mask),
        255u8,
    ]
}

/// Pixel `(x, y)` of a `ZPixmap` buffer, as RGBA.
pub open spec fn zpixmap_pixel(
    data: Seq<u8>,
    width: u32,
    format: ZPixmapFormat,
    x: int,
    y: int,
) -> Seq<u8> {
    rgba_of_word(
        word_at(
            data,
            y * format.row_bytes(width) + x * format.pixel_bytes(),
            format.pixel_bytes(),
            format.little_endian,
        ),
        format,
    )
}

/// What a `ZPixmap` buffer converts to.
pub open spec fn is_converted(
    result: Result<Vec<u8>, CaptureError>,
    data: Seq<u8>,
    width: u32,
    height: u32,
    format: ZPixmapFormat,
) -> bool {
    match result {
        Ok(rgba) => {
            &&& format.supported()
            &&& format.row_bytes(width) <= usize::MAX
            &&& data.len() >= format.row_bytes(width) * height
            &&& rgba@.len() == crate::frame::byte_len(width, height)
            &&& forall|x: int, y: int|
                0 <= x < width && 0 <= y < height ==> crate::frame::nth_pixel(
                    rgba@,
                    #[trigger] (y * width + x),
                ) == zpixmap_pixel(data, width, format, x, y)
        },
        Err(e) => if format.supported() {
            &&& data.len() < format.row_bytes(width) * height || format.row_bytes(width)
                > usize::MAX
            &&& crate::frame::is_invalid(e, format.short_text(width, height, data.len()))
        } else {
            format.is_unsupported(e)
        },
    }
}

/// Convert an X11 `ZPixmap` buffer to tightly packed RGBA8.
///
/// Alpha is forced to `255`: the root window has no alpha channel, and the
/// unused byte of a 32-bit pixel is undefined.
///
/// Fails with [`CaptureError::InvalidFrame`] when `data` is shorter than
/// `height` rows of the format's stride, and [`CaptureError::Unsupported`] for
/// exotic bit depths.
pub fn zpixmap_to_rgba(data: &[u8], width: u32, height: u32, format: ZPixmapFormat) -> (result:
    Result<Vec<u8>, CaptureError>)
    ensures
        is_converted(result, data@, width, height, format),
{
    let bytes: usize = match format.bytes_per_pixel() {
        Ok(bytes) => bytes,
        Err(e) => {
            return Err(e);
        },
    };
    let stride: usize = match format.stride(width) {
        Ok(stride) => stride,
        Err(e) => {
            return Err(e);
        },
    };
    let held: usize = data.len();
    assert(stride * height <= usize::MAX * 0xffff_ffff) by (nonlinear_arith)
        requires
            stride <= usize::MAX,
            height <= 0xffff_ffff,
    ;
    let needed: u128 = stride as u128 * height as u128;
    if needed > usize::MAX as u128 {
        return Err(CaptureError::invalid_frame("X11 image does not fit in memory"));
    }
    if (held as u128) < needed {
        let mut message = joined("X11 image is ", decimal(held as u64).as_str());
        message.append(" bytes, expected at least ");
        message.append(decimal(needed as u64).as_str());
        message.append(" for ");
        message.append(decimal(width as u64).as_str());
        message.append("x");
        message.append(decimal(height as u64).as_str());
        assert(message@ =~= format.short_text(width, height, data@.len()));
        return Err(CaptureError::InvalidFrame(message));
    }
    let pixels: u64 = PixelRect::new(0, 0, width, height).pixel_count();
    let w: u64 = width as u64;
    let mut out: Vec<u8> = Vec::new();
    let mut n: u64 = 0;
    while n < pixels
        invariant
            n <= pixels,
            pixels == width * height,
            w == width,
            format.supported(),
            bytes == format.pixel_bytes(),
            stride == format.row_bytes(width),
            stride >= width * bytes,
            held == data@.len(),
            held >= stride * height,
            out@.len() == 4 * n,
            forall|q: int|
                0 <= q < n ==> #[trigger] crate::frame::nth_pixel(out@, q) == zpixmap_pixel(
                    data@,
                    width,
                    format,
                    q % w as int,
                    q / w as int,
                ),
        decreases pixels - n,
    {
        proof {
            lemma_pixel_position(w as int, height as int, n as int);
            let x = n as int % w as int;
            let y = n as int / w as int;
            lemma_word_fits(x, y, width as int, height as int, bytes as int, stride as int);
        }
        let x: usize = (n % w) as usize;
        let y: usize = (n / w) as usize;
        let word: u32 = read_word(data, y * stride + x * bytes, bytes, format.little_endian);
        let ghost before = out@;
        out.push(channel(word, format.red_mask));
        out.push(channel(word, format.green_mask));
        out.push(channel(word, format.blue_mask));
        out.push(255);
        proof {
            assert forall|q: int| 0 <= q < n + 1 implies #[trigger] crate::frame::nth_pixel(out@, q)
                == zpixmap_pixel(data@, width, format, q % w as int, q / w as int) by {
                if q < n {
                    assert(crate::frame::nth_pixel(out@, q) =~= crate::frame::nth_pixel(before, q));
                } else {
                    assert(crate::frame::nth_pixel(out@, q) =~= rgba_of_word(word, format));
                }
            }
        }
        n = n + 1;
    }
    proof {
        assert forall|x: int, y: int| 0 <= x < width && 0 <= y < height implies
            crate::frame::nth_pixel(out@, #[trigger] (y * width + x)) == zpixmap_pixel(
            data@,
            width,
            format,
            x,
            y,
        ) by {
            lemma_pixel_number(width as int, height as int, x, y);
        }
    }
    Ok(out)
}

/// Two conversions came to the same: to the same bytes, or to the same refusal.
pub open spec fn same_conversion(
    a: Result<Vec<u8>, CaptureError>,
    b: Result<Vec<u8>, CaptureError>,
) -> bool {
    match (a, b) {
        (Ok(x), Ok(y)) => x@ == y@,
        (Err(e), Err(f)) => {
            &&& e is InvalidFrame == f is InvalidFrame
            &&& e is Unsupported == f is Unsupported
            &&& e.detail() == f.detail()
        },
        _ => false,
    }
}

/// Buffers of one size and depth that hold the same pixels convert alike.
proof fn lemma_same_conversion(
    a: Seq<u8>,
    b: Seq<u8>,
    width: u32,
    height: u32,
    of_a: ZPixmapFormat,
    of_b: ZPixmapFormat,
    result_a: Result<Vec<u8>, CaptureError>,
    result_b: Result<Vec<u8>, CaptureError>,
)
    requires
        of_a.bits_per_pixel == of_b.bits_per_pixel,
        of_a.scanline_pad == of_b.scanline_pad,
        a.len() >= of_a.row_bytes(width) * height,
        b.len() >= of_b.row_bytes(width) * height,
        of_a.supported() ==> forall|x: int, y: int|
            0 <= x < width && 0 <= y < height ==> #[trigger] zpixmap_pixel(a, width, of_a, x, y)
                == zpixmap_pixel(b, width, of_b, x, y),
        is_converted(result_a, a, width, height, of_a),
        is_converted(result_b, b, width, height, of_b),
    ensures
        same_conversion(result_a, result_b),
{
    if result_a is Ok && result_b is Ok {
        let p = result_a->Ok_0@;
        let q = result_b->Ok_0@;
        let w = width as int;
        let h = height as int;
        assert forall|n: int| 0 <= n < p.len() implies p[n] == q[n] by {
            let k = n / 4;
            assert(w * h * 4 == 4 * (w * h));
            lemma_pixel_position(w, h, k);
            let x = k % w;
            let y = k / w;
            assert(y * w + x == k);
            assert(zpixmap_pixel(a, width, of_a, x, y) == zpixmap_pixel(b, width, of_b, x, y));
            assert(crate::frame::nth_pixel(p, y * w + x) == crate::frame::nth_pixel(q, y * w + x));
            let c = n - 4 * k;
            assert(crate::frame::nth_pixel(p, k)[c] == p[n]);
            assert(crate::frame::nth_pixel(q, k)[c] == q[n]);
        }
        assert(p =~= q);
    }
}

/// Byte `i` of row `y`, where rows are `stride` bytes apart.
pub open spec fn row_byte(data: Seq<u8>, stride: int, y: int, i: int) -> u8 {
    data[y * stride + i]
}

/// The bytes of pixel `x` belong to the pixels of its row.
proof fn lemma_byte_in_row(x: int, k: int, width: int, bytes: int)
    requires
        0 <= x < width,
        0 <= k < bytes,
    ensures
        0 <= x * bytes + k < width * bytes,
{
    assert(0 <= x * bytes && x * bytes + bytes <= width * bytes) by (nonlinear_arith)
        requires
            0 <= x < width,
            0 <= bytes,
    ;
}

/// The padding between rows, and whatever follows the last row, never show:
/// buffers that agree on the bytes of their pixels convert alike.
pub proof fn law_padding_never_shows(
    a: Seq<u8>,
    b: Seq<u8>,
    width: u32,
    height: u32,
    format: ZPixmapFormat,
    result_a: Result<Vec<u8>, CaptureError>,
    result_b: Result<Vec<u8>, CaptureError>,
)
    requires
        a.len() >= format.row_bytes(width) * height,
        b.len() >= format.row_bytes(width) * height,
        forall|y: int, i: int|
            0 <= y < height && 0 <= i < width * format.pixel_bytes() ==> #[trigger] row_byte(
                a,
                format.row_bytes(width),
                y,
                i,
            ) == row_byte(b, format.row_bytes(width), y, i),
        is_converted(result_a, a, width, height, format),
        is_converted(result_b, b, width, height, format),
    ensures
        same_conversion(result_a, result_b),
{
    let stride = format.row_bytes(width);
    let bytes = format.pixel_bytes();
    if format.supported() {
        assert forall|x: int, y: int| 0 <= x < width && 0 <= y < height implies
            #[trigger] zpixmap_pixel(a, width, format, x, y) == zpixmap_pixel(
            b,
            width,
            format,
            x,
            y,
        ) by {
            assert forall|k: int| 0 <= k < bytes implies #[trigger] a[y * stride + x * bytes + k]
                == b[y * stride + x * bytes + k] by {
                lemma_byte_in_row(x, k, width as int, bytes);
                assert(row_byte(a, stride, y, x * bytes + k) == row_byte(
                    b,
                    stride,
                    y,
                    x * bytes + k,
                ));
                assert(y * stride + (x * bytes + k) == y * stride + x * bytes + k);
            }
            let at = y * stride + x * bytes;
            assert(a[at + 0] == b[at + 0]);
            assert(a[at + 1] == b[at + 1]);
            assert(a[at + 2] == b[at + 2]);
            assert(bytes == 4 ==> a[at + 3] == b[at + 3]);
        }
    }
    lemma_same_conversion(a, b, width, height, format, format, result_a, result_b);
}

/// The layout that essentially every modern X server uses: four bytes per
/// pixel, blue first.
pub open spec fn bgrx() -> ZPixmapFormat {
    ZPixmapFormat {
        bits_per_pixel: 32,
        scanline_pad: 32,
        little_endian: true,
        red_mask: 0x00ff_0000,
        green_mask: 0x0000_ff00,
        blue_mask: 0x0000_00ff,
    }
}

/// In the common layout the fourth byte of a pixel never shows: buffers that
/// agree on the other three convert alike.
pub proof fn law_the_spare_byte_never_shows(
    a: Seq<u8>,
    b: Seq<u8>,
    width: u32,
    height: u32,
    result_a: Result<Vec<u8>, CaptureError>,
    result_b: Result<Vec<u8>, CaptureError>,
)
    requires
        a.len() >= bgrx().row_bytes(width) * height,
        b.len() >= bgrx().row_bytes(width) * height,
        forall|y: int, i: int|
            0 <= y < height && 0 <= i < width * 4 && i % 4 != 3 ==> #[trigger] row_byte(
                a,
                bgrx().row_bytes(width),
                y,
                i,
            ) == row_byte(b, bgrx().row_bytes(width), y, i),
        is_converted(result_a, a, width, height, bgrx()),
        is_converted(result_b, b, width, height, bgrx()),
    ensures
        same_conversion(result_a, result_b),
{
    let stride = bgrx().row_bytes(width);
    assert forall|x: int, y: int| 0 <= x < width && 0 <= y < height implies
        #[trigger] zpixmap_pixel(a, width, bgrx(), x, y) == zpixmap_pixel(
        b,
        width,
        bgrx(),
        x,
        y,
    ) by {
        let at = y * stride + x * 4;
        assert(row_byte(a, stride, y, x * 4) == row_byte(b, stride, y, x * 4));
        assert(row_byte(a, stride, y, x * 4 + 1) == row_byte(b, stride, y, x * 4 + 1));
        assert(row_byte(a, stride, y, x * 4 + 2) == row_byte(b, stride, y, x * 4 + 2));
        assert(a[at] == b[at] && a[at + 1] == b[at + 1] && a[at + 2] == b[at + 2]);
        lemma_spare_byte(a[at], a[at + 1], a[at + 2], a[at + 3], b[at + 3]);
    }
    lemma_same_conversion(a, b, width, height, bgrx(), bgrx(), result_a, result_b);
}

/// The top byte of a word is under none of the common masks.
proof fn lemma_spare_byte(b0: u8, b1: u8, b2: u8, one: u8, other: u8)
    ensures
        ({
            let v = (b0 + 0x100 * b1 + 0x1_0000 * b2 + 0x100_0000 * one) as u32;
            let w = (b0 + 0x100 * b1 + 0x1_0000 * b2 + 0x100_0000 * other) as u32;
            &&& v & 0x00ff_0000 == w & 0x00ff_0000
            &&& v & 0x0000_ff00 == w & 0x0000_ff00
            &&& v & 0x0000_00ff == w & 0x0000_00ff
        }),
{
    let v = (b0 + 0x100 * b1 + 0x1_0000 * b2 + 0x100_0000 * one) as u32;
    let w = (b0 + 0x100 * b1 + 0x1_0000 * b2 + 0x100_0000 * other) as u32;
    let low = (b0 + 0x100 * b1 + 0x1_0000 * b2) as u32;
    let p = one as u32;
    let q = other as u32;
    assert(v & 0x00ff_0000 == w & 0x00ff_0000 && v & 0x0000_ff00 == w & 0x0000_ff00 && v
        & 0x0000_00ff == w & 0x0000_00ff) by (bit_vector)
        requires
            low < 0x100_0000,
            p < 0x100,
            q < 0x100,
            v == low + 0x100_0000 * p,
            w == low + 0x100_0000 * q,
    ;
}

/// The rows of a buffer, counted out: a row takes the fewest units of padding
/// that hold its pixels.
proof fn lemma_row_bytes(format: ZPixmapFormat, width: u32, units: int)
    requires
        format.supported(),
        units * format.pad_bits() >= width * format.bits_per_pixel,
        (units - 1) * format.pad_bits() < width * format.bits_per_pixel,
    ensures
        format.row_bytes(width) == units * format.pad_bits() / 8,
        format.row_bytes(width) >= width * format.pixel_bytes(),
{
    let pad = format.pad_bits();
    let bits = width * format.pixel_bytes() * 8;
    let bpp = format.bits_per_pixel as int;
    let w = width as int;
    assert(bits == w * bpp) by (nonlinear_arith)
        requires
            bpp == 24 || bpp == 32,
            bits == w * (bpp / 8) * 8,
    ;
    let rest = bits + pad - 1 - units * pad;
    assert(0 <= rest < pad) by (nonlinear_arith)
        requires
            rest == bits + pad - 1 - units * pad,
            units * pad >= bits,
            (units - 1) * pad < bits,
    ;
    vstd::arithmetic::div_mod::lemma_fundamental_div_mod_converse(bits + pad - 1, pad, units, rest);
    assert(units * pad / 8 >= w * (bpp / 8)) by (nonlinear_arith)
        requires
            bits == w * (bpp / 8) * 8,
            units * pad >= bits,
    ;
}

/// Every pixel comes from its own place. Rows follow one another at the
/// smallest multiple of the padding that holds them, pixels follow one another
/// in a row, and the bytes of a pixel make its word in the server's byte order.
/// The buffer has to hold all of its rows, and nothing else is asked of it.
pub proof fn law_pixels_keep_their_places(
    data: Seq<u8>,
    width: u32,
    height: u32,
    format: ZPixmapFormat,
    result: Result<Vec<u8>, CaptureError>,
    units: int,
    x: int,
    y: int,
)
    requires
        format.bits_per_pixel == 24 || format.bits_per_pixel == 32,
        ({
            let pad = if format.scanline_pad == 0 {
                8
            } else {
                format.scanline_pad as int
            };
            &&& units * pad >= width * format.bits_per_pixel
            &&& (units - 1) * pad < width * format.bits_per_pixel
        }),
        is_converted(result, data, width, height, format),
        0 <= x < width,
        0 <= y < height,
    ensures
        ({
            let pad = if format.scanline_pad == 0 {
                8
            } else {
                format.scanline_pad as int
            };
            let row = units * pad / 8;
            let at = y * row + x * (format.bits_per_pixel as int / 8);
            let out = 4 * (y * width + x);
            let word = if format.bits_per_pixel == 24 {
                if format.little_endian {
                    data[at] + 0x100 * data[at + 1] + 0x1_0000 * data[at + 2]
                } else {
                    data[at + 2] + 0x100 * data[at + 1] + 0x1_0000 * data[at]
                }
            } else {
                if format.little_endian {
                    data[at] + 0x100 * data[at + 1] + 0x1_0000 * data[at + 2] + 0x100_0000
                        * data[at + 3]
                } else {
                    data[at + 3] + 0x100 * data[at + 2] + 0x1_0000 * data[at + 1] + 0x100_0000
                        * data[at]
                }
            };
            &&& result is Ok <==> row <= usize::MAX && data.len() >= row * height
            &&& result matches Err(e) ==> e is InvalidFrame
            &&& result matches Ok(rgba) ==> {
                &&& rgba@.len() == 4 * (width * height)
                &&& out + 3 < rgba@.len()
                &&& rgba@[out] == channel_byte(word as u32, format.red_mask)
                &&& rgba@[out + 1] == channel_byte(word as u32, format.green_mask)
                &&& rgba@[out + 2] == channel_byte(word as u32, format.blue_mask)
                &&& rgba@[out + 3] == 255
            }
        }),
{
    lemma_row_bytes(format, width, units);
    lemma_pixel_number(width as int, height as int, x, y);
    if result is Ok {
        let rgba = result->Ok_0@;
        let n = y * width + x;
        assert(crate::frame::nth_pixel(rgba, n) == zpixmap_pixel(data, width, format, x, y));
        let px = crate::frame::nth_pixel(rgba, n);
        assert(px[0] == rgba[4 * n] && px[1] == rgba[4 * n + 1] && px[2] == rgba[4 * n + 2] && px[3]
            == rgba[4 * n + 3]);
        assert(width * height * 4 == 4 * (width * height));
    }
}

/// A pixel shows in its own place and nowhere else: buffers that differ in the
/// bytes of one pixel convert to images that differ in that pixel at most.
pub proof fn law_a_pixel_shows_in_one_place(
    a: Seq<u8>,
    b: Seq<u8>,
    width: u32,
    height: u32,
    format: ZPixmapFormat,
    result_a: Result<Vec<u8>, CaptureError>,
    result_b: Result<Vec<u8>, CaptureError>,
    row: usize,
    x: int,
    y: int,
)
    requires
        format.bits_per_pixel == 24 || format.bits_per_pixel == 32,
        format.row_bytes(width) == row,
        a.len() == b.len(),
        a.len() >= row * height,
        forall|i: int|
            0 <= i < a.len() && !(y * row + x * (format.bits_per_pixel as int / 8) <= i < y * row
                + (x + 1) * (format.bits_per_pixel as int / 8)) ==> #[trigger] a[i] == b[i],
        is_converted(result_a, a, width, height, format),
        is_converted(result_b, b, width, height, format),
        0 <= x < width,
        0 <= y < height,
    ensures
        result_a matches Ok(p) && result_b matches Ok(q) && p@.len() == q@.len() && forall|i: int|
            0 <= i < p@.len() && !(4 * (y * width + x) <= i < 4 * (y * width + x) + 4)
                ==> #[trigger] p@[i] == q@[i],
{
    let p = result_a->Ok_0@;
    let q = result_b->Ok_0@;
    let w = width as int;
    let h = height as int;
    let bytes = format.pixel_bytes();
    let stride = row as int;
    lemma_stride_holds(format, width);
    assert forall|i: int|
        0 <= i < p.len() && !(4 * (y * w + x) <= i < 4 * (y * w + x) + 4) implies #[trigger] p[i]
        == q[i] by {
        let k = i / 4;
        assert(w * h * 4 == 4 * (w * h));
        lemma_pixel_position(w, h, k);
        let u = k % w;
        let v = k / w;
        assert(v * w + u == k);
        lemma_word_fits(u, v, w, h, bytes, stride);
        let at = v * stride + u * bytes;
        assert(at + bytes <= y * stride + x * bytes || y * stride + (x + 1) * bytes <= at)
            by (nonlinear_arith)
            requires
                at == v * stride + u * bytes,
                0 <= x < w,
                0 <= u < w,
                w * bytes <= stride,
                bytes > 0,
                u != x || v != y,
        ;
        assert(a[at] == b[at] && a[at + 1] == b[at + 1] && a[at + 2] == b[at + 2] && (bytes == 4
            ==> a[at + 3] == b[at + 3]));
        assert(crate::frame::nth_pixel(p, v * w + u) == zpixmap_pixel(a, width, format, u, v));
        assert(crate::frame::nth_pixel(q, v * w + u) == zpixmap_pixel(b, width, format, u, v));
        let c = i - 4 * k;
        assert(crate::frame::nth_pixel(p, k)[c] == p[i]);
        assert(crate::frame::nth_pixel(q, k)[c] == q[i]);
    }
}

/// A row holds its pixels.
proof fn lemma_stride_holds(format: ZPixmapFormat, width: u32)
    requires
        format.supported(),
    ensures
        format.row_bytes(width) >= width * format.pixel_bytes(),
{
    let pad = format.pad_bits();
    let bits = width * format.pixel_bytes() * 8;
    let units = (bits + pad - 1) / pad;
    vstd::arithmetic::div_mod::lemma_fundamental_div_mod(bits + pad - 1, pad);
    let rest = (bits + pad - 1) % pad;
    assert(bits <= units * pad) by (nonlinear_arith)
        requires
            bits + pad - 1 == pad * units + rest,
            0 <= rest < pad,
    ;
}

/// In the layout of essentially every modern X server a pixel is four bytes,
/// blue first, and rows follow one another without a gap.
pub proof fn law_common_pixels_are_blue_first(
    data: Seq<u8>,
    width: u32,
    height: u32,
    format: ZPixmapFormat,
    result: Result<Vec<u8>, CaptureError>,
    x: int,
    y: int,
)
    requires
        format.bits_per_pixel == 32,
        format.scanline_pad == 32,
        format.little_endian,
        format.red_mask == 0x00ff_0000,
        format.green_mask == 0x0000_ff00,
        format.blue_mask == 0x0000_00ff,
        is_converted(result, data, width, height, format),
        result is Ok,
        0 <= x < width,
        0 <= y < height,
    ensures
        ({
            let at = 4 * (y * width + x);
            let rgba = result->Ok_0@;
            &&& rgba.len() == 4 * (width * height) <= data.len()
            &&& rgba[at] == data[at + 2]
            &&& rgba[at + 1] == data[at + 1]
            &&& rgba[at + 2] == data[at]
            &&& rgba[at + 3] == 255
        }),
{
    law_pixels_keep_their_places(data, width, height, format, result, width as int, x, y);
    let at = 4 * (y * width + x);
    let row = width * 32 / 8;
    assert(row == 4 * width);
    assert(y * row + x * 4 == at) by (nonlinear_arith)
        requires
            row == 4 * width,
            at == 4 * (y * width + x),
    ;
    assert(row * height == 4 * (width * height)) by (nonlinear_arith)
        requires
            row == 4 * width,
    ;
    let word = data[at] + 0x100 * data[at + 1] + 0x1_0000 * data[at + 2] + 0x100_0000 * data[at + 3];
    let v = word as u32;
    let b0 = data[at];
    let b1 = data[at + 1];
    let b2 = data[at + 2];
    let b3 = data[at + 3];
    lemma2_to64();
    assert((pow2(8) - 1) * pow2(16) == 0x00ff_0000 && (pow2(8) - 1) * pow2(8) == 0x0000_ff00)
        by (nonlinear_arith)
        requires
            pow2(8) == 0x100,
            pow2(16) == 0x1_0000,
    ;
    lemma_contiguous_mask(0x00ff_0000, 16, 8);
    lemma_contiguous_mask(0x0000_ff00, 8, 8);
    lemma_contiguous_mask(0x0000_00ff, 0, 8);
    vstd::bits::lemma_u32_shr_is_div(v & 0x00ff_0000, 16);
    vstd::bits::lemma_u32_shr_is_div(v & 0x0000_ff00, 8);
    vstd::bits::lemma_u32_shr_is_div(v & 0x0000_00ff, 0);
    assert((v & 0x00ff_0000) >> 16 == b2 && (v & 0x0000_ff00) >> 8 == b1 && (v & 0x0000_00ff) >> 0
        == b0) by (bit_vector)
        requires
            v == b0 + 0x100 * b1 + 0x1_0000 * b2 + 0x100_0000 * b3,
    ;
}

/// A mask of `bits` bits in a row, the lowest of them bit `shift`.
proof fn lemma_contiguous_mask(mask: nat, shift: nat, bits: nat)
    requires
        mask == (pow2(bits) - 1) * pow2(shift),
        bits > 0,
    ensures
        low_zeros(mask) == shift,
        ones(mask) == bits,
        mask > 0,
    decreases shift + bits,
{
    lemma_pow2_pos(bits);
    lemma_pow2_pos(shift);
    lemma2_to64();
    if shift > 0 {
        let half = ((pow2(bits) - 1) * pow2((shift - 1) as nat)) as nat;
        lemma_pow2_unfold(shift);
        let p = pow2(bits) - 1;
        let q = pow2((shift - 1) as nat) as int;
        lemma_pow2_pos((shift - 1) as nat);
        lemma_pow2_unfold(bits);
        assert(p * (2 * q) == 2 * (p * q)) by (nonlinear_arith);
        assert(0 <= p * q) by (nonlinear_arith)
            requires
                0 <= p,
                0 <= q,
        ;
        assert(mask == 2 * half);
        lemma_contiguous_mask(half, (shift - 1) as nat, bits);
    } else {
        lemma_pow2_unfold(bits);
        let q = pow2((bits - 1) as nat);
        assert(mask == 2 * q - 1) by (nonlinear_arith)
            requires
                mask == (pow2(bits) - 1) * pow2(shift),
                pow2(shift) == 1,
                pow2(bits) == 2 * q,
        ;
        lemma_pow2_pos((bits - 1) as nat);
        assert(mask / 2 == q - 1);
        if bits > 1 {
            let half = (q - 1) as nat;
            assert(half == (pow2((bits - 1) as nat) - 1) * pow2(0)) by (nonlinear_arith)
                requires
                    half == pow2((bits - 1) as nat) - 1,
                    pow2(0) == 1,
            ;
            lemma_contiguous_mask(half, 0, (bits - 1) as nat);
        } else {
            assert(ones(0) == 0);
        }
    }
}

/// The same format on a server with the other byte order.
pub open spec fn other_order(format: ZPixmapFormat) -> ZPixmapFormat {
    ZPixmapFormat { little_endian: !format.little_endian, ..format }
}

/// A server's byte order shows in its bytes and in nothing else: reversing the
/// bytes of every pixel, and the order in the format with them, changes nothing.
pub proof fn law_byte_order_is_only_an_order(
    a: Seq<u8>,
    b: Seq<u8>,
    width: u32,
    height: u32,
    format: ZPixmapFormat,
    result_a: Result<Vec<u8>, CaptureError>,
    result_b: Result<Vec<u8>, CaptureError>,
)
    requires
        a.len() >= format.row_bytes(width) * height,
        b.len() >= format.row_bytes(width) * height,
        forall|x: int, y: int, k: int|
            0 <= x < width && 0 <= y < height && 0 <= k < format.pixel_bytes()
                ==> #[trigger] pixel_byte(a, width, format, x, y, k) == pixel_byte(
                b,
                width,
                format,
                x,
                y,
                format.pixel_bytes() - 1 - k,
            ),
        is_converted(result_a, a, width, height, format),
        is_converted(result_b, b, width, height, other_order(format)),
    ensures
        same_conversion(result_a, result_b),
{
    let other = other_order(format);
    let bytes = format.pixel_bytes();
    if format.supported() {
        assert forall|x: int, y: int| 0 <= x < width && 0 <= y < height implies
            #[trigger] zpixmap_pixel(a, width, format, x, y) == zpixmap_pixel(
            b,
            width,
            other,
            x,
            y,
        ) by {
            assert(pixel_byte(a, width, format, x, y, 0) == pixel_byte(
                b,
                width,
                format,
                x,
                y,
                bytes - 1,
            ));
            assert(pixel_byte(a, width, format, x, y, 1) == pixel_byte(
                b,
                width,
                format,
                x,
                y,
                bytes - 2,
            ));
            assert(pixel_byte(a, width, format, x, y, 2) == pixel_byte(
                b,
                width,
                format,
                x,
                y,
                bytes - 3,
            ));
            assert(bytes == 4 ==> pixel_byte(a, width, format, x, y, 3) == pixel_byte(
                b,
                width,
                format,
                x,
                y,
                0,
            ));
        }
    }
    lemma_same_conversion(a, b, width, height, format, other, result_a, result_b);
}

/// Byte `k` of pixel `(x, y)`, in memory order.
pub open spec fn pixel_byte(
    data: Seq<u8>,
    width: u32,
    format: ZPixmapFormat,
    x: int,
    y: int,
    k: int,
) -> u8 {
    data[y * format.row_bytes(width) + x * format.pixel_bytes() + k]
}

/// The bytes of a pixel lie in its row, and the row in the buffer.
proof fn lemma_word_fits(x: int, y: int, width: int, height: int, bytes: int, stride: int)
    requires
        0 <= x < width,
        0 <= y < height,
        0 <= bytes,
        width * bytes <= stride,
    ensures
        0 <= x * bytes,
        x * bytes + bytes <= stride,
        0 <= y * stride,
        y * stride + x * bytes + bytes <= stride * height,
{
    assert(0 <= x * bytes && x * bytes + bytes <= width * bytes) by (nonlinear_arith)
        requires
            0 <= x < width,
            0 <= bytes,
    ;
    assert(0 <= y * stride && y * stride + stride <= stride * height) by (nonlinear_arith)
        requires
            0 <= y < height,
            0 <= stride,
    ;
}

/// A BGRA pixel as RGBA, or the other way round.
pub open spec fn swapped(px: Seq<u8>, force_opaque: bool) -> Seq<u8> {
    seq![
        px[2],
        px[1],
        px[0],
        if force_opaque {
            255
        } else {
            px[3]
        },
    ]
}

/// Convert a tightly packed BGRA8 buffer to RGBA8 in place.
///
/// `force_opaque` overwrites alpha with `255`, which is what desktop and
/// monitor grabs want: their alpha channel is undefined.
pub fn bgra_to_rgba(data: &mut Vec<u8>, force_opaque: bool) -> (result: Result<(), CaptureError>)
    ensures
        final(data)@.len() == old(data)@.len(),
        match result {
            Ok(_) => old(data)@.len() % 4 == 0 && forall|n: int|
                0 <= n < old(data)@.len() / 4 ==> #[trigger] crate::frame::nth_pixel(
                    final(data)@,
                    n,
                ) == swapped(crate::frame::nth_pixel(old(data)@, n), force_opaque),
            Err(e) => {
                &&& old(data)@.len() % 4 != 0
                &&& crate::frame::is_invalid(
                    e,
                    "BGRA buffer length "@ + crate::text::decimal_text(old(data)@.len())
                        + " is not a multiple of 4"@,
                )
                &&& final(data)@ == old(data)@
            },
        },
{
    let total: usize = data.len();
    if total % 4 != 0 {
        let mut message = joined("BGRA buffer length ", decimal(total as u64).as_str());
        message.append(" is not a multiple of 4");
        return Err(CaptureError::InvalidFrame(message));
    }
    let ghost start = data@;
    let pixels: usize = total / 4;
    let mut n: usize = 0;
    while n < pixels
        invariant
            n <= pixels,
            total == 4 * pixels,
            data@.len() == total,
            start.len() == total,
            forall|q: int|
                0 <= q < n ==> #[trigger] crate::frame::nth_pixel(data@, q) == swapped(
                    crate::frame::nth_pixel(start, q),
                    force_opaque,
                ),
            forall|i: int| 4 * n <= i < total ==> #[trigger] data@[i] == start[i],
        decreases pixels - n,
    {
        let ghost before = data@;
        let blue: u8 = data[4 * n];
        let red: u8 = data[4 * n + 2];
        data.set(4 * n, red);
        data.set(4 * n + 2, blue);
        if force_opaque {
            data.set(4 * n + 3, 255);
        }
        proof {
            assert forall|q: int| 0 <= q < n + 1 implies #[trigger] crate::frame::nth_pixel(
                data@,
                q,
            ) == swapped(crate::frame::nth_pixel(start, q), force_opaque) by {
                if q < n {
                    assert(crate::frame::nth_pixel(data@, q) =~= crate::frame::nth_pixel(
                        before,
                        q,
                    ));
                } else {
                    assert(crate::frame::nth_pixel(data@, q) =~= swapped(
                        crate::frame::nth_pixel(start, q),
                        force_opaque,
                    ));
                }
            }
        }
        n = n + 1;
    }
    Ok(())
}

/// Swapping twice without forcing opacity gives the pixel back.
pub proof fn law_swapping_twice_is_nothing(px: Seq<u8>)
    requires
        px.len() == 4,
    ensures
        swapped(swapped(px, false), false) == px,
{
    assert(swapped(swapped(px, false), false) =~= px);
}

/// Bit `i` of `n`, counted from the lowest.
pub open spec fn bit(n: u32, i: u32) -> bool {
    (n >> i) & 1 == 1
}

/// A narrow channel is repeated downwards: bit `i` of the byte, counted from
/// the top, is bit `i % bits` of the channel, counted from its top. In
/// particular an all-ones channel is 255 and an all-zeros channel is 0.
pub proof fn law_narrow_channels_repeat(raw: u32, bits: u32, i: u32)
    requires
        1 <= bits < 8,
        raw < pow2(bits as nat),
        i < 8,
    ensures
        bit(spread(raw, bits as nat, 0) & 0xff, (7 - i) as u32) == bit(
            raw,
            (bits - 1 - i % bits) as u32,
        ),
{
    lemma2_to64();
    reveal_with_fuel(spread, 9);
    let top = (7 - i) as u32;
    let of = (bits - 1 - i % bits) as u32;
    if bits == 1 {
        assert(bit(
            (raw << 7u32 | (raw << 6u32 | (raw << 5u32 | (raw << 4u32 | (raw << 3u32 | (raw << 2u32
                | (raw << 1u32 | (raw << 0u32 | 0u32)))))))) & 0xff,
            top,
        ) == bit(raw, of)) by (bit_vector)
            requires
                raw < 2,
                i < 8,
                top == 7 - i,
                of == 0,
        ;
    } else if bits == 2 {
        assert(bit(
            (raw << 6u32 | (raw << 4u32 | (raw << 2u32 | (raw << 0u32 | 0u32)))) & 0xff,
            top,
        ) == bit(raw, of)) by (bit_vector)
            requires
                raw < 4,
                i < 8,
                top == 7 - i,
                of == 1 - i % 2,
        ;
    } else if bits == 3 {
        assert(bit((raw << 5u32 | (raw << 2u32 | (raw >> 1u32 | 0u32))) & 0xff, top) == bit(raw, of))
            by (bit_vector)
            requires
                raw < 8,
                i < 8,
                top == 7 - i,
                of == 2 - i % 3,
        ;
    } else if bits == 4 {
        assert(bit((raw << 4u32 | (raw << 0u32 | 0u32)) & 0xff, top) == bit(raw, of))
            by (bit_vector)
            requires
                raw < 16,
                i < 8,
                top == 7 - i,
                of == 3 - i % 4,
        ;
    } else if bits == 5 {
        assert(bit((raw << 3u32 | (raw >> 2u32 | 0u32)) & 0xff, top) == bit(raw, of))
            by (bit_vector)
            requires
                raw < 32,
                i < 8,
                top == 7 - i,
                of == 4 - i % 5,
        ;
    } else if bits == 6 {
        assert(bit((raw << 2u32 | (raw >> 4u32 | 0u32)) & 0xff, top) == bit(raw, of))
            by (bit_vector)
            requires
                raw < 64,
                i < 8,
                top == 7 - i,
                of == 5 - i % 6,
        ;
    } else {
        assert(bit((raw << 1u32 | (raw >> 6u32 | 0u32)) & 0xff, top) == bit(raw, of))
            by (bit_vector)
            requires
                raw < 128,
                i < 8,
                top == 7 - i,
                of == 6 - i % 7,
        ;
    }
}

/// A channel is read from its top bit down: bit `i` of the byte, counted from
/// the top, is bit `i` of the channel, counted from its top, and a channel that
/// runs out starts over. The channel is wherever the mask says, and no other
/// bit of the pixel shows.
pub proof fn law_channels_are_read_from_the_top(
    pixel: u32,
    mask: u32,
    shift: u32,
    bits: u32,
    i: u32,
)
    requires
        1 <= bits,
        shift + bits <= 32,
        mask == (pow2(bits as nat) - 1) * pow2(shift as nat),
        i < 8,
    ensures
        bit(channel_byte(pixel, mask) as u32, (7 - i) as u32) == bit(
            pixel,
            (shift + bits - 1 - i % bits) as u32,
        ),
{
    lemma_contiguous_mask(mask as nat, shift as nat, bits as nat);
    lemma2_to64();
    lemma_pow2_pos(bits as nat);
    lemma_pow2_pos(shift as nat);
    if bits < 32 {
        lemma_pow2_strictly_increases(bits as nat, 32);
    }
    let one = 1u64;
    let low = (pow2(bits as nat) - 1) as u64;
    vstd::bits::lemma_u64_shl_is_mul(one, bits as u64);
    vstd::bits::lemma_u64_shl_is_mul(low, shift as u64);
    let raw = (pixel & mask) >> shift;
    vstd::bits::lemma_u32_shr_is_div(pixel & mask, shift);
    let wide = bits as u64;
    let far = shift as u64;
    assert(mask as u64 == low << far);
    assert((raw as u64) < one << wide) by (bit_vector)
        requires
            raw == (pixel & mask) >> shift,
            mask as u64 == low << far,
            far == shift as u64,
            low + 1 == one << wide,
            one == 1,
            1 <= wide <= 32,
            shift + wide <= 32,
    ;
    let j = (bits - 1 - i % bits) as u32;
    let top = (shift + bits - 1 - i % bits) as u32;
    assert(bit(raw, j) == bit(pixel, top)) by (bit_vector)
        requires
            raw == (pixel & mask) >> shift,
            mask as u64 == low << far,
            far == shift as u64,
            low + 1 == one << wide,
            one == 1,
            1 <= wide <= 32,
            shift + wide <= 32,
            j < wide,
            top == shift + j,
    ;
    let of = (7 - i) as u32;
    if bits < 8 {
        law_narrow_channels_repeat(raw, bits, i);
        let s = spread(raw, bits as nat, 0);
        assert(s & 0xff <= 0xff) by (bit_vector);
    } else if bits == 8 {
        assert(raw < 256);
        vstd::arithmetic::div_mod::lemma_small_mod(i as nat, bits as nat);
    } else {
        vstd::arithmetic::div_mod::lemma_small_mod(i as nat, bits as nat);
        let by = (bits - 8) as u32;
        vstd::bits::lemma_u32_shr_is_div(raw, by);
        assert(bit((raw >> by) % 256, of) == bit(raw, j)) by (bit_vector)
            requires
                of < 8,
                by < 32,
                j == by + of,
        ;
    }
}

/// What lies outside a mask never shows.
pub proof fn law_only_the_mask_shows(a: u32, b: u32, mask: u32)
    requires
        a & mask == b & mask,
    ensures
        channel_byte(a, mask) == channel_byte(b, mask),
        mask == 0 ==> channel_byte(a, mask) == 0,
{
}

/// Swapping a buffer exchanges the first and the third byte of every pixel. It
/// leaves the second alone, and the fourth unless the pixels are to be opaque.
pub proof fn law_swapping_exchanges_red_and_blue(
    before: Seq<u8>,
    after: Seq<u8>,
    force_opaque: bool,
    i: int,
)
    requires
        before.len() == after.len(),
        before.len() % 4 == 0,
        forall|n: int|
            0 <= n < before.len() / 4 ==> #[trigger] crate::frame::nth_pixel(after, n) == swapped(
                crate::frame::nth_pixel(before, n),
                force_opaque,
            ),
        0 <= i < before.len(),
    ensures
        i % 4 == 0 ==> after[i] == before[i + 2],
        i % 4 == 1 ==> after[i] == before[i],
        i % 4 == 2 ==> after[i] == before[i - 2],
        i % 4 == 3 ==> after[i] == (if force_opaque {
            255u8
        } else {
            before[i]
        }),
{
    let n = i / 4;
    let c = i % 4;
    let px = crate::frame::nth_pixel(after, n);
    assert(px == swapped(crate::frame::nth_pixel(before, n), force_opaque));
    assert(px[c] == after[i]);
}

} // verus!
