//! [`RgbaImage`], the picture that is annotated, saved and copied.
//!
//! It is what a [`RawFrame`](crate::frame::RawFrame) becomes once it has left
//! the desktop: four bytes per pixel, row-major and tightly packed, without a
//! place or a scale.

use crate::frame::{copy_block, expected_len, lemma_pixel_number, RawFrame};
use crate::geometry::{Rect, Vec2D};
use crate::text::decimal;
use vstd::prelude::*;
use vstd::string::*;

verus! {

/// An RGBA8 picture with straight alpha.
#[derive(Debug, Clone, PartialEq, Eq)]
pub struct RgbaImage {
    /// Width in pixels.
    pub width: u32,
    /// Height in pixels.
    pub height: u32,
    /// RGBA8, row-major.
    pub data: Vec<u8>,
}

impl RgbaImage {
    /// The buffer matches the dimensions.
    pub open spec fn wf(self) -> bool {
        self.data@.len() == crate::frame::byte_len(self.width, self.height)
    }

    /// `(x, y)` is a pixel of the picture.
    pub open spec fn has(self, x: int, y: int) -> bool {
        0 <= x < self.width && 0 <= y < self.height
    }

    /// The four bytes of pixel `(x, y)`.
    pub open spec fn at(self, x: int, y: int) -> Seq<u8> {
        crate::frame::nth_pixel(self.data@, y * self.width + x)
    }

    /// No pixels at all.
    pub open spec fn blank(self) -> bool {
        self.width == 0 || self.height == 0
    }

    /// The pixels of the picture, as a rectangle at the origin.
    pub open spec fn area(self) -> Rect {
        Rect { left: 0, top: 0, right: self.width as i64, bottom: self.height as i64 }
    }

    /// Wrap a buffer. A longer buffer than the dimensions ask for is cut off;
    /// there is no picture in a shorter one.
    pub fn from_raw(width: u32, height: u32, data: Vec<u8>) -> (image: Option<RgbaImage>)
        ensures
            match image {
                Some(p) => {
                    &&& data@.len() >= crate::frame::byte_len(width, height)
                    &&& p.wf()
                    &&& p.width == width
                    &&& p.height == height
                    &&& p.data@ == data@.take(crate::frame::byte_len(width, height))
                },
                None => data@.len() < crate::frame::byte_len(width, height),
            },
    {
        let have: usize = data.len();
        match expected_len(width, height) {
            Ok(needed) => {
                if have < needed {
                    return None;
                }
                let mut data = data;
                data.truncate(needed);
                Some(RgbaImage { width, height, data })
            },
            Err(_) => None,
        }
    }

    /// A picture of one colour, or `None` when memory cannot hold it.
    pub fn from_pixel(width: u32, height: u32, rgba: [u8; 4]) -> (image: Option<RgbaImage>)
        ensures
            match image {
                Some(p) => {
                    &&& p.wf()
                    &&& p.width == width
                    &&& p.height == height
                    &&& forall|x: int, y: int| p.has(x, y) ==> #[trigger] p.at(x, y) == rgba@
                },
                None => crate::frame::byte_len(width, height) > usize::MAX,
            },
    {
        match RawFrame::filled(width, height, rgba, Vec2D::new(0, 0), crate::single::ONE_BITS) {
            Ok(frame) => {
                let image = RgbaImage { width, height, data: frame.data };
                proof {
                    assert forall|x: int, y: int| image.has(x, y) implies #[trigger] image.at(x, y)
                        == rgba@ by {
                        assert(frame.has(x, y));
                        assert(frame.at(x, y) == image.at(x, y));
                    }
                }
                Some(image)
            },
            Err(_) => None,
        }
    }

    /// The RGBA value at `(x, y)`, or `None` when out of range.
    pub fn get_pixel(&self, x: u32, y: u32) -> (rgba: Option<[u8; 4]>)
        requires
            self.wf(),
        ensures
            match rgba {
                Some(p) => self.has(x as int, y as int) && p@ == self.at(x as int, y as int),
                None => !self.has(x as int, y as int),
            },
    {
        if x >= self.width || y >= self.height {
            return None;
        }
        let total: usize = self.data.len();
        proof {
            lemma_pixel_number(self.width as int, self.height as int, x as int, y as int);
            crate::frame::lemma_rows_fit(self.width as int, self.height as int, y as int);
        }
        let at: usize = (y as usize * self.width as usize + x as usize) * 4;
        let p: [u8; 4] = [self.data[at], self.data[at + 1], self.data[at + 2], self.data[at + 3]];
        assert(p@ =~= self.at(x as int, y as int));
        Some(p)
    }
}

/// What turning a frame into a picture gives.
pub open spec fn is_converted(result: Result<RgbaImage, String>, frame: RawFrame) -> bool {
    let needed = crate::frame::byte_len(frame.width, frame.height);
    match result {
        Ok(p) => {
            &&& frame.data@.len() >= needed
            &&& p.wf()
            &&& p.width == frame.width
            &&& p.height == frame.height
            &&& p.data@ == frame.data@.take(needed)
        },
        Err(e) => {
            &&& frame.data@.len() < needed
            &&& e@ == "the capture backend returned "@ + crate::text::decimal_text(
                frame.data@.len(),
            ) + " bytes for a "@ + crate::text::decimal_text(frame.width as nat) + "×"@
                + crate::text::decimal_text(frame.height as nat) + " frame"@
        },
    }
}

/// The pixels of a frame, as a picture. A buffer that does not match the
/// dimensions is reported, not silently accepted.
pub fn frame_to_image(frame: RawFrame) -> (result: Result<RgbaImage, String>)
    ensures
        is_converted(result, frame),
{
    let have: usize = frame.data.len();
    match RgbaImage::from_raw(frame.width, frame.height, frame.data) {
        Some(image) => Ok(image),
        None => {
            let mut message = "the capture backend returned ".to_owned();
            message.append(decimal(have as u64).as_str());
            message.append(" bytes for a ");
            message.append(decimal(frame.width as u64).as_str());
            message.append("×");
            message.append(decimal(frame.height as u64).as_str());
            message.append(" frame");
            Err(message)
        },
    }
}

/// The picture, unless it has no pixels.
pub fn non_empty(image: RgbaImage) -> (result: Result<RgbaImage, String>)
    ensures
        match result {
            Ok(p) => p == image && !image.blank(),
            Err(e) => image.blank() && e@ == "the image is empty"@,
        },
{
    if image.width == 0 || image.height == 0 {
        return Err("the image is empty".to_owned());
    }
    Ok(image)
}

/// The part of `bounds` that cropping to `rect` keeps: what the two share, and
/// one pixel in a direction in which they share nothing, as long as the picture
/// goes on there.
pub open spec fn crop_area(bounds: Rect, rect: Rect) -> Rect {
    let r = rect.in_order().within(bounds);
    Rect {
        left: crate::geometry::least(r.left as int, bounds.right as int) as i64,
        top: crate::geometry::least(r.top as int, bounds.bottom as int) as i64,
        right: crate::geometry::least(
            crate::geometry::greatest(r.right as int, r.left + 1),
            bounds.right as int,
        ) as i64,
        bottom: crate::geometry::least(
            crate::geometry::greatest(r.bottom as int, r.top + 1),
            bounds.bottom as int,
        ) as i64,
    }
}

/// `cut` shows the part `r` of `whole`.
pub open spec fn is_part(cut: RgbaImage, whole: RgbaImage, r: Rect) -> bool {
    &&& cut.wf()
    &&& cut.width == r.right - r.left
    &&& cut.height == r.bottom - r.top
    &&& forall|x: int, y: int|
        cut.has(x, y) ==> #[trigger] cut.at(x, y) == whole.at(r.left + x, r.top + y)
}

/// Crop a picture, clamped to its bounds.
pub fn crop_image(base: &RgbaImage, rect: Rect) -> (cut: RgbaImage)
    requires
        base.wf(),
    ensures
        is_part(cut, *base, crop_area(base.area(), rect)),
{
    let bounds = Rect::from_xywh(0, 0, base.width as i64, base.height as i64);
    let r = rect.normalized().clamped_to(bounds);
    let left: i64 = if r.left < bounds.right { r.left } else { bounds.right };
    let top: i64 = if r.top < bounds.bottom { r.top } else { bounds.bottom };
    let width: i64 = if r.left >= bounds.right {
        0
    } else if r.right > r.left {
        r.right - r.left
    } else {
        1
    };
    let height: i64 = if r.top >= bounds.bottom {
        0
    } else if r.bottom > r.top {
        r.bottom - r.top
    } else {
        1
    };
    let data = copy_block(
        &base.data,
        base.width as usize,
        base.height as usize,
        left as usize,
        top as usize,
        width as usize,
        height as usize,
    );
    let cut = RgbaImage { width: width as u32, height: height as u32, data };
    proof {
        let c = crop_area(base.area(), rect);
        assert forall|x: int, y: int| cut.has(x, y) implies #[trigger] cut.at(x, y) == base.at(
            c.left + x,
            c.top + y,
        ) by {
            assert(crate::frame::nth_pixel(cut.data@, y * cut.width + x)
                == crate::frame::nth_pixel(base.data@, (top + y) * base.width + left + x));
        }
    }
    cut
}

/// Cropping to a rectangle with pixels inside a picture keeps exactly the
/// rectangle.
pub proof fn law_cropping_inside_keeps_the_rectangle(base: RgbaImage, rect: Rect, cut: RgbaImage)
    requires
        base.wf(),
        !rect.empty(),
        base.area().covers(rect),
        is_part(cut, base, crop_area(base.area(), rect)),
    ensures
        cut.width == rect.right - rect.left,
        cut.height == rect.bottom - rect.top,
        forall|x: int, y: int|
            cut.has(x, y) ==> #[trigger] cut.at(x, y) == base.at(rect.left + x, rect.top + y),
{
}

/// A crop whose corner lies on the picture is never empty, however small the
/// selection was.
pub proof fn law_a_crop_on_the_picture_has_pixels(base: RgbaImage, rect: Rect, cut: RgbaImage)
    requires
        base.wf(),
        rect.in_order().left < base.width,
        rect.in_order().top < base.height,
        !base.blank(),
        is_part(cut, base, crop_area(base.area(), rect)),
    ensures
        !cut.blank(),
{
}

/// A channel with opacity `a` over white, rounded to the nearest value.
pub open spec fn on_white(c: int, a: int) -> int {
    (2 * (c * a + 255 * (255 - a)) + 255) / 510
}

/// The bytes of a picture without its alpha channel, laid on white.
pub open spec fn flattened(data: Seq<u8>, pixels: int) -> Seq<u8> {
    Seq::new(
        (3 * pixels) as nat,
        |i: int| on_white(data[4 * (i / 3) + i % 3] as int, data[4 * (i / 3) + 3] as int) as u8,
    )
}

fn blend_on_white(c: u8, a: u8) -> (v: u8)
    ensures
        v == on_white(c as int, a as int),
{
    assert(0 <= c * a <= 255 * a) by (nonlinear_arith)
        requires
            0 <= c <= 255,
            0 <= a <= 255,
    ;
    ((2 * (c as u32 * a as u32 + 255 * (255 - a as u32)) + 255) / 510) as u8
}

/// Lay a picture on white, for a format without an alpha channel. Dropping
/// alpha instead would leave black fringes.
pub fn flatten_on_white(image: &RgbaImage) -> (rgb: Vec<u8>)
    requires
        image.wf(),
    ensures
        rgb@ == flattened(image.data@, image.width * image.height),
{
    let total: usize = image.data.len();
    let pixels: usize = total / 4;
    assert(pixels == image.width * image.height);
    let mut rgb: Vec<u8> = Vec::new();
    let mut n: usize = 0;
    let ghost all = flattened(image.data@, pixels as int);
    while n < pixels
        invariant
            n <= pixels,
            total == image.data@.len(),
            total == 4 * pixels,
            all == flattened(image.data@, pixels as int),
            rgb@ =~= all.take(3 * n as int),
        decreases pixels - n,
    {
        let at: usize = 4 * n;
        let a: u8 = image.data[at + 3];
        rgb.push(blend_on_white(image.data[at], a));
        rgb.push(blend_on_white(image.data[at + 1], a));
        rgb.push(blend_on_white(image.data[at + 2], a));
        proof {
            assert((3 * n) / 3 == n && (3 * n + 1) / 3 == n && (3 * n + 2) / 3 == n);
            assert((3 * n) % 3 == 0 && (3 * n + 1) % 3 == 1 && (3 * n + 2) % 3 == 2);
        }
        n = n + 1;
    }
    assert(rgb@ =~= all);
    rgb
}

/// An opaque colour stays as it is on white, and a clear one turns white.
pub proof fn law_flattening_keeps_opaque_colours(c: u8)
    ensures
        on_white(c as int, 255) == c,
        on_white(c as int, 0) == 255,
{
}

/// A picture is rows of pixels, four bytes each, the rows one after another.
pub proof fn law_pictures_are_rows_of_pixels(image: RgbaImage, x: int, y: int, c: int)
    requires
        0 <= c < 4,
    ensures
        image.at(x, y).len() == 4,
        image.at(x, y)[c] == image.data@[4 * (y * image.width + x) + c],
        image.has(x, y) <==> 0 <= x && x < image.width && 0 <= y && y < image.height,
        image.wf() <==> image.data@.len() == 4 * (image.width * image.height),
        image.blank() <==> image.width == 0 || image.height == 0,
        image.area().left == 0 && image.area().top == 0,
        image.area().right == image.width && image.area().bottom == image.height,
{
    let w = image.width as int;
    let h = image.height as int;
    assert(w * h * 4 == 4 * (w * h)) by (nonlinear_arith);
}

/// Cropping keeps the columns and the rows that the picture and the rectangle
/// share. Where they share no column although the rectangle starts on the
/// picture, it keeps the one where the rectangle starts; and likewise for rows.
/// Every byte of the result is the picture's at the same place.
pub proof fn law_cropping_copies_bytes(
    base: RgbaImage,
    rect: Rect,
    cut: RgbaImage,
    x: int,
    y: int,
    c: int,
)
    requires
        is_part(cut, base, crop_area(base.area(), rect)),
        rect.left <= rect.right,
        rect.top <= rect.bottom,
        0 <= c < 4,
    ensures
        ({
            let left = if rect.left < 0 {
                0
            } else {
                rect.left as int
            };
            let top = if rect.top < 0 {
                0
            } else {
                rect.top as int
            };
            let right = if rect.right > base.width {
                base.width as int
            } else {
                rect.right as int
            };
            let bottom = if rect.bottom > base.height {
                base.height as int
            } else {
                rect.bottom as int
            };
            &&& left >= base.width ==> cut.width == 0
            &&& left < base.width && left < right ==> cut.width == right - left
            &&& left < base.width && left >= right ==> cut.width == 1
            &&& top >= base.height ==> cut.height == 0
            &&& top < base.height && top < bottom ==> cut.height == bottom - top
            &&& top < base.height && top >= bottom ==> cut.height == 1
            &&& 0 <= x < cut.width && 0 <= y < cut.height ==> cut.data@[4 * (y * cut.width + x) + c]
                == base.data@[4 * ((top + y) * base.width + left + x) + c]
        }),
{
    if 0 <= x < cut.width && 0 <= y < cut.height {
        let r = crop_area(base.area(), rect);
        assert(cut.has(x, y));
        assert(cut.at(x, y) == base.at(r.left + x, r.top + y));
        law_pictures_are_rows_of_pixels(cut, x, y, c);
        law_pictures_are_rows_of_pixels(base, r.left + x, r.top + y, c);
    }
}

/// Which corners a rectangle names does not matter for what is cropped.
pub proof fn law_cropping_ignores_the_order_of_corners(bounds: Rect, rect: Rect)
    ensures
        crop_area(bounds, rect) == crop_area(
            bounds,
            Rect { left: rect.right, right: rect.left, ..rect },
        ),
        crop_area(bounds, rect) == crop_area(
            bounds,
            Rect { top: rect.bottom, bottom: rect.top, ..rect },
        ),
{
}

/// Flattening keeps the order of pixels and colours, and mixes every colour with
/// white by its pixel's alpha, to the nearest byte.
pub proof fn law_flattening_mixes_with_white(data: Seq<u8>, pixels: int, n: int, c: int)
    requires
        0 <= n < pixels,
        0 <= c < 3,
    ensures
        flattened(data, pixels).len() == 3 * pixels,
        ({
            let colour = data[4 * n + c];
            let alpha = data[4 * n + 3];
            let mixed = flattened(data, pixels)[3 * n + c];
            -127 <= colour * alpha + 255 * (255 - alpha) - 255 * mixed <= 127
        }),
{
    let i = 3 * n + c;
    assert(i / 3 == n && i % 3 == c);
    let colour = data[4 * n + c];
    let alpha = data[4 * n + 3];
    assert(0 <= colour * alpha <= 255 * alpha) by (nonlinear_arith)
        requires
            0 <= colour <= 255,
            0 <= alpha <= 255,
    ;
}

/// A picture of a frame has the frame's size and bytes. There is none exactly
/// where the frame has fewer bytes than its size needs, and then the message
/// says how many it has.
pub proof fn law_frames_become_pictures_unchanged(
    result: Result<RgbaImage, String>,
    frame: RawFrame,
    i: int,
)
    requires
        is_converted(result, frame),
        0 <= i < 4 * (frame.width * frame.height),
    ensures
        result is Ok <==> 4 * (frame.width * frame.height) <= frame.data@.len(),
        result matches Ok(p) ==> {
            &&& p.width == frame.width
            &&& p.height == frame.height
            &&& p.data@.len() == 4 * (frame.width * frame.height)
            &&& p.data@[i] == frame.data@[i]
        },
        result matches Err(e) ==> e@.subrange(
            29,
            29 + crate::text::decimal_text(frame.data@.len()).len() as int,
        ) == crate::text::decimal_text(frame.data@.len()),
{
    assert(frame.width * frame.height * 4 == 4 * (frame.width * frame.height));
    reveal_strlit("the capture backend returned ");
    if let Err(e) = result {
        let n = crate::text::decimal_text(frame.data@.len());
        assert(e@.subrange(29, 29 + n.len() as int) =~= n);
    }
}

} // verus!
