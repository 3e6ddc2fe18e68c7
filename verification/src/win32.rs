//! Windows: what is grabbed for a target, and what the parts of a system cursor
//! mean.

use crate::cursor::{CursorAnchor, CursorImage};
use crate::error::CaptureError;
use crate::grabs::{plan_grabs, GrabPlan};
use crate::monitor::VirtualDesktop;
use crate::target::CaptureTarget;
use crate::text::joined;
use crate::window::{require, restack, WindowInfo};
use vstd::prelude::*;
use vstd::string::*;

verus! {

/// The backend's identifier.
pub const NAME: &'static str = "windows-graphics-capture";

/// A grab that the system refused.
#[derive(Debug, Clone, PartialEq, Eq)]
pub enum GrabFailure {
    /// The operation is not supported.
    NotSupported,
    /// The region is not acceptable.
    InvalidCaptureRegion(String),
    /// Anything else.
    Other(String),
}

/// Map a refused grab onto a [`CaptureError`].
pub fn map_grab_failure(failure: &GrabFailure) -> (e: CaptureError)
    ensures
        match failure {
            GrabFailure::NotSupported => e is Unsupported && e.detail()
                == "this Windows build does not support the requested capture operation"@,
            GrabFailure::InvalidCaptureRegion(message) => e is InvalidFrame && e.detail()
                == "Windows rejected the capture region: "@ + message@,
            GrabFailure::Other(message) => e is Backend && e.detail() == "Windows capture: "@
                + message@,
        },
{
    match failure {
        GrabFailure::NotSupported => CaptureError::unsupported(
            "this Windows build does not support the requested capture operation",
        ),
        GrabFailure::InvalidCaptureRegion(message) => CaptureError::InvalidFrame(
            joined("Windows rejected the capture region: ", message.as_str()),
        ),
        GrabFailure::Other(message) => CaptureError::Backend(
            joined("Windows capture: ", message.as_str()),
        ),
    }
}

/// The windows, numbered from the front, given the system's own levels, where
/// larger is nearer the viewer.
pub fn windows_front_to_back(windows: &[WindowInfo], levels: &[i64]) -> (out: Vec<WindowInfo>)
    requires
        windows@.len() == levels@.len(),
        windows@.len() <= u32::MAX,
    ensures
        exists|order: Seq<int>| #[trigger]
            crate::window::is_stacking(order, levels@) && out@.len() == order.len()
                && forall|k: int|
                0 <= k < out@.len() ==> crate::window::is_restacked(
                    #[trigger] out@[k],
                    windows@[order[k]],
                    k,
                ),
{
    restack(windows, levels)
}

/// What is grabbed for `target`: a window that does not exist is refused before
/// anything else is looked at.
pub fn plan_capture(target: CaptureTarget, desktop: &VirtualDesktop, windows: &[WindowInfo]) -> (plan:
    Result<GrabPlan, CaptureError>)
    ensures
        match target {
            CaptureTarget::Window(id) if crate::window::no_window(windows@, id) => plan == Err::<
                GrabPlan,
                CaptureError,
            >(CaptureError::NoSuchWindow(id)),
            _ => crate::grabs::is_grab_plan(plan, target, desktop@, windows@),
        },
{
    match target {
        CaptureTarget::Window(id) => match require(windows, id) {
            Ok(_) => plan_grabs(target, desktop, windows),
            Err(e) => Err(e),
        },
        _ => plan_grabs(target, desktop, windows),
    }
}

/// The bytes of a row of a 1-bit bitmap: rows are padded to a multiple of four
/// bytes.
pub fn mask_stride(width: u32) -> (stride: usize)
    ensures
        stride == (width as int + 31) / 32 * 4,
        stride * 8 >= width,
        stride % 4 == 0,
{
    ((width as u64 + 31) / 32 * 4) as usize
}

/// How large a cursor is, and how its bitmaps are to be read.
#[derive(Debug, Clone, Copy, PartialEq, Eq, Structural)]
pub struct CursorShape {
    /// Width in pixels.
    pub width: u32,
    /// Height in pixels.
    pub height: u32,
    /// Rows of the mask: twice the height without a colour bitmap.
    pub mask_rows: u32,
    /// Whether there is a colour bitmap.
    pub has_color: bool,
}

/// What the dimensions of a cursor's bitmaps mean.
pub open spec fn is_shape(
    result: Result<CursorShape, CaptureError>,
    mask: (i32, i32),
    color: Option<(i32, i32)>,
) -> bool {
    match color {
        Some((width, height)) => if width < 0 {
            result matches Err(e) && crate::frame::is_invalid(e, "cursor has a negative width"@)
        } else if height < 0 {
            result matches Err(e) && crate::frame::is_invalid(e, "cursor has a negative height"@)
        } else {
            result matches Ok(s) && s.width == width && s.height == height && s.mask_rows == height
                && s.has_color
        },
        None => if mask.1 < 0 {
            result matches Err(e) && crate::frame::is_invalid(
                e,
                "cursor mask has a negative height"@,
            )
        } else if mask.0 < 0 {
            result matches Err(e) && crate::frame::is_invalid(
                e,
                "cursor mask has a negative width"@,
            )
        } else {
            result matches Ok(s) && s.width == mask.0 && s.height == mask.1 as int / 2
                && s.mask_rows == mask.1 as int / 2 * 2 && !s.has_color
        },
    }
}

/// Work out a cursor's shape from the dimensions (width and height) of its mask
/// and of its colour bitmap. Without a colour bitmap the mask holds the AND rows
/// followed by the XOR rows, so it is twice the cursor's height.
pub fn cursor_shape(mask: (i32, i32), color: Option<(i32, i32)>) -> (result: Result<
    CursorShape,
    CaptureError,
>)
    ensures
        is_shape(result, mask, color),
{
    match color {
        Some((width, height)) => {
            if width < 0 {
                return Err(CaptureError::invalid_frame("cursor has a negative width"));
            }
            if height < 0 {
                return Err(CaptureError::invalid_frame("cursor has a negative height"));
            }
            Ok(
                CursorShape {
                    width: width as u32,
                    height: height as u32,
                    mask_rows: height as u32,
                    has_color: true,
                },
            )
        },
        None => {
            if mask.1 < 0 {
                return Err(CaptureError::invalid_frame("cursor mask has a negative height"));
            }
            if mask.0 < 0 {
                return Err(CaptureError::invalid_frame("cursor mask has a negative width"));
            }
            let height: u32 = mask.1 as u32 / 2;
            Ok(
                CursorShape {
                    width: mask.0 as u32,
                    height,
                    mask_rows: height * 2,
                    has_color: false,
                },
            )
        },
    }
}

/// Why a cursor of the given shape does not decode.
pub open spec fn is_cursor_error(
    e: CaptureError,
    shape: CursorShape,
    color_len: nat,
    mask_len: nat,
    stride: usize,
) -> bool {
    let rows = if shape.has_color {
        shape.height as int
    } else {
        shape.height * 2
    };
    if shape.has_color && color_len != crate::frame::byte_len(shape.width, shape.height) {
        crate::frame::is_invalid(
            e,
            crate::cursor::cursor_length_text(shape.width, shape.height, color_len),
        )
    } else if shape.width == 0 || shape.height == 0 {
        e is EmptyRegion
    } else if !crate::cursor::mask_suffices(shape.width, mask_len, stride, rows) {
        crate::frame::is_invalid(e, crate::cursor::mask_text(shape.width, mask_len, stride, rows))
    } else {
        crate::frame::is_invalid(e, "cursor does not fit in memory"@)
    }
}

/// Decode a cursor of the given shape: its colour bitmap (empty without one) and
/// its mask, whose rows are `stride` bytes long.
pub fn decode_cursor(
    shape: CursorShape,
    bgra: &[u8],
    mask: &[u8],
    stride: usize,
    anchor: CursorAnchor,
) -> (result: Result<CursorImage, CaptureError>)
    ensures
        result matches Ok(c) ==> {
            &&& c.wf()
            &&& c.width == shape.width
            &&& c.height == shape.height
            &&& c.position == anchor.corner()
            &&& shape.has_color ==> forall|x: int, y: int|
                c.has(x, y) ==> #[trigger] c.at(x, y) == crate::cursor::premultiplied(
                    crate::cursor::of_bgra(
                        crate::frame::nth_pixel(bgra@, y * shape.width + x),
                        crate::cursor::without_alpha(bgra@, shape.width * shape.height),
                        crate::cursor::mask_bit_at(mask@, stride as int, x, y),
                    ),
                )
            &&& !shape.has_color ==> forall|x: int, y: int|
                c.has(x, y) ==> #[trigger] c.at(x, y) == crate::cursor::of_mask_bits(
                    crate::cursor::mask_bit_at(mask@, stride as int, x, y),
                    crate::cursor::mask_bit_at(mask@, stride as int, x, y + shape.height),
                )
        },
        result is Ok <==> {
            &&& shape.width > 0 && shape.height > 0
            &&& crate::frame::byte_len(shape.width, shape.height) <= usize::MAX
            &&& shape.has_color ==> bgra@.len() == crate::frame::byte_len(
                shape.width,
                shape.height,
            ) && crate::cursor::mask_suffices(
                shape.width,
                mask@.len(),
                stride,
                shape.height as int,
            )
            &&& !shape.has_color ==> crate::cursor::mask_suffices(
                shape.width,
                mask@.len(),
                stride,
                shape.height * 2,
            )
        },
        result matches Err(e) ==> is_cursor_error(
            e,
            shape,
            bgra@.len(),
            mask@.len(),
            stride,
        ),
{
    assert(bgra@.len() == bgra.len());
    if shape.has_color {
        CursorImage::from_win32_color(shape.width, shape.height, bgra, mask, stride, anchor)
    } else {
        CursorImage::from_win32_monochrome(shape.width, shape.height, mask, stride, anchor)
    }
}

/// A cursor with a colour bitmap is as large as that. One without is as wide as
/// its mask and half as high, and its mask has two rows for each of its own. No
/// extent below zero is accepted.
pub proof fn law_cursor_shapes_follow_their_bitmaps(
    result: Result<CursorShape, CaptureError>,
    mask: (i32, i32),
    color: Option<(i32, i32)>,
)
    requires
        is_shape(result, mask, color),
    ensures
        color matches Some((width, height)) ==> {
            &&& result is Ok <==> width >= 0 && height >= 0
            &&& result matches Ok(s) ==> s.width == width && s.height == height && s.mask_rows
                == height && s.has_color
        },
        color is None ==> {
            &&& result is Ok <==> mask.0 >= 0 && mask.1 >= 0
            &&& result matches Ok(s) ==> s.width == mask.0 && 2 * s.height <= mask.1 <= 2 * s.height
                + 1 && s.mask_rows == 2 * s.height && !s.has_color
        },
        result matches Err(e) ==> e is InvalidFrame,
{
}

} // verus!
