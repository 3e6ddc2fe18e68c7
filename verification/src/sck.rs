//! ScreenCaptureKit: the decisions of a backend that asks macOS for displays,
//! windows and pixels.
//!
//! Every question to the system is asked elsewhere; what it answered comes in
//! as plain data.

use crate::error::CaptureError;
use crate::grabs::{plan_grabs, GrabPlan};
use crate::macos::{
    bgra_rows_to_rgba, capabilities_for, classify_sc_error, ensure_bgra8, ensure_capture_supported,
    force_opaque_for, stale_permission, timed_out, too_old, windows_front_to_back, WindowRecord,
    MIN_SCREEN_CAPTURE_KIT, NAME,
};
use crate::monitor::{MonitorInfo, VirtualDesktop};
use crate::target::{Capabilities, CaptureTarget};
use crate::text::joined;
use crate::window::WindowInfo;
use vstd::prelude::*;
use vstd::string::*;

verus! {

/// macOS screen capture through ScreenCaptureKit.
#[derive(Debug, Clone, Copy, PartialEq, Eq, Structural)]
pub struct MacOsBackend {
    /// Whether the one-shot screenshot API exists. Enumeration works on older
    /// releases, so the backend degrades to "can list, cannot grab".
    pub can_screenshot: bool,
}

impl MacOsBackend {
    /// Build the backend, or explain why ScreenCaptureKit is unusable here. The
    /// classes that this process finds are the only version check there is.
    pub fn new(has_shareable_content: bool, has_screenshot_manager: bool) -> (result: Result<
        MacOsBackend,
        CaptureError,
    >)
        ensures
            match result {
                Ok(backend) => has_shareable_content && backend.can_screenshot
                    == has_screenshot_manager,
                Err(e) => !has_shareable_content && e is Unsupported && e.detail()
                    == crate::macos::too_old_text("ScreenCaptureKit"@, MIN_SCREEN_CAPTURE_KIT@),
            },
    {
        if !has_shareable_content {
            return Err(too_old("ScreenCaptureKit", MIN_SCREEN_CAPTURE_KIT));
        }
        Ok(MacOsBackend { can_screenshot: has_screenshot_manager })
    }

    /// The backend's identifier.
    pub fn name(&self) -> (name: &'static str)
        ensures
            name@ == NAME@,
    {
        NAME
    }

    /// What the backend can do.
    pub fn capabilities(&self) -> (c: Capabilities)
        ensures
            c.full_desktop == self.can_screenshot,
            c.monitor == self.can_screenshot,
            c.window == self.can_screenshot,
            c.region == self.can_screenshot,
            c.monitor_enumeration && c.window_enumeration && c.may_prompt_for_permission,
            !c.interactive_only && !c.cursor,
    {
        capabilities_for(self.can_screenshot)
    }

    /// What is grabbed for `target`: that the system is too old comes before
    /// anything that is wrong with the target.
    pub fn plan_capture(&self, target: CaptureTarget, snapshot: &Snapshot) -> (plan: Result<
        GrabPlan,
        CaptureError,
    >)
        ensures
            if self.can_screenshot {
                crate::grabs::is_grab_plan(plan, target, snapshot.desktop@, snapshot.windows@)
            } else {
                plan matches Err(e) && e is Unsupported && e.detail()
                    == crate::macos::too_old_text(
                    "SCScreenshotManager"@,
                    crate::macos::MIN_SCREENSHOT_MANAGER@,
                )
            },
    {
        match ensure_capture_supported(self.can_screenshot, &target) {
            Ok(_) => plan_grabs(target, &snapshot.desktop, snapshot.windows.as_slice()),
            Err(e) => Err(e),
        }
    }
}

/// A single consistent view of the displays and windows, so that a capture never
/// mixes geometry from two enumerations.
#[derive(Debug)]
pub struct Snapshot {
    /// The displays.
    pub desktop: VirtualDesktop,
    /// The windows, frontmost first.
    pub windows: Vec<WindowInfo>,
}

impl Snapshot {
    /// What was enumerated. Without a single display, the permission was granted
    /// after this process started.
    pub fn from_content(monitors: Vec<MonitorInfo>, records: &[WindowRecord]) -> (result: Result<
        Snapshot,
        CaptureError,
    >)
        requires
            records@.len() <= u32::MAX,
        ensures
            match result {
                Ok(snapshot) => {
                    &&& monitors@.len() > 0
                    &&& snapshot.desktop@ == monitors@
                    &&& exists|order: Seq<int>| #[trigger]
                        crate::window::is_stacking(order, crate::macos::layers(records@))
                            && snapshot.windows@.len() == order.len() && forall|k: int|
                            0 <= k < order.len() ==> crate::macos::is_record(
                                #[trigger] snapshot.windows@[k],
                                records@[order[k]],
                                k,
                            )
                },
                Err(e) => monitors@.len() == 0 && e is PermissionDenied && e.detail()
                    == crate::macos::stale_text(),
            },
    {
        if monitors.len() == 0 {
            return Err(stale_permission());
        }
        let windows = windows_front_to_back(records);
        Ok(Snapshot { desktop: VirtualDesktop::new(monitors), windows })
    }
}

/// The display's size in real pixels, or zero by zero when its mode could not be
/// read or makes no sense.
pub fn display_pixel_size(mode: Option<(usize, usize)>) -> (size: (u32, u32))
    ensures
        match mode {
            Some((w, h)) if 0 < w <= u32::MAX && 0 < h <= u32::MAX => size.0 == w && size.1 == h,
            _ => size == (0u32, 0u32),
        },
{
    match mode {
        Some((w, h)) => if w > 0 && h > 0 && w as u64 <= u32::MAX as u64 && h as u64
            <= u32::MAX as u64 {
            (w as u32, h as u32)
        } else {
            (0, 0)
        },
        None => (0, 0),
    }
}

/// The pixels of a grab, tightly packed.
#[derive(Debug)]
pub struct CapturedImage {
    /// Width in pixels.
    pub width: u32,
    /// Height in pixels.
    pub height: u32,
    /// RGBA8, row-major.
    pub rgba: Vec<u8>,
}

/// How an image is laid out.
#[derive(Debug, Clone, Copy, PartialEq, Eq, Structural)]
pub struct ImageLayout {
    /// Width in pixels.
    pub width: usize,
    /// Height in pixels.
    pub height: usize,
    /// Bytes from one row to the next.
    pub bytes_per_row: usize,
    /// Bits of a pixel.
    pub bits_per_pixel: usize,
    /// The order of the bytes of a pixel.
    pub byte_order: u32,
    /// What the fourth byte means.
    pub alpha_info: u32,
}

/// The pixels behind an image, or why they cannot be read.
#[derive(Debug)]
pub enum ImagePixels {
    /// The image has no data provider.
    NoProvider,
    /// The data provider gave nothing.
    Unreadable,
    /// The buffer's length is negative.
    NegativeLength,
    /// The buffer is null.
    NullBuffer,
    /// The bytes of the buffer.
    Bytes(Vec<u8>),
}

/// What the image with the given layout and pixels decodes to.
pub open spec fn is_decoded(
    result: Result<CapturedImage, CaptureError>,
    layout: ImageLayout,
    pixels: ImagePixels,
) -> bool {
    if layout.bits_per_pixel != 32 || layout.byte_order != crate::macos::BYTE_ORDER_32_LITTLE {
        result matches Err(e) && crate::macos::is_not_bgra8(
            e,
            layout.bits_per_pixel,
            layout.byte_order,
        )
    } else if layout.width > u32::MAX {
        result matches Err(e) && crate::frame::is_invalid(e, "captured image is wider than u32"@)
    } else if layout.height > u32::MAX {
        result matches Err(e) && crate::frame::is_invalid(e, "captured image is taller than u32"@)
    } else {
        match pixels {
            ImagePixels::NoProvider => result matches Err(e) && e is Backend && e.detail()
                == "the captured CGImage has no data provider"@,
            ImagePixels::Unreadable => result matches Err(e) && e is Backend && e.detail()
                == "the captured CGImage's pixels could not be read"@,
            ImagePixels::NegativeLength => result matches Err(e) && crate::frame::is_invalid(
                e,
                "captured image length is negative"@,
            ),
            ImagePixels::NullBuffer => result matches Err(e) && e is Backend && e.detail()
                == "the captured CGImage's pixel buffer is null"@,
            ImagePixels::Bytes(bytes) => exists|unpacked: Result<Vec<u8>, CaptureError>|
                #[trigger] crate::macos::is_unpacked(
                    unpacked,
                    bytes@,
                    layout.width as u32,
                    layout.height as u32,
                    layout.bytes_per_row,
                    crate::macos::forces_opaque(layout.alpha_info),
                ) && match unpacked {
                    Ok(rgba) => result matches Ok(image) && image.width == layout.width
                        && image.height == layout.height && image.rgba == rgba,
                    Err(e) => result == Err::<CapturedImage, CaptureError>(e),
                },
        }
    }
}

/// Copy an image's pixels out as tightly packed RGBA8.
pub fn decode_image(layout: ImageLayout, pixels: &ImagePixels) -> (result: Result<
    CapturedImage,
    CaptureError,
>)
    ensures
        is_decoded(result, layout, *pixels),
{
    match ensure_bgra8(layout.bits_per_pixel, layout.byte_order) {
        Ok(_) => {},
        Err(e) => {
            return Err(e);
        },
    }
    if layout.width as u64 > u32::MAX as u64 {
        return Err(CaptureError::invalid_frame("captured image is wider than u32"));
    }
    if layout.height as u64 > u32::MAX as u64 {
        return Err(CaptureError::invalid_frame("captured image is taller than u32"));
    }
    let width: u32 = layout.width as u32;
    let height: u32 = layout.height as u32;
    match pixels {
        ImagePixels::NoProvider => Err(
            CaptureError::backend("the captured CGImage has no data provider"),
        ),
        ImagePixels::Unreadable => Err(
            CaptureError::backend("the captured CGImage's pixels could not be read"),
        ),
        ImagePixels::NegativeLength => Err(
            CaptureError::invalid_frame("captured image length is negative"),
        ),
        ImagePixels::NullBuffer => Err(
            CaptureError::backend("the captured CGImage's pixel buffer is null"),
        ),
        ImagePixels::Bytes(bytes) => {
            let unpacked = bgra_rows_to_rgba(
                bytes.as_slice(),
                width,
                height,
                layout.bytes_per_row,
                force_opaque_for(layout.alpha_info),
            );
            assert(crate::macos::is_unpacked(
                unpacked,
                bytes@,
                width,
                height,
                layout.bytes_per_row,
                crate::macos::forces_opaque(layout.alpha_info),
            ));
            match unpacked {
                Ok(rgba) => Ok(CapturedImage { width, height, rgba }),
                Err(e) => Err(e),
            }
        },
    }
}

/// An error as ScreenCaptureKit reports it.
#[derive(Debug)]
pub struct SystemError {
    /// The domain that the code belongs to.
    pub domain: String,
    /// The code.
    pub code: i64,
    /// What the system says of it.
    pub message: String,
}

/// Turn what a completion handler receives into a result: an error counts
/// before an image.
pub fn decode_result(error: Option<SystemError>, image: Option<(ImageLayout, ImagePixels)>) -> (result:
    Result<CapturedImage, CaptureError>)
    ensures
        match error {
            Some(reported) => result matches Err(e) && crate::macos::is_sc_error(
                e,
                reported.domain@,
                reported.code,
                reported.message@,
            ),
            None => match image {
                Some((layout, pixels)) => is_decoded(result, layout, pixels),
                None => result matches Err(e) && e is Backend && e.detail()
                    == "ScreenCaptureKit returned neither image nor error"@,
            },
        },
{
    match error {
        Some(reported) => Err(
            classify_sc_error(
                reported.domain.as_str(),
                reported.code,
                reported.message.as_str(),
            ),
        ),
        None => match image {
            Some((layout, pixels)) => decode_image(layout, &pixels),
            None => Err(
                CaptureError::backend("ScreenCaptureKit returned neither image nor error"),
            ),
        },
    }
}

/// Why waiting for a completion handler ended without an answer: the time was
/// up, or the handler was dropped without ever being called.
pub fn unanswered(in_time: bool, operation: &str, waited_secs: u64) -> (e: CaptureError)
    ensures
        e is Backend,
        e.detail() == (if in_time {
            "ScreenCaptureKit dropped its completion handler while "@ + operation@
        } else {
            crate::macos::timed_out_text(operation@, waited_secs)
        }),
{
    if in_time {
        return CaptureError::Backend(
            joined("ScreenCaptureKit dropped its completion handler while ", operation),
        );
    }
    timed_out(operation, waited_secs)
}

/// A grab is decoded in place: rows are as far apart as the layout says, pixels
/// four bytes apart and blue first, and the fourth byte shows only where it is an
/// alpha. An image that is no 32-bit little-endian one is refused.
pub proof fn law_grabs_are_decoded_in_place(
    result: Result<CapturedImage, CaptureError>,
    layout: ImageLayout,
    bytes: Vec<u8>,
    x: int,
    y: int,
)
    requires
        is_decoded(result, layout, ImagePixels::Bytes(bytes)),
        result is Ok,
        0 <= x < layout.width,
        0 <= y < layout.height,
        4 * layout.width <= usize::MAX,
    ensures
        layout.bits_per_pixel == 32,
        layout.byte_order == 0x2000,
        ({
            let image = result->Ok_0;
            let from = y * layout.bytes_per_row + 4 * x;
            let to = 4 * (y * layout.width + x);
            let padding = layout.alpha_info == 0 || layout.alpha_info == 5 || layout.alpha_info
                == 6;
            &&& image.width == layout.width
            &&& image.height == layout.height
            &&& image.rgba@.len() == 4 * (layout.width * layout.height)
            &&& image.rgba@[to] == bytes@[from + 2]
            &&& image.rgba@[to + 1] == bytes@[from + 1]
            &&& image.rgba@[to + 2] == bytes@[from]
            &&& image.rgba@[to + 3] == (if padding {
                255u8
            } else {
                bytes@[from + 3]
            })
        }),
{
    let unpacked = choose|unpacked: Result<Vec<u8>, CaptureError>|
        #[trigger] crate::macos::is_unpacked(
            unpacked,
            bytes@,
            layout.width as u32,
            layout.height as u32,
            layout.bytes_per_row,
            crate::macos::forces_opaque(layout.alpha_info),
        ) && match unpacked {
            Ok(rgba) => result matches Ok(image) && image.width == layout.width && image.height
                == layout.height && image.rgba == rgba,
            Err(e) => result == Err::<CapturedImage, CaptureError>(e),
        };
    crate::macos::law_padded_rows_unpack_in_place(
        unpacked,
        bytes@,
        layout.width as u32,
        layout.height as u32,
        layout.bytes_per_row,
        crate::macos::forces_opaque(layout.alpha_info),
        x,
        y,
    );
}

} // verus!
