//! macOS: the platform-independent half of a ScreenCaptureKit backend.
//!
//! Nothing here touches Objective-C: an adapter turns Apple's types into the
//! plain data these functions take. ScreenCaptureKit reports points with a
//! top-left origin; what reaches this module is in physical pixels already.

use crate::error::CaptureError;
use crate::frame::{lemma_pixel_number, lemma_pixel_position};
use crate::geometry::Rect;
use crate::monitor::{MonitorId, MonitorInfo, VirtualDesktop};
use crate::pixels::bgra_to_rgba;
use crate::single::ScaleFactor;
use crate::target::{Capabilities, CaptureTarget};
use crate::text::{decimal, hexadecimal, joined, same_text, signed_decimal};
use crate::window::{restack, WindowId, WindowInfo};
use vstd::prelude::*;
use vstd::string::*;

verus! {

/// The backend identifier, shared by the real backend and by the placeholder
/// used when ScreenCaptureKit is missing.
pub const NAME: &'static str = "macos-screencapturekit";

/// ScreenCaptureKit itself arrived in this release.
pub const MIN_SCREEN_CAPTURE_KIT: &'static str = "12.3";

/// The one-shot screenshot API arrived in this release.
pub const MIN_SCREENSHOT_MANAGER: &'static str = "14.0";

/// Where the user has to go to grant Screen Recording.
pub const SETTINGS_PATH: &'static str = "System Settings -> Privacy & Security -> Screen & System Audio Recording";

/// The byte order in which a little-endian 32-bit word with alpha in the high
/// byte is B, G, R, A in memory.
pub const BYTE_ORDER_32_LITTLE: u32 = 0x2000;

/// What is said of a refused permission.
pub open spec fn denied_text(context: Seq<char>) -> Seq<char> {
    "macOS has not granted bettershot Screen Recording access ("@ + context
        + "). Enable bettershot under "@ + SETTINGS_PATH@
        + ", then quit and relaunch bettershot -- macOS only hands the permission to a process at launch, so granting it while bettershot is running is not enough."@
}

/// Screen Recording cannot be granted from inside the process, the prompt only
/// ever appears once, and a freshly granted permission does not reach an
/// already-running process.
pub fn permission_denied(context: &str) -> (e: CaptureError)
    ensures
        e is PermissionDenied,
        e.detail() == denied_text(context@),
{
    let mut message = joined(
        "macOS has not granted bettershot Screen Recording access (",
        context,
    );
    message.append("). Enable bettershot under ");
    message.append(SETTINGS_PATH);
    message.append(
        ", then quit and relaunch bettershot -- macOS only hands the permission to a process at launch, so granting it while bettershot is running is not enough.",
    );
    CaptureError::PermissionDenied(message)
}

/// What is said of a permission that came too late.
pub open spec fn stale_text() -> Seq<char> {
    "macOS reports that Screen Recording is allowed, but ScreenCaptureKit returned no displays. That happens when the permission was granted after this process started, or was reset. Quit and relaunch bettershot; if it persists, remove and re-add bettershot under "@
        + SETTINGS_PATH@ + "."@
}

/// The "granted but stale" case: the permission is there, and yet there is
/// nothing to capture. This process started before the permission was granted,
/// and only a relaunch fixes it.
pub fn stale_permission() -> (e: CaptureError)
    ensures
        e is PermissionDenied,
        e.detail() == stale_text(),
{
    let mut message = joined(
        "macOS reports that Screen Recording is allowed, but ScreenCaptureKit returned no displays. That happens when the permission was granted after this process started, or was reset. Quit and relaunch bettershot; if it persists, remove and re-add bettershot under ",
        SETTINGS_PATH,
    );
    message.append(".");
    CaptureError::PermissionDenied(message)
}

/// What is said of a system without `api`.
pub open spec fn too_old_text(api: Seq<char>, min_version: Seq<char>) -> Seq<char> {
    api + " is missing, so this macOS is older than "@ + min_version
        + "; bettershot needs macOS "@ + min_version + " or newer to capture the screen"@
}

/// The API this backend needs is newer than the macOS it is running on.
pub fn too_old(api: &str, min_version: &str) -> (e: CaptureError)
    ensures
        e is Unsupported,
        e.detail() == too_old_text(api@, min_version@),
{
    let mut message = joined(api, " is missing, so this macOS is older than ");
    message.append(min_version);
    message.append("; bettershot needs macOS ");
    message.append(min_version);
    message.append(" or newer to capture the screen");
    CaptureError::Unsupported(message)
}

/// What the backend can do where the screenshot API may be missing: every
/// enumeration, and captures only with it.
pub fn capabilities_for(can_screenshot: bool) -> (c: Capabilities)
    ensures
        c == (Capabilities {
            full_desktop: can_screenshot,
            monitor: can_screenshot,
            window: can_screenshot,
            region: can_screenshot,
            monitor_enumeration: true,
            window_enumeration: true,
            interactive_only: false,
            may_prompt_for_permission: true,
            cursor: false,
        }),
{
    Capabilities {
        full_desktop: can_screenshot,
        monitor: can_screenshot,
        window: can_screenshot,
        region: can_screenshot,
        monitor_enumeration: true,
        window_enumeration: true,
        interactive_only: false,
        may_prompt_for_permission: true,
        cursor: false,
    }
}

/// Refuse a capture that this macOS cannot serve, with the *most specific*
/// reason first: that the system is too old says more than that no kind of
/// target is capturable.
pub fn ensure_capture_supported(can_screenshot: bool, target: &CaptureTarget) -> (result: Result<
    (),
    CaptureError,
>)
    ensures
        match result {
            Ok(_) => can_screenshot,
            Err(e) => !can_screenshot && e is Unsupported && e.detail() == too_old_text(
                "SCScreenshotManager"@,
                MIN_SCREENSHOT_MANAGER@,
            ),
        },
{
    if !can_screenshot {
        return Err(too_old("SCScreenshotManager", MIN_SCREENSHOT_MANAGER));
    }
    capabilities_for(can_screenshot).ensure_supports(NAME, target)
}

/// What is said of a completion handler that never fired.
pub open spec fn timed_out_text(operation: Seq<char>, waited_secs: u64) -> Seq<char> {
    "ScreenCaptureKit did not call back within "@ + crate::text::decimal_text(waited_secs as nat)
        + "s while "@ + operation
        + "; giving up rather than blocking forever. This usually means the Screen Recording permission is in a stale state -- quit and relaunch bettershot, and check "@
        + SETTINGS_PATH@ + "."@
}

/// A completion handler never fired. Returning this beats blocking forever.
pub fn timed_out(operation: &str, waited_secs: u64) -> (e: CaptureError)
    ensures
        e is Backend,
        e.detail() == timed_out_text(operation@, waited_secs),
{
    let mut message = joined(
        "ScreenCaptureKit did not call back within ",
        decimal(waited_secs).as_str(),
    );
    message.append("s while ");
    message.append(operation);
    message.append(
        "; giving up rather than blocking forever. This usually means the Screen Recording permission is in a stale state -- quit and relaunch bettershot, and check ",
    );
    message.append(SETTINGS_PATH);
    message.append(".");
    CaptureError::Backend(message)
}

/// `e` is what an error of the given domain and code means.
pub open spec fn is_sc_error(
    e: CaptureError,
    domain: Seq<char>,
    code: i64,
    message: Seq<char>,
) -> bool {
    if domain != "SCStreamErrorDomain"@ {
        e is Backend && e.detail() == domain + " "@ + crate::text::signed_text(code as int) + ": "@
            + message
    } else if code == -3801 || code == -3803 {
        e is PermissionDenied && e.detail() == denied_text(message)
    } else if code == -3817 {
        e is Cancelled
    } else if -3815 <= code <= -3813 {
        e is PermissionDenied && e.detail() == stale_text()
    } else {
        e is Backend && e.detail() == "ScreenCaptureKit error "@ + crate::text::signed_text(
            code as int,
        ) + ": "@ + message
    }
}

/// Map an error from ScreenCaptureKit onto a [`CaptureError`]. Only its own
/// domain uses these numbers; anything else must not be misread as a denial.
pub fn classify_sc_error(domain: &str, code: i64, message: &str) -> (e: CaptureError)
    ensures
        is_sc_error(e, domain@, code, message@),
{
    if !same_text(domain, "SCStreamErrorDomain") {
        let mut text = joined(domain, " ");
        text.append(signed_decimal(code).as_str());
        text.append(": ");
        text.append(message);
        return CaptureError::Backend(text);
    }
    if code == -3801 || code == -3803 {
        permission_denied(message)
    } else if code == -3817 {
        CaptureError::Cancelled
    } else if -3815 <= code && code <= -3813 {
        stale_permission()
    } else {
        let mut text = joined("ScreenCaptureKit error ", signed_decimal(code).as_str());
        text.append(": ");
        text.append(message);
        CaptureError::Backend(text)
    }
}

/// A window as ScreenCaptureKit describes it, in physical pixels.
#[derive(Debug, Clone, PartialEq, Eq)]
pub struct WindowRecord {
    /// The window's id.
    pub id: u64,
    /// Its title, empty when it has none.
    pub title: String,
    /// The application it belongs to.
    pub app_name: String,
    /// Frame in physical pixels on the virtual desktop.
    pub bounds: Rect,
    /// The window level. Larger is nearer the viewer.
    pub layer: i64,
    /// Whether it has on-screen pixels at the moment.
    pub on_screen: bool,
}

/// The levels of the records.
pub open spec fn layers(records: Seq<WindowRecord>) -> Seq<i64> {
    Seq::new(records.len(), |i: int| records[i].layer)
}

/// `w` describes `record`, at stacking position `z`.
pub open spec fn is_record(w: WindowInfo, record: WindowRecord, z: int) -> bool {
    &&& w.id.0 == record.id
    &&& w.title@ == record.title@
    &&& w.app_name@ == record.app_name@
    &&& w.bounds == record.bounds.in_order()
    &&& w.is_minimized == !record.on_screen
    &&& w.z_order == z
}

/// Turn ScreenCaptureKit's window list into the `0 = frontmost` convention.
///
/// Windows come front-to-back *within* a window level, but the levels
/// themselves are not interleaved into that order. Sorting by descending level
/// and keeping the order inside each level reproduces the on-screen stacking.
///
/// A window without on-screen pixels counts as minimized: it is minimized to
/// the Dock, hidden with its application, or parked on another Space.
pub fn windows_front_to_back(records: &[WindowRecord]) -> (ws: Vec<WindowInfo>)
    requires
        records@.len() <= u32::MAX,
    ensures
        exists|order: Seq<int>| #[trigger]
            crate::window::is_stacking(order, layers(records@)) && ws@.len() == order.len()
                && forall|k: int|
                0 <= k < ws@.len() ==> is_record(#[trigger] ws@[k], records@[order[k]], k),
{
    let mut infos: Vec<WindowInfo> = Vec::new();
    let mut levels: Vec<i64> = Vec::new();
    let mut i: usize = 0;
    while i < records.len()
        invariant
            i <= records@.len(),
            infos@.len() == i,
            levels@ =~= layers(records@).take(i as int),
            forall|k: int| 0 <= k < i ==> is_record(#[trigger] infos@[k], records@[k], 0),
        decreases records.len() - i,
    {
        let r = &records[i];
        infos.push(
            WindowInfo::new(
                WindowId::new(r.id),
                r.title.as_str(),
                r.app_name.as_str(),
                r.bounds,
                !r.on_screen,
                0,
            ),
        );
        levels.push(r.layer);
        i = i + 1;
    }
    assert(levels@ =~= layers(records@));
    let ws = restack(infos.as_slice(), levels.as_slice());
    proof {
        let order = choose|order: Seq<int>| #[trigger]
            crate::window::is_stacking(order, levels@) && ws@.len() == order.len()
                && forall|k: int|
                0 <= k < ws@.len() ==> crate::window::is_restacked(
                    #[trigger] ws@[k],
                    infos@[order[k]],
                    k,
                );
        assert(crate::window::is_stacking(order, layers(records@)));
        assert forall|k: int| 0 <= k < ws@.len() implies is_record(
            #[trigger] ws@[k],
            records@[order[k]],
            k,
        ) by {
            assert(0 <= order[k] < levels@.len());
            assert(is_record(infos@[order[k]], records@[order[k]], 0));
        }
    }
    ws
}

/// The ids of the monitors whose pixels overlap `bounds`.
pub open spec fn covering(ms: Seq<MonitorInfo>, bounds: Rect) -> Seq<MonitorId>
    decreases ms.len(),
{
    if ms.len() == 0 {
        seq![]
    } else if ms.last().bounds.within(bounds).empty() {
        covering(ms.drop_last(), bounds)
    } else {
        covering(ms.drop_last(), bounds).push(ms.last().id)
    }
}

/// The monitors whose pixels overlap `bounds`, in enumeration order. A capture
/// across monitors is assembled from one grab of each.
pub fn monitors_covering(desktop: &VirtualDesktop, bounds: Rect) -> (ids: Vec<MonitorId>)
    ensures
        ids@ == covering(desktop@, bounds),
{
    let ms = desktop.monitors();
    let mut ids: Vec<MonitorId> = Vec::new();
    let mut i: usize = 0;
    while i < ms.len()
        invariant
            i <= ms@.len(),
            ids@ == covering(ms@.take(i as int), bounds),
        decreases ms.len() - i,
    {
        assert(ms@.take(i + 1).drop_last() =~= ms@.take(i as int));
        if !ms[i].bounds.clamped_to(bounds).is_empty() {
            ids.push(ms[i].id);
        }
        i = i + 1;
    }
    assert(ms@.take(i as int) =~= ms@);
    ids
}

/// Every monitor that owns a pixel of `bounds` is among the covering ones.
pub proof fn law_covering_monitors_are_complete(
    ms: Seq<MonitorInfo>,
    bounds: Rect,
    i: int,
    x: int,
    y: int,
)
    requires
        0 <= i < ms.len(),
        ms[i].bounds.owns(x, y),
        bounds.owns(x, y),
    ensures
        covering(ms, bounds).contains(ms[i].id),
    decreases ms.len(),
{
    let rest = covering(ms.drop_last(), bounds);
    if i == ms.len() - 1 {
        crate::geometry::law_clipping_intersects(ms[i].bounds, bounds, x, y);
        assert(covering(ms, bounds)[rest.len() as int] == ms[i].id);
    } else {
        law_covering_monitors_are_complete(ms.drop_last(), bounds, i, x, y);
        let k = choose|k: int| 0 <= k < rest.len() && rest[k] == ms[i].id;
        assert(covering(ms, bounds)[k] == ms[i].id);
    }
}

/// No alpha, or an alpha that is to be skipped last or first.
pub open spec fn forces_opaque(alpha_info: u32) -> bool {
    alpha_info == 0 || alpha_info == 5 || alpha_info == 6
}

/// Whether an image's fourth byte is padding whose contents are undefined.
pub fn force_opaque_for(alpha_info: u32) -> (yes: bool)
    ensures
        yes == forces_opaque(alpha_info),
{
    alpha_info == 0 || alpha_info == 5 || alpha_info == 6
}

/// The BGRA pixel in column `x` of row `y`, where rows are `stride` bytes apart.
pub open spec fn row_pixel(data: Seq<u8>, stride: int, x: int, y: int) -> Seq<u8> {
    let at = y * stride + 4 * x;
    seq![data[at], data[at + 1], data[at + 2], data[at + 3]]
}

/// The bytes that an image of padded rows needs at least: only the last row may
/// lack its padding.
pub open spec fn needed_bytes(width: u32, height: u32, stride: int) -> int {
    stride * (height - 1) + 4 * width
}

/// What is wrong with `got` bytes for an image of padded rows that has pixels.
pub open spec fn rows_text(width: u32, height: u32, stride: int, got: nat) -> Seq<char> {
    if stride < 4 * width {
        "CGImage claims "@ + crate::text::decimal_text(stride as nat)
            + " bytes per row, which is less than the "@ + crate::text::decimal_text(
            (4 * width) as nat,
        ) + " bytes "@ + crate::text::decimal_text(width as nat) + " BGRA pixels need"@
    } else if needed_bytes(width, height, stride) > usize::MAX {
        "CGImage does not fit in memory"@
    } else {
        "CGImage is "@ + crate::text::decimal_text(got) + " bytes, expected at least "@
            + crate::text::decimal_text(needed_bytes(width, height, stride) as nat) + " for "@
            + crate::frame::dimensions_text(width, height) + " at "@ + crate::text::decimal_text(
            stride as nat,
        ) + " bytes per row"@
    }
}

/// What BGRA8 pixels in padded rows unpack into.
pub open spec fn is_unpacked(
    result: Result<Vec<u8>, CaptureError>,
    data: Seq<u8>,
    width: u32,
    height: u32,
    bytes_per_row: usize,
    force_opaque: bool,
) -> bool {
    match result {
        Ok(rgba) => {
            &&& width > 0 && height > 0
            &&& bytes_per_row >= 4 * width
            &&& data.len() >= needed_bytes(width, height, bytes_per_row as int)
            &&& rgba@.len() == crate::frame::byte_len(width, height)
            &&& forall|x: int, y: int|
                0 <= x < width && 0 <= y < height ==> crate::frame::nth_pixel(
                    rgba@,
                    #[trigger] (y * width + x),
                ) == crate::pixels::swapped(
                    row_pixel(data, bytes_per_row as int, x, y),
                    force_opaque,
                )
        },
        Err(e) => if 4 * width > usize::MAX {
            crate::frame::is_invalid(e, "CGImage row does not fit in memory"@)
        } else if width == 0 || height == 0 {
            e is EmptyRegion
        } else {
            &&& bytes_per_row < 4 * width || data.len() < needed_bytes(
                width,
                height,
                bytes_per_row as int,
            )
            &&& crate::frame::is_invalid(
                e,
                rows_text(width, height, bytes_per_row as int, data.len()),
            )
        },
    }
}

/// Unpack BGRA8 pixels in padded rows into tightly packed RGBA8.
///
/// `bytes_per_row` is essentially always *larger* than `width * 4`: scanlines
/// are padded out to a cache-line or tile boundary, and reading the buffer as
/// if it were tightly packed produces a diagonally skewed screenshot.
pub fn bgra_rows_to_rgba(
    data: &[u8],
    width: u32,
    height: u32,
    bytes_per_row: usize,
    force_opaque: bool,
) -> (result: Result<Vec<u8>, CaptureError>)
    ensures
        is_unpacked(result, data@, width, height, bytes_per_row, force_opaque),
{
    let row: u64 = width as u64 * 4;
    if row > usize::MAX as u64 {
        return Err(CaptureError::invalid_frame("CGImage row does not fit in memory"));
    }
    if width == 0 || height == 0 {
        return Err(CaptureError::EmptyRegion);
    }
    let row_bytes: usize = row as usize;
    if bytes_per_row < row_bytes {
        let mut message = joined("CGImage claims ", decimal(bytes_per_row as u64).as_str());
        message.append(" bytes per row, which is less than the ");
        message.append(decimal(row).as_str());
        message.append(" bytes ");
        message.append(decimal(width as u64).as_str());
        message.append(" BGRA pixels need");
        return Err(CaptureError::InvalidFrame(message));
    }
    let held: usize = data.len();
    assert(bytes_per_row * (height - 1) <= usize::MAX * 0xffff_ffff) by (nonlinear_arith)
        requires
            bytes_per_row <= usize::MAX,
            0 <= height - 1 <= 0xffff_ffff,
    ;
    let needed: u128 = bytes_per_row as u128 * (height as u128 - 1) + row as u128;
    if needed > usize::MAX as u128 {
        return Err(CaptureError::invalid_frame("CGImage does not fit in memory"));
    }
    if (held as u128) < needed {
        let mut message = joined("CGImage is ", decimal(held as u64).as_str());
        message.append(" bytes, expected at least ");
        message.append(decimal(needed as u64).as_str());
        message.append(" for ");
        message.append(decimal(width as u64).as_str());
        message.append("x");
        message.append(decimal(height as u64).as_str());
        message.append(" at ");
        message.append(decimal(bytes_per_row as u64).as_str());
        message.append(" bytes per row");
        assert(message@ =~= rows_text(width, height, bytes_per_row as int, data@.len()));
        return Err(CaptureError::InvalidFrame(message));
    }
    let mut out: Vec<u8> = Vec::new();
    let pixels: u64 = crate::geometry::PixelRect::new(0, 0, width, height).pixel_count();
    let w: u64 = width as u64;
    let mut n: u64 = 0;
    while n < pixels
        invariant
            n <= pixels,
            pixels == width * height,
            w == width,
            width > 0,
            bytes_per_row >= 4 * width,
            held == data@.len(),
            held >= needed_bytes(width, height, bytes_per_row as int),
            out@.len() == 4 * n,
            forall|q: int|
                0 <= q < n ==> #[trigger] crate::frame::nth_pixel(out@, q) == row_pixel(
                    data@,
                    bytes_per_row as int,
                    q % w as int,
                    q / w as int,
                ),
        decreases pixels - n,
    {
        proof {
            lemma_pixel_position(w as int, height as int, n as int);
            lemma_row_fits(
                bytes_per_row as int,
                height as int,
                n as int / w as int,
            );
        }
        let x: usize = (n % w) as usize;
        let y: usize = (n / w) as usize;
        let at: usize = y * bytes_per_row + 4 * x;
        let ghost before = out@;
        out.push(data[at]);
        out.push(data[at + 1]);
        out.push(data[at + 2]);
        out.push(data[at + 3]);
        proof {
            assert forall|q: int| 0 <= q < n + 1 implies #[trigger] crate::frame::nth_pixel(out@, q)
                == row_pixel(data@, bytes_per_row as int, q % w as int, q / w as int) by {
                if q < n {
                    assert(crate::frame::nth_pixel(out@, q) =~= crate::frame::nth_pixel(before, q));
                } else {
                    assert(crate::frame::nth_pixel(out@, q) =~= row_pixel(
                        data@,
                        bytes_per_row as int,
                        x as int,
                        y as int,
                    ));
                }
            }
        }
        n = n + 1;
    }
    let ghost packed = out@;
    match bgra_to_rgba(&mut out, force_opaque) {
        Ok(_) => {
            proof {
                assert forall|x: int, y: int| 0 <= x < width && 0 <= y < height implies
                    crate::frame::nth_pixel(out@, #[trigger] (y * width + x))
                    == crate::pixels::swapped(
                    row_pixel(data@, bytes_per_row as int, x, y),
                    force_opaque,
                ) by {
                    lemma_pixel_number(width as int, height as int, x, y);
                    assert(crate::frame::nth_pixel(packed, y * width + x) == row_pixel(
                        data@,
                        bytes_per_row as int,
                        x,
                        y,
                    ));
                }
            }
            Ok(out)
        },
        Err(e) => Err(e),
    }
}

/// Every row begins inside the rows above the last one.
proof fn lemma_row_fits(stride: int, height: int, y: int)
    requires
        0 <= stride,
        0 <= y < height,
    ensures
        0 <= y * stride <= stride * (height - 1),
{
    assert(0 <= y * stride <= stride * (height - 1)) by (nonlinear_arith)
        requires
            0 <= stride,
            0 <= y < height,
    ;
}

/// Build a [`MonitorInfo`] from what the system reports of a display.
///
/// `scaled` is the display's frame, scaled from points to physical pixels. The
/// *origin* has to come from there, but the *size* does not: `pixel_size` is the
/// real framebuffer and is used verbatim, unless it could not be read and is
/// zero.
pub fn monitor_from_display(
    display_id: u32,
    name: &str,
    scaled: Rect,
    pixel_size: (u32, u32),
    scale_bits: u32,
    is_primary: bool,
) -> (m: MonitorInfo)
    ensures
        m.wf(),
        m.id.0 == display_id,
        m.name@ == name@,
        m.is_primary == is_primary,
        m.scale_factor == ScaleFactor::sanitized(scale_bits),
        m.bounds == ({
            let r = scaled.in_order();
            if pixel_size.0 > 0 && pixel_size.1 > 0 {
                Rect {
                    left: r.left,
                    top: r.top,
                    right: crate::geometry::clip_i64(r.left + pixel_size.0) as i64,
                    bottom: crate::geometry::clip_i64(r.top + pixel_size.1) as i64,
                }
            } else {
                r
            }
        }),
{
    let mut bounds = scaled.normalized();
    if pixel_size.0 > 0 && pixel_size.1 > 0 {
        bounds = Rect::from_xywh(
            bounds.left,
            bounds.top,
            pixel_size.0 as i64,
            pixel_size.1 as i64,
        );
    }
    MonitorInfo::new(MonitorId::new(display_id as u64), name, bounds, scale_bits, is_primary)
}

/// What [`byte_order_name`] gives.
pub open spec fn byte_order_text(byte_order: u32) -> Seq<char> {
    let value = "0x"@ + crate::text::hex_text(byte_order as nat);
    if byte_order == 0 {
        "kCGImageByteOrderDefault ("@ + value + ")"@
    } else if byte_order == 0x1000 {
        "kCGImageByteOrder16Little ("@ + value + ")"@
    } else if byte_order == 0x2000 {
        "kCGImageByteOrder32Little ("@ + value + ")"@
    } else if byte_order == 0x3000 {
        "kCGImageByteOrder16Big ("@ + value + ")"@
    } else if byte_order == 0x4000 {
        "kCGImageByteOrder32Big ("@ + value + ")"@
    } else {
        value
    }
}

/// Spell a byte order the way Apple's headers do, so that an error names
/// something the reader can look up.
pub fn byte_order_name(byte_order: u32) -> (name: String)
    ensures
        name@ == byte_order_text(byte_order),
{
    let value = joined("0x", hexadecimal(byte_order).as_str());
    let prefix = if byte_order == 0 {
        "kCGImageByteOrderDefault ("
    } else if byte_order == 0x1000 {
        "kCGImageByteOrder16Little ("
    } else if byte_order == 0x2000 {
        "kCGImageByteOrder32Little ("
    } else if byte_order == 0x3000 {
        "kCGImageByteOrder16Big ("
    } else if byte_order == 0x4000 {
        "kCGImageByteOrder32Big ("
    } else {
        return value;
    };
    let mut name = joined(prefix, value.as_str());
    name.append(")");
    name
}

/// `e` says what keeps an image from being 32-bit BGRA.
pub open spec fn is_not_bgra8(e: CaptureError, bits_per_pixel: usize, byte_order: u32) -> bool {
    e is Unsupported && e.detail() == if bits_per_pixel != 32 {
        "ScreenCaptureKit returned a "@ + crate::text::decimal_text(bits_per_pixel as nat)
            + "-bit image; bettershot only handles 32-bit BGRA"@
    } else {
        "ScreenCaptureKit returned a 32-bit image with byte order "@ + byte_order_text(byte_order)
            + "; bettershot only handles kCGImageByteOrder32Little, the B, G, R, A memory layout ScreenCaptureKit documents for SDR captures. Decoding any other order as BGRA would silently swap the colour channels."@
    }
}

/// Is this image really the 32-bit BGRA that [`bgra_rows_to_rgba`] assumes?
///
/// The depth alone does not answer it: a big-endian word is also 32 bits wide,
/// and would decode to plausible pixels in the wrong colours.
pub fn ensure_bgra8(bits_per_pixel: usize, byte_order: u32) -> (result: Result<(), CaptureError>)
    ensures
        match result {
            Ok(_) => bits_per_pixel == 32 && byte_order == BYTE_ORDER_32_LITTLE,
            Err(e) => (bits_per_pixel != 32 || byte_order != BYTE_ORDER_32_LITTLE) && is_not_bgra8(
                e,
                bits_per_pixel,
                byte_order,
            ),
        },
{
    if bits_per_pixel != 32 {
        let mut message = joined(
            "ScreenCaptureKit returned a ",
            decimal(bits_per_pixel as u64).as_str(),
        );
        message.append("-bit image; bettershot only handles 32-bit BGRA");
        return Err(CaptureError::Unsupported(message));
    }
    if byte_order != BYTE_ORDER_32_LITTLE {
        let mut message = joined(
            "ScreenCaptureKit returned a 32-bit image with byte order ",
            byte_order_name(byte_order).as_str(),
        );
        message.append(
            "; bettershot only handles kCGImageByteOrder32Little, the B, G, R, A memory layout ScreenCaptureKit documents for SDR captures. Decoding any other order as BGRA would silently swap the colour channels.",
        );
        return Err(CaptureError::Unsupported(message));
    }
    Ok(())
}

/// The human-readable name for a display id.
pub fn display_name(display_id: u32, is_primary: bool) -> (name: String)
    ensures
        name@ == (if is_primary {
            "Display "@ + crate::text::decimal_text(display_id as nat) + " (primary)"@
        } else {
            "Display "@ + crate::text::decimal_text(display_id as nat)
        }),
{
    let mut name = joined("Display ", decimal(display_id as u64).as_str());
    if is_primary {
        name.append(" (primary)");
    }
    name
}

/// The permission to record the screen: granted already, or granted when asked
/// for, or refused.
pub fn ensure_permission(already: bool, granted_when_asked: bool) -> (result: Result<
    (),
    CaptureError,
>)
    ensures
        match result {
            Ok(_) => already || granted_when_asked,
            Err(e) => !already && !granted_when_asked && e is PermissionDenied && e.detail()
                == denied_text(
                "CGPreflightScreenCaptureAccess reported no access and the system dialog was declined or had already been answered"@,
            ),
        },
{
    if already || granted_when_asked {
        return Ok(());
    }
    Err(
        permission_denied(
            "CGPreflightScreenCaptureAccess reported no access and the system dialog was declined or had already been answered",
        ),
    )
}

/// ScreenCaptureKit's own numbers mean what they mean in its own domain: two
/// stand for a refused permission, three for one that came too late, one for a
/// user who backed out. Everything else, and everything of another domain, is a
/// failure of the backend.
pub proof fn law_error_codes_mean_what_they_mean(
    e: CaptureError,
    domain: Seq<char>,
    code: i64,
    message: Seq<char>,
)
    requires
        is_sc_error(e, domain, code, message),
    ensures
        domain != "SCStreamErrorDomain"@ ==> e is Backend,
        domain == "SCStreamErrorDomain"@ ==> {
            &&& e is PermissionDenied <==> code == -3801 || code == -3803 || code == -3813 || code
                == -3814 || code == -3815
            &&& e is Cancelled <==> code == -3817
            &&& e is Backend || e is PermissionDenied || e is Cancelled
        },
{
}

/// Windows come from the highest level down, those on one level as they were
/// listed, and each carries over what was recorded of it. A window without
/// pixels on the screen counts as minimised.
pub proof fn law_window_records_carry_over(records: Seq<WindowRecord>, ws: Seq<WindowInfo>) -> (order:
    Seq<int>)
    requires
        exists|order: Seq<int>| #[trigger]
            crate::window::is_stacking(order, layers(records)) && ws.len() == order.len()
                && forall|k: int|
                0 <= k < ws.len() ==> is_record(#[trigger] ws[k], records[order[k]], k),
    ensures
        order.len() == ws.len(),
        ws.len() == records.len(),
        forall|k: int|
            #![trigger order[k]]
            0 <= k < ws.len() ==> {
                let of = records[order[k]];
                &&& 0 <= order[k] < records.len()
                &&& ws[k].z_order == k
                &&& ws[k].id.0 == of.id
                &&& ws[k].title@ == of.title@
                &&& ws[k].app_name@ == of.app_name@
                &&& ws[k].is_minimized == !of.on_screen
                &&& of.bounds.left <= of.bounds.right && of.bounds.top <= of.bounds.bottom
                    ==> ws[k].bounds == of.bounds
            },
        forall|i: int, j: int|
            0 <= i < j < order.len() ==> {
                let a = #[trigger] order[i];
                let b = #[trigger] order[j];
                &&& records[a].layer >= records[b].layer
                &&& records[a].layer == records[b].layer ==> a < b
            },
        forall|i: int| 0 <= i < records.len() ==> #[trigger] order.contains(i),
{
    let order = choose|order: Seq<int>| #[trigger]
        crate::window::is_stacking(order, layers(records)) && ws.len() == order.len() && forall|
            k: int,
        |
            0 <= k < ws.len() ==> is_record(#[trigger] ws[k], records[order[k]], k);
    assert forall|k: int| #![trigger order[k]] 0 <= k < ws.len() implies {
        let of = records[order[k]];
        &&& 0 <= order[k] < records.len()
        &&& ws[k].z_order == k
        &&& ws[k].id.0 == of.id
        &&& ws[k].title@ == of.title@
        &&& ws[k].app_name@ == of.app_name@
        &&& ws[k].is_minimized == !of.on_screen
        &&& of.bounds.left <= of.bounds.right && of.bounds.top <= of.bounds.bottom ==> ws[k].bounds
            == of.bounds
    } by {
        assert(is_record(ws[k], records[order[k]], k));
    }
    assert forall|i: int, j: int| 0 <= i < j < order.len() implies {
        let a = #[trigger] order[i];
        let b = #[trigger] order[j];
        &&& records[a].layer >= records[b].layer
        &&& records[a].layer == records[b].layer ==> a < b
    } by {
        assert(crate::window::is_above(layers(records), order[i], order[j]));
        assert(layers(records)[order[i]] == records[order[i]].layer);
        assert(layers(records)[order[j]] == records[order[j]].layer);
    }
    assert forall|i: int| 0 <= i < records.len() implies #[trigger] order.contains(i) by {
        assert(0 <= i < layers(records).len());
    }
    order
}

/// The monitors that cover an area are those that overlap it, in their order.
/// Sharing an edge is not enough.
pub proof fn law_covering_monitors_overlap(ms: Seq<MonitorInfo>, bounds: Rect) -> (picked: Seq<int>)
    ensures
        picked.len() == covering(ms, bounds).len(),
        forall|j: int, k: int|
            0 <= j < k < picked.len() ==> #[trigger] picked[j] < #[trigger] picked[k],
        forall|k: int|
            #![trigger picked[k]]
            0 <= k < picked.len() ==> 0 <= picked[k] < ms.len() && covering(ms, bounds)[k]
                == ms[picked[k]].id,
        forall|i: int|
            #![trigger ms[i]]
            0 <= i < ms.len() && ms[i].bounds.left < ms[i].bounds.right && ms[i].bounds.top
                < ms[i].bounds.bottom && bounds.left < bounds.right && bounds.top < bounds.bottom
                ==> (picked.contains(i) <==> ms[i].bounds.left < bounds.right && bounds.left
                < ms[i].bounds.right && ms[i].bounds.top < bounds.bottom && bounds.top
                < ms[i].bounds.bottom),
    decreases ms.len(),
{
    if ms.len() == 0 {
        Seq::empty()
    } else {
        let rest = ms.drop_last();
        let before = law_covering_monitors_overlap(rest, bounds);
        let last = ms.len() - 1;
        let taken = !ms.last().bounds.within(bounds).empty();
        let picked = if taken {
            before.push(last)
        } else {
            before
        };
        assert forall|k: int| #![trigger picked[k]] 0 <= k < picked.len() implies 0 <= picked[k]
            < ms.len() && covering(ms, bounds)[k] == ms[picked[k]].id by {
            if k < before.len() {
                assert(picked[k] == before[k]);
                assert(rest[before[k]] == ms[before[k]]);
            }
        }
        assert forall|i: int|
            #![trigger ms[i]]
            0 <= i < ms.len() && ms[i].bounds.left < ms[i].bounds.right && ms[i].bounds.top
                < ms[i].bounds.bottom && bounds.left < bounds.right && bounds.top
                < bounds.bottom implies (picked.contains(i) <==> ms[i].bounds.left < bounds.right
            && bounds.left < ms[i].bounds.right && ms[i].bounds.top < bounds.bottom && bounds.top
            < ms[i].bounds.bottom) by {
            if i < last {
                assert(rest[i] == ms[i]);
                if before.contains(i) {
                    let k = choose|k: int| 0 <= k < before.len() && before[k] == i;
                    assert(picked[k] == i);
                }
                if picked.contains(i) {
                    let k = choose|k: int| 0 <= k < picked.len() && picked[k] == i;
                    assert(before[k] == i);
                }
            } else {
                if taken {
                    assert(picked[before.len() as int] == last);
                } else if picked.contains(i) {
                    let k = choose|k: int| 0 <= k < picked.len() && picked[k] == i;
                    assert(0 <= before[k] < rest.len());
                }
            }
        }
        picked
    }
}

/// Rows are `bytes_per_row` apart, pixels four bytes apart, blue first; and the
/// last row need not be padded. The image is refused exactly when it has no
/// pixels, or a row is longer than that, or the bytes run out.
pub proof fn law_padded_rows_unpack_in_place(
    result: Result<Vec<u8>, CaptureError>,
    data: Seq<u8>,
    width: u32,
    height: u32,
    bytes_per_row: usize,
    force_opaque: bool,
    x: int,
    y: int,
)
    requires
        is_unpacked(result, data, width, height, bytes_per_row, force_opaque),
        4 * width <= usize::MAX,
        0 <= x < width,
        0 <= y < height,
    ensures
        result is Ok <==> bytes_per_row >= 4 * width && data.len() >= bytes_per_row * (height - 1)
            + 4 * width,
        result matches Ok(rgba) ==> {
            let from = y * bytes_per_row + 4 * x;
            let to = 4 * (y * width + x);
            &&& rgba@.len() == 4 * (width * height)
            &&& rgba@[to] == data[from + 2]
            &&& rgba@[to + 1] == data[from + 1]
            &&& rgba@[to + 2] == data[from]
            &&& rgba@[to + 3] == (if force_opaque {
                255u8
            } else {
                data[from + 3]
            })
        },
        result matches Err(e) ==> e is InvalidFrame,
{
    if let Ok(rgba) = result {
        let n = y * width + x;
        assert(width * height * 4 == 4 * (width * height));
        assert(crate::frame::nth_pixel(rgba@, n) == crate::pixels::swapped(
            row_pixel(data, bytes_per_row as int, x, y),
            force_opaque,
        ));
        let px = crate::frame::nth_pixel(rgba@, n);
        assert(px[0] == rgba@[4 * n] && px[1] == rgba@[4 * n + 1] && px[2] == rgba@[4 * n + 2]
            && px[3] == rgba@[4 * n + 3]);
    }
}

/// The fourth byte is padding when there is no alpha, or when it is to be
/// skipped, on either side.
pub proof fn law_padding_has_no_alpha(alpha_info: u32)
    ensures
        forces_opaque(alpha_info) <==> alpha_info == 0 || alpha_info == 5 || alpha_info == 6,
{
}

/// The message on an image in another layout says how many bits its pixels have,
/// and, where that is not what is wrong, the order of its bytes.
pub proof fn law_layout_messages_give_what_was_returned(
    e: CaptureError,
    bits_per_pixel: usize,
    byte_order: u32,
)
    requires
        is_not_bgra8(e, bits_per_pixel, byte_order),
    ensures
        e is Unsupported,
        ({
            let bits = crate::text::decimal_text(bits_per_pixel as nat);
            let n = 28 + bits.len() as int;
            &&& e.detail().subrange(28, n) == bits
            &&& e.detail().subrange(n, n + 10) == "-bit image"@
            &&& bits_per_pixel == 32 ==> e.detail().subrange(
                57,
                57 + byte_order_text(byte_order).len() as int,
            ) == byte_order_text(byte_order)
        }),
{
    reveal_strlit("ScreenCaptureKit returned a ");
    reveal_strlit("-bit image; bettershot only handles 32-bit BGRA");
    reveal_strlit("ScreenCaptureKit returned a 32-bit image with byte order ");
    reveal_strlit("-bit image");
    let bits = crate::text::decimal_text(bits_per_pixel as nat);
    let text = e.detail();
    let n = 28 + bits.len() as int;
    if bits_per_pixel == 32 {
        reveal_with_fuel(crate::text::decimal_text, 3);
        assert(bits =~= seq!['3', '2']);
    }
    assert(text.subrange(28, n) =~= bits);
    assert(text.subrange(n, n + 10) =~= "-bit image"@);
    if bits_per_pixel == 32 {
        assert(text.subrange(57, 57 + byte_order_text(byte_order).len() as int)
            =~= byte_order_text(byte_order));
    }
}

/// A byte order is shown with its number, after its name where it has one.
pub proof fn law_byte_orders_show_their_number(byte_order: u32)
    ensures
        ({
            let text = byte_order_text(byte_order);
            let number = "0x"@ + crate::text::hex_text(byte_order as nat);
            let named = byte_order <= 0x4000 && byte_order % 0x1000 == 0;
            let end = text.len() - 1;
            &&& !named ==> text == number
            &&& named ==> text.subrange(end - number.len(), end) == number && text[end] == ')'
            &&& byte_order == 0 ==> text.subrange(0, 24) == "kCGImageByteOrderDefault"@
            &&& byte_order == 0x1000 ==> text.subrange(0, 25) == "kCGImageByteOrder16Little"@
            &&& byte_order == 0x2000 ==> text.subrange(0, 25) == "kCGImageByteOrder32Little"@
            &&& byte_order == 0x3000 ==> text.subrange(0, 22) == "kCGImageByteOrder16Big"@
            &&& byte_order == 0x4000 ==> text.subrange(0, 22) == "kCGImageByteOrder32Big"@
        }),
{
    reveal_strlit(")");
    reveal_strlit("kCGImageByteOrderDefault (");
    reveal_strlit("kCGImageByteOrder16Little (");
    reveal_strlit("kCGImageByteOrder32Little (");
    reveal_strlit("kCGImageByteOrder16Big (");
    reveal_strlit("kCGImageByteOrder32Big (");
    reveal_strlit("kCGImageByteOrderDefault");
    reveal_strlit("kCGImageByteOrder16Little");
    reveal_strlit("kCGImageByteOrder32Little");
    reveal_strlit("kCGImageByteOrder16Big");
    reveal_strlit("kCGImageByteOrder32Big");
    let text = byte_order_text(byte_order);
    let number = "0x"@ + crate::text::hex_text(byte_order as nat);
    let end = text.len() - 1;
    if byte_order <= 0x4000 && byte_order % 0x1000 == 0 {
        assert(text.subrange(end - number.len(), end) =~= number);
        assert(byte_order == 0 ==> text.subrange(0, 24) =~= "kCGImageByteOrderDefault"@);
        assert(byte_order == 0x1000 ==> text.subrange(0, 25) =~= "kCGImageByteOrder16Little"@);
        assert(byte_order == 0x2000 ==> text.subrange(0, 25) =~= "kCGImageByteOrder32Little"@);
        assert(byte_order == 0x3000 ==> text.subrange(0, 22) =~= "kCGImageByteOrder16Big"@);
        assert(byte_order == 0x4000 ==> text.subrange(0, 22) =~= "kCGImageByteOrder32Big"@);
    }
}

/// The message on rows that do not fit gives the length of a row where it is too
/// short, and else the length of the image.
pub proof fn law_row_messages_give_what_is_wrong(width: u32, height: u32, stride: int, got: nat)
    requires
        stride >= 0,
        height > 0,
    ensures
        ({
            let text = rows_text(width, height, stride, got);
            let s = crate::text::decimal_text(stride as nat);
            let g = crate::text::decimal_text(got);
            let n = crate::text::decimal_text((stride * (height - 1) + 4 * width) as nat);
            &&& stride < 4 * width ==> text.subrange(15, 15 + s.len() as int) == s
            &&& stride >= 4 * width && stride * (height - 1) + 4 * width <= usize::MAX ==> {
                &&& text.subrange(11, 11 + g.len() as int) == g
                &&& text.subrange(11 + g.len() as int, 36 + g.len() as int)
                    == " bytes, expected at least"@
                &&& text.subrange(37 + g.len() as int, 37 + (g.len() + n.len()) as int) == n
            }
        }),
{
    reveal_strlit("CGImage claims ");
    reveal_strlit("CGImage is ");
    reveal_strlit(" bytes, expected at least ");
    reveal_strlit(" bytes, expected at least");
    let text = rows_text(width, height, stride, got);
    let s = crate::text::decimal_text(stride as nat);
    let g = crate::text::decimal_text(got);
    let n = crate::text::decimal_text((stride * (height - 1) + 4 * width) as nat);
    if stride < 4 * width {
        assert(text.subrange(15, 15 + s.len() as int) =~= s);
    } else if stride * (height - 1) + 4 * width <= usize::MAX {
        assert(text.subrange(11, 11 + g.len() as int) =~= g);
        assert(text.subrange(11 + g.len() as int, 36 + g.len() as int)
            =~= " bytes, expected at least"@);
        assert(text.subrange(37 + g.len() as int, 37 + (g.len() + n.len()) as int) =~= n);
    }
}

} // verus!
