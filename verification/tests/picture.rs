use bettershot::capture::{acquire, file_image, primary_monitor_target, stdin_image, target_for, wants_cursor, CaptureMode};
use bettershot::codec::{extension, SaveFormat};
use bettershot::cursor::CursorImage;
use bettershot::frame::RawFrame;
use bettershot::geometry::{Rect, Vec2D};
use bettershot::monitor::{MonitorId, MonitorInfo};
use bettershot::output::encode;
use bettershot::picture::{crop_image, flatten_on_white, frame_to_image, non_empty, RgbaImage};
use bettershot::single::ScaleFactor;
use bettershot::target::{Capabilities, CaptureTarget};
use bettershot::window::{WindowId, WindowInfo};

fn scale(factor: f32) -> ScaleFactor {
    ScaleFactor { bits: factor.to_bits() }
}

fn solid(width: u32, height: u32) -> RgbaImage {
    RgbaImage::from_pixel(width, height, [10, 20, 30, 255]).unwrap()
}

#[test]
fn an_empty_image_is_rejected() {
    assert!(non_empty(solid(0, 0)).is_err());
    assert!(non_empty(solid(10, 0)).is_err());
    assert!(non_empty(solid(1, 1)).is_ok());
}

#[test]
fn a_frame_with_a_mismatched_buffer_is_reported_not_silently_accepted() {
    let frame = RawFrame {
        width: 10,
        height: 10,
        data: vec![0; 10 * 10 * 4 - 4],
        origin: Vec2D::new(0, 0),
        scale_factor: scale(1.0),
    };
    let err = frame_to_image(frame).unwrap_err();
    assert!(err.contains("396"), "{err}");
    assert!(err.contains("10×10"), "{err}");
}

#[test]
fn a_well_formed_frame_converts() {
    let frame = RawFrame {
        width: 4,
        height: 3,
        data: vec![7; 4 * 3 * 4],
        origin: Vec2D::new(-1920, 0),
        scale_factor: scale(2.0),
    };
    let image = frame_to_image(frame).expect("should convert");
    assert_eq!((image.width, image.height), (4, 3));
    assert_eq!(image.get_pixel(0, 0), Some([7, 7, 7, 7]));
}

#[test]
fn cropping_the_backing_image_clamps_to_its_bounds() {
    let base = solid(100, 100);
    let out = crop_image(&base, Rect::from_xywh(-50, -50, 120, 120));
    assert_eq!((out.width, out.height), (70, 70));

    let out = crop_image(&base, Rect::from_xywh(90, 90, 100, 100));
    assert_eq!((out.width, out.height), (10, 10));
}

#[test]
fn cropping_to_nothing_still_yields_a_valid_image() {
    let base = solid(100, 100);
    let out = crop_image(&base, Rect::from_xywh(0, 0, 0, 0));
    assert!(out.width >= 1 && out.height >= 1, "must not be empty");
}

#[test]
fn a_crop_keeps_the_pixels_under_the_rectangle() {
    let data: Vec<u8> = (0..4 * 4 * 4).map(|i| i as u8).collect();
    let base = RgbaImage::from_raw(4, 4, data).unwrap();
    let out = crop_image(&base, Rect::from_xywh(3, 3, -2, -2));
    assert_eq!((out.width, out.height), (2, 2));
    assert_eq!(out.get_pixel(0, 0), base.get_pixel(1, 1));
    assert_eq!(out.get_pixel(1, 1), base.get_pixel(2, 2));
    assert_eq!(out.get_pixel(2, 0), None);
}

#[test]
fn raw_bytes_make_a_picture_only_when_they_suffice() {
    assert!(RgbaImage::from_raw(2, 2, vec![0; 15]).is_none());
    assert_eq!(RgbaImage::from_raw(2, 2, vec![0; 16]).unwrap().data.len(), 16);
}

#[test]
fn flattening_composites_alpha_onto_white() {
    let img = RgbaImage::from_pixel(1, 1, [0, 0, 0, 128]).unwrap();
    let flat = flatten_on_white(&img);
    let v = flat[0];
    assert!((126..=129).contains(&v), "expected mid grey, got {v}");
}

#[test]
fn flattening_leaves_opaque_colours_and_whitens_clear_ones() {
    let img = RgbaImage::from_raw(2, 1, vec![9, 99, 199, 255, 9, 99, 199, 0]).unwrap();
    assert_eq!(flatten_on_white(&img), [9, 99, 199, 255, 255, 255]);
}

fn monitor(id: u64, primary: bool) -> MonitorInfo {
    MonitorInfo::new(
        MonitorId::new(id),
        &format!("DP-{id}"),
        Rect::from_xywh(0, 0, 100, 100),
        1.0f32.to_bits(),
        primary,
    )
}

#[test]
fn the_monitor_mode_prefers_the_primary_monitor() {
    let both = [monitor(1, false), monitor(2, true)];
    assert_eq!(primary_monitor_target(Some(&both)), CaptureTarget::Monitor(MonitorId::new(2)));
    let one = [monitor(7, false)];
    assert_eq!(
        target_for(CaptureMode::Monitor, Some(&one)),
        CaptureTarget::Monitor(MonitorId::new(7))
    );
    assert_eq!(primary_monitor_target(Some(&[])), CaptureTarget::FullDesktop);
    assert_eq!(primary_monitor_target(None), CaptureTarget::FullDesktop);
    assert_eq!(target_for(CaptureMode::Region, Some(&both)), CaptureTarget::FullDesktop);
}

fn frame() -> RawFrame {
    RawFrame::filled(4, 4, [0, 0, 0, 255], Vec2D::new(-10, 5), 1.0f32.to_bits()).unwrap()
}

fn a_window() -> WindowInfo {
    WindowInfo::new(WindowId::new(1), "w", "app", Rect::from_xywh(0, 0, 2, 2), false, 0)
}

#[test]
fn a_region_capture_keeps_the_windows_to_snap_to() {
    let a = acquire(CaptureMode::Region, true, frame(), None, Some(vec![a_window()]), Vec::new())
        .unwrap();
    assert!(a.needs_selection);
    assert_eq!(a.windows.len(), 1);
    assert_eq!(a.origin, Vec2D::new(-10, 5));
    let a = acquire(CaptureMode::Region, false, frame(), None, Some(vec![a_window()]), Vec::new())
        .unwrap();
    assert!(a.windows.is_empty());
    let a = acquire(CaptureMode::Window, false, frame(), None, Some(vec![a_window()]), Vec::new())
        .unwrap();
    assert_eq!(a.windows.len(), 1);
    let a = acquire(CaptureMode::All, true, frame(), None, None, Vec::new()).unwrap();
    assert!(!a.needs_selection && a.windows.is_empty());
}

#[test]
fn the_cursor_is_blended_into_a_capture() {
    let cursor = CursorImage {
        width: 1,
        height: 1,
        data: vec![255, 255, 255, 255],
        position: Vec2D::new(-9, 6),
    };
    let a = acquire(CaptureMode::All, false, frame(), Some(&cursor), None, Vec::new()).unwrap();
    assert_eq!(a.image.get_pixel(1, 1), Some([255, 255, 255, 255]));
    assert_eq!(a.image.get_pixel(0, 0), Some([0, 0, 0, 255]));
}

#[test]
fn an_empty_frame_is_no_capture() {
    let blank = RawFrame::filled(0, 4, [0; 4], Vec2D::new(0, 0), 1.0f32.to_bits()).unwrap();
    let e = acquire(CaptureMode::All, false, blank, None, None, Vec::new()).unwrap_err();
    assert_eq!(e, "the image is empty");
}

#[test]
fn standard_input_is_decoded_or_explained() {
    assert_eq!(stdin_image(&[]).unwrap_err(), "no image data arrived on stdin");
    let e = stdin_image(b"this is not a picture").unwrap_err();
    assert!(e.starts_with("decoding the image from stdin: "), "{e}");
    let mut png = std::io::Cursor::new(Vec::new());
    image::write_buffer_with_format(
        &mut png,
        &[1, 2, 3, 4, 5, 6, 7, 8],
        2,
        1,
        image::ExtendedColorType::Rgba8,
        image::ImageFormat::Png,
    )
    .unwrap();
    let image = stdin_image(png.get_ref()).unwrap();
    assert_eq!((image.width, image.height), (2, 1));
    assert_eq!(image.data, [1, 2, 3, 4, 5, 6, 7, 8]);
}

#[test]
fn flattening_rounds_like_single_precision_arithmetic() {
    let mut data = Vec::new();
    for alpha in 0..=255u8 {
        for colour in 0..=255u8 {
            data.extend([colour, colour, colour, alpha]);
        }
    }
    let flat = flatten_on_white(&RgbaImage::from_raw(256, 256, data).unwrap());
    for alpha in 0..=255u8 {
        for colour in 0..=255u8 {
            let a = alpha as f32 / 255.0;
            let expected = (colour as f32 * a + 255.0 * (1.0 - a)).round() as u8;
            let at = (alpha as usize * 256 + colour as usize) * 3;
            assert_eq!(flat[at], expected, "colour {colour} at alpha {alpha}");
        }
    }
}

#[test]
fn the_cursor_is_wanted_only_where_it_can_be_had() {
    let able = Capabilities::full();
    let unable = Capabilities::none();
    assert!(wants_cursor(true, &able));
    assert!(!wants_cursor(true, &unable));
    assert!(!wants_cursor(false, &able));
}

#[test]
fn a_buffer_too_short_for_its_frame_is_reported() {
    let frame = |len: usize| RawFrame {
        width: 2,
        height: 1,
        data: vec![7; len],
        origin: Vec2D::new(0, 0),
        scale_factor: ScaleFactor { bits: 0 },
    };
    let cursor = CursorImage {
        width: 1,
        height: 1,
        data: vec![1, 2, 3, 255],
        position: Vec2D::new(1, 0),
    };
    let e = acquire(CaptureMode::All, false, frame(7), Some(&cursor), None, Vec::new()).unwrap_err();
    assert_eq!(e, "the capture backend returned 7 bytes for a 2×1 frame");
    let a = acquire(CaptureMode::All, false, frame(9), Some(&cursor), None, Vec::new()).unwrap();
    assert_eq!(a.image.data, vec![7, 7, 7, 7, 1, 2, 3, 255]);
}

#[test]
fn a_file_is_read_as_what_its_name_says() {
    let image = RgbaImage::from_pixel(2, 1, [1, 2, 3, 255]).unwrap();
    let png = encode(&image, SaveFormat::Png).unwrap();
    assert_eq!(file_image(&png, "shot.PNG").unwrap().data, image.data);
    assert!(file_image(&png, "shot.jpg").is_err(), "the name counts, not the contents");
    assert_eq!(
        file_image(&png, "shot.xyz").unwrap_err(),
        "The file extension `.\"xyz\"` was not recognized as an image format"
    );
    for name in ["shot", "shot.", ".png", ""] {
        assert_eq!(
            file_image(&png, name).unwrap_err(),
            "The image format could not be determined",
            "{name}"
        );
    }
}

#[test]
fn the_extension_follows_the_last_dot_of_the_last_component() {
    assert_eq!(extension("/tmp/a.b/shot.tar.gz"), Some("gz"));
    assert_eq!(extension("/tmp/a.b/shot"), None);
    assert_eq!(extension("/tmp/.png"), None);
    assert_eq!(extension("/tmp/shot."), None);
    assert_eq!(extension("/tmp/.."), None);
    assert_eq!(extension("/tmp/..png"), Some("png"));
    assert_eq!(extension("shots\\.png"), Some("png"));
    assert_eq!(extension("/tmp/"), None);
}
