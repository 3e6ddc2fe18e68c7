use bettershot::cursor::{composite_cursor, CursorImage};
use bettershot::error::CaptureError;
use bettershot::frame::RawFrame;
use bettershot::geometry::Vec2D;
use bettershot::x11::{cursor_from_xfixes, decode_text};

fn vec2(x: f32, y: f32) -> Vec2D {
    Vec2D::new(x as i64, y as i64)
}
fn filled(
    w: u32,
    h: u32,
    rgba: [u8; 4],
    origin: Vec2D,
    scale: f32,
) -> Result<RawFrame, CaptureError> {
    RawFrame::filled(w, h, rgba, origin, scale.to_bits())
}

fn sample_reply() -> Result<Option<CursorImage>, CaptureError> {
    cursor_from_xfixes(50, 60, 2, 2, 1, 1, &[0xffff_0000; 4])
}

#[test]
fn the_reply_position_is_the_hotspot_not_the_bitmap_corner() {
    let cursor = sample_reply().unwrap().unwrap();
    assert_eq!(cursor.position, vec2(49.0, 59.0));
}

#[test]
fn a_cursor_drawn_from_a_reply_lands_on_its_hotspot() {
    let cursor = sample_reply().unwrap().unwrap();
    let mut frame = filled(100, 100, [0, 0, 0, 255], vec2(0.0, 0.0), 1.0).unwrap();
    composite_cursor(&mut frame, &cursor);
    assert_eq!(frame.pixel(50, 60), Some([255, 0, 0, 255]), "the hotspot");
    assert_eq!(frame.pixel(49, 59), Some([255, 0, 0, 255]), "top-left");
    assert_eq!(frame.pixel(51, 61), Some([0, 0, 0, 255]));
}

#[test]
fn a_hidden_cursor_is_reported_as_a_zero_sized_image() {
    assert!(cursor_from_xfixes(0, 0, 0, 0, 0, 0, &[]).unwrap().is_none());
}

#[test]
fn a_negative_cursor_position_is_kept() {
    let cursor = cursor_from_xfixes(-30, -12, 1, 1, 0, 0, &[0xffff_ffff])
        .unwrap()
        .unwrap();
    assert_eq!(cursor.position, vec2(-30.0, -12.0));
}

#[test]
fn a_truncated_cursor_reply_is_an_error_not_a_panic() {
    assert!(cursor_from_xfixes(0, 0, 8, 8, 0, 0, &[0; 2]).is_err());
}

#[test]
fn utf8_titles_decode_as_utf8() {
    let bytes = "Café — Firefox".as_bytes();
    assert_eq!(decode_text(bytes, true), "Café — Firefox");
}

#[test]
fn legacy_latin1_titles_are_not_mangled_into_replacement_characters() {
    let bytes = [b'C', b'a', b'f', 0xE9];
    assert_eq!(decode_text(&bytes, false), "Café");
    assert_eq!(String::from_utf8_lossy(&bytes), "Caf\u{fffd}");
}

#[test]
fn every_latin1_byte_maps_to_its_own_code_point() {
    let all: Vec<u8> = (0..=255).collect();
    let decoded = decode_text(&all, false);
    assert_eq!(decoded.chars().count(), 256);
    assert!(
        decoded
            .chars()
            .enumerate()
            .all(|(i, c)| c as u32 == i as u32)
    );
}

#[test]
fn malformed_utf8_degrades_rather_than_failing_the_enumeration() {
    assert_eq!(decode_text(&[b'a', 0xFF, b'b'], true), "a\u{fffd}b");
}

#[test]
fn ascii_decodes_identically_under_either_type() {
    let bytes = b"kitty";
    assert_eq!(decode_text(bytes, true), decode_text(bytes, false));
}
