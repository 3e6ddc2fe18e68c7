use bettershot::error::CaptureError;
use bettershot::pixels::{bgra_to_rgba, channel, zpixmap_to_rgba, ZPixmapFormat};

#[test]
fn common_bgrx_pixels_become_rgba() {
    let data = vec![
        0x00, 0x00, 0xff, 0x00,
        0xff, 0x00, 0x00, 0x00,
    ];
    let rgba = zpixmap_to_rgba(&data, 2, 1, ZPixmapFormat::common_bgrx()).unwrap();
    assert_eq!(rgba, vec![255, 0, 0, 255, 0, 0, 255, 255]);
}

#[test]
fn alpha_is_forced_opaque_even_when_the_pad_byte_is_zero() {
    let data = vec![0x10, 0x20, 0x30, 0x00];
    let rgba = zpixmap_to_rgba(&data, 1, 1, ZPixmapFormat::common_bgrx()).unwrap();
    assert_eq!(rgba, vec![0x30, 0x20, 0x10, 255]);
}

#[test]
fn scanline_padding_between_rows_is_skipped() {
    let format = ZPixmapFormat {
        bits_per_pixel: 24,
        scanline_pad: 32,
        ..ZPixmapFormat::common_bgrx()
    };
    let data = vec![
        0x01, 0x02, 0x03, 0xee,
        0x04, 0x05, 0x06, 0xee,
    ];
    let rgba = zpixmap_to_rgba(&data, 1, 2, format).unwrap();
    assert_eq!(rgba, vec![0x03, 0x02, 0x01, 255, 0x06, 0x05, 0x04, 255]);
}

#[test]
fn big_endian_servers_assemble_pixels_the_other_way_round() {
    let format = ZPixmapFormat {
        little_endian: false,
        ..ZPixmapFormat::common_bgrx()
    };
    let data = vec![0x00, 0x11, 0x22, 0x33];
    let rgba = zpixmap_to_rgba(&data, 1, 1, format).unwrap();
    assert_eq!(rgba, vec![0x11, 0x22, 0x33, 255]);
}

#[test]
fn unusual_channel_masks_are_honoured() {
    let format = ZPixmapFormat {
        red_mask: 0x0000_00ff,
        blue_mask: 0x00ff_0000,
        ..ZPixmapFormat::common_bgrx()
    };
    let data = vec![0x00, 0x00, 0xff, 0x00];
    let rgba = zpixmap_to_rgba(&data, 1, 1, format).unwrap();
    assert_eq!(rgba, vec![0x00, 0x00, 0xff, 255]);
}

#[test]
fn narrow_masks_are_expanded_to_eight_bits() {
    assert_eq!(channel(0b1_1111, 0b1_1111), 255);
    assert_eq!(channel(0, 0b1_1111), 0);
    assert_eq!(channel(0b111_111 << 5, 0b111_111 << 5), 255);
    assert_eq!(channel(0xffff_ffff, 0), 0);
}

#[test]
fn truncated_buffers_are_rejected() {
    let err = zpixmap_to_rgba(&[0, 0, 0], 2, 1, ZPixmapFormat::common_bgrx()).unwrap_err();
    assert!(matches!(err, CaptureError::InvalidFrame(_)));
}

#[test]
fn exotic_bit_depths_are_unsupported() {
    let format = ZPixmapFormat {
        bits_per_pixel: 16,
        ..ZPixmapFormat::common_bgrx()
    };
    assert!(matches!(
        zpixmap_to_rgba(&[0; 64], 2, 2, format),
        Err(CaptureError::Unsupported(_))
    ));
}

#[test]
fn output_length_always_matches_the_requested_size() {
    let data = vec![0u8; 4 * 7 * 5];
    let rgba = zpixmap_to_rgba(&data, 7, 5, ZPixmapFormat::common_bgrx()).unwrap();
    assert_eq!(rgba.len(), 7 * 5 * 4);
}

#[test]
fn bgra_swaps_red_and_blue_and_can_force_opacity() {
    let mut data = vec![10, 20, 30, 0, 1, 2, 3, 128];
    bgra_to_rgba(&mut data, true).unwrap();
    assert_eq!(data, vec![30, 20, 10, 255, 3, 2, 1, 255]);

    let mut data = vec![10, 20, 30, 40];
    bgra_to_rgba(&mut data, false).unwrap();
    assert_eq!(data, vec![30, 20, 10, 40]);
}

#[test]
fn bgra_rejects_ragged_buffers() {
    let mut data = vec![0u8; 6];
    assert!(matches!(
        bgra_to_rgba(&mut data, true),
        Err(CaptureError::InvalidFrame(_))
    ));
}

#[test]
fn padding_and_spare_bytes_never_show() {
    let format = ZPixmapFormat { bits_per_pixel: 24, ..ZPixmapFormat::common_bgrx() };
    let a = [1, 2, 3, 0xaa, 4, 5, 6, 0xbb, 9, 9];
    let b = [1, 2, 3, 0, 4, 5, 6, 0];
    assert_eq!(
        zpixmap_to_rgba(&a, 1, 2, format).unwrap(),
        zpixmap_to_rgba(&b, 1, 2, format).unwrap()
    );
    let common = ZPixmapFormat::common_bgrx();
    assert_eq!(
        zpixmap_to_rgba(&[1, 2, 3, 0xff], 1, 1, common).unwrap(),
        zpixmap_to_rgba(&[1, 2, 3, 0], 1, 1, common).unwrap()
    );
}

#[test]
fn reversed_pixels_in_the_other_byte_order_are_the_same() {
    let little = ZPixmapFormat::common_bgrx();
    let big = ZPixmapFormat { little_endian: false, ..little };
    assert_eq!(
        zpixmap_to_rgba(&[1, 2, 3, 4, 5, 6, 7, 8], 2, 1, little).unwrap(),
        zpixmap_to_rgba(&[4, 3, 2, 1, 8, 7, 6, 5], 2, 1, big).unwrap()
    );
}
