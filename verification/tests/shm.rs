use screen_ruler::shm::{is_supported_format, to_rgba8, BufferSpec, ShmFormat};

/// Protocol code of a planar YUV format the decoder does not handle.
const YUV420: u32 = 0x3231_5559;

fn spec(format: ShmFormat, width: u32, height: u32) -> BufferSpec {
    BufferSpec {
        format,
        width,
        height,
        stride: width * 4,
    }
}

#[test]
fn xrgb_is_decoded_as_little_endian_bgrx() {
    // One pixel, memory order B, G, R, X.
    let raw = vec![10, 20, 30, 255];
    let image = to_rgba8(&raw, spec(ShmFormat::Xrgb8888, 1, 1), false).expect("decoded");
    assert_eq!(image.pixel(0, 0), [30, 20, 10, 255]);
}

#[test]
fn argb_preserves_the_alpha_channel() {
    let raw = vec![10, 20, 30, 128];
    let image = to_rgba8(&raw, spec(ShmFormat::Argb8888, 1, 1), false).expect("decoded");
    assert_eq!(image.pixel(0, 0), [30, 20, 10, 128]);
}

#[test]
fn xbgr_needs_no_channel_swap() {
    let raw = vec![10, 20, 30, 255];
    let image = to_rgba8(&raw, spec(ShmFormat::Xbgr8888, 1, 1), false).expect("decoded");
    assert_eq!(image.pixel(0, 0), [10, 20, 30, 255]);
}

#[test]
fn formats_without_alpha_are_forced_opaque() {
    // A zero in the padding byte must not produce a transparent pixel.
    let raw = vec![10, 20, 30, 0];
    let image = to_rgba8(&raw, spec(ShmFormat::Xrgb8888, 1, 1), false).expect("decoded");
    assert_eq!(image.pixel(0, 0)[3], 255);
}

#[test]
fn y_invert_flips_the_image_vertically() {
    // Two rows: first black, second white.
    let raw = vec![0, 0, 0, 255, 255, 255, 255, 255];
    let upright = to_rgba8(&raw, spec(ShmFormat::Xrgb8888, 1, 2), false).expect("decoded");
    assert_eq!(upright.pixel(0, 0)[0], 0);
    assert_eq!(upright.pixel(0, 1)[0], 255);

    let flipped = to_rgba8(&raw, spec(ShmFormat::Xrgb8888, 1, 2), true).expect("decoded");
    assert_eq!(flipped.pixel(0, 0)[0], 255);
    assert_eq!(flipped.pixel(0, 1)[0], 0);
}

#[test]
fn row_padding_in_the_stride_is_skipped() {
    // 1px wide but a 2px stride: the trailing bytes are padding.
    let padded = BufferSpec {
        format: ShmFormat::Xrgb8888,
        width: 1,
        height: 2,
        stride: 8,
    };
    let raw = vec![
        10, 20, 30, 255, 99, 99, 99, 99, // row 0 + padding
        40, 50, 60, 255, 99, 99, 99, 99, // row 1 + padding
    ];
    let image = to_rgba8(&raw, padded, false).expect("decoded");
    assert_eq!(image.pixel(0, 0), [30, 20, 10, 255]);
    assert_eq!(image.pixel(0, 1), [60, 50, 40, 255]);
}

#[test]
fn three_byte_formats_are_supported() {
    let tight = BufferSpec {
        format: ShmFormat::Bgr888,
        width: 1,
        height: 1,
        stride: 3,
    };
    let image = to_rgba8(&[10, 20, 30], tight, false).expect("decoded");
    assert_eq!(image.pixel(0, 0), [30, 20, 10, 255]);
}

#[test]
fn unsupported_formats_and_short_buffers_are_rejected() {
    assert!(to_rgba8(&[0; 4], spec(ShmFormat::Other(YUV420), 1, 1), false).is_none());
    // Buffer shorter than width * height * bpp.
    assert!(to_rgba8(&[0; 4], spec(ShmFormat::Xrgb8888, 4, 4), false).is_none());
}

#[test]
fn supported_format_list_matches_the_decoder() {
    for format in [
        ShmFormat::Xrgb8888,
        ShmFormat::Argb8888,
        ShmFormat::Xbgr8888,
        ShmFormat::Abgr8888,
    ] {
        assert!(is_supported_format(format), "{format:?} advertised but not decodable");
        assert!(to_rgba8(&[0; 4], spec(format, 1, 1), false).is_some());
    }
    assert!(!is_supported_format(ShmFormat::Other(YUV420)));
}

#[test]
fn rgb888_keeps_its_channel_order() {
    let tight = BufferSpec {
        format: ShmFormat::Rgb888,
        width: 2,
        height: 1,
        stride: 6,
    };
    let image = to_rgba8(&[1, 2, 3, 4, 5, 6], tight, false).expect("decoded");
    assert_eq!(image.pixel(0, 0), [1, 2, 3, 255]);
    assert_eq!(image.pixel(1, 0), [4, 5, 6, 255]);
}

#[test]
fn abgr_keeps_alpha_without_a_swap() {
    let image = to_rgba8(&[1, 2, 3, 4], spec(ShmFormat::Abgr8888, 1, 1), false).expect("decoded");
    assert_eq!(image.pixel(0, 0), [1, 2, 3, 4]);
}

#[test]
fn the_last_row_needs_only_its_own_pixels() {
    // The final row may end before a whole stride.
    let spec = BufferSpec {
        format: ShmFormat::Xrgb8888,
        width: 1,
        height: 2,
        stride: 8,
    };
    assert!(to_rgba8(&[0; 12], spec, false).is_some());
    assert!(to_rgba8(&[0; 11], spec, false).is_none());
}

#[test]
fn buffer_size_is_stride_times_height() {
    let spec = BufferSpec {
        format: ShmFormat::Xrgb8888,
        width: 3,
        height: 5,
        stride: 16,
    };
    assert_eq!(spec.byte_size(), 80);
}
