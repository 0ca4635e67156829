use screen_ruler::export::crop_readback;

#[test]
fn cropping_extracts_the_requested_region() {
    // 4x3 window where each pixel encodes its own coordinates.
    let mut pixels = Vec::new();
    for y in 0..3u8 {
        for x in 0..4u8 {
            pixels.extend_from_slice(&[x, y, 0, 255]);
        }
    }

    let cropped = crop_readback(&pixels, (4, 3), (1, 1, 2, 2)).expect("crop");
    assert_eq!((cropped.width(), cropped.height()), (2, 2));
    assert_eq!(cropped.pixel(0, 0), [1, 1, 0, 255]);
    assert_eq!(cropped.pixel(1, 0), [2, 1, 0, 255]);
    assert_eq!(cropped.pixel(0, 1), [1, 2, 0, 255]);
    assert_eq!(cropped.pixel(1, 1), [2, 2, 0, 255]);
}

#[test]
fn cropping_rejects_a_region_outside_the_readback() {
    let pixels = vec![0u8; 4 * 3 * 4];
    assert!(crop_readback(&pixels, (4, 3), (3, 0, 2, 2)).is_none());
    assert!(crop_readback(&pixels, (4, 3), (0, 2, 2, 2)).is_none());
}

#[test]
fn cropping_rejects_a_truncated_readback() {
    let short = vec![0u8; 8];
    assert!(crop_readback(&short, (4, 3), (0, 0, 2, 2)).is_none());
}

#[test]
fn a_crop_of_the_whole_window_is_the_readback() {
    let pixels: Vec<u8> = (0..2 * 2 * 4).map(|i| i as u8).collect();
    let whole = crop_readback(&pixels, (2, 2), (0, 0, 2, 2)).expect("crop");
    assert_eq!(whole.as_bytes(), &pixels[..]);
}

#[test]
fn an_empty_crop_is_an_empty_image() {
    let pixels = vec![7u8; 4 * 4 * 4];
    let empty = crop_readback(&pixels, (4, 4), (4, 4, 0, 0)).expect("crop");
    assert_eq!((empty.width(), empty.height()), (0, 0));
    assert!(empty.as_bytes().is_empty());
}
