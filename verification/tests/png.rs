use screen_ruler::image::Rgba8;
use screen_ruler::png::{describe_png_failure, encode, PngStep};

fn gradient(width: usize, height: usize) -> Rgba8 {
    let mut pixels = Vec::with_capacity(width * height * 4);
    for y in 0..height {
        for x in 0..width {
            pixels.extend_from_slice(&[x as u8, y as u8, 128, 255]);
        }
    }
    Rgba8::from_raw(width, height, pixels).expect("valid buffer")
}

/// Decodes `bytes` back into raw RGBA, so the tests assert against what a
/// clipboard consumer would actually see rather than our own byte layout.
fn decode(bytes: &[u8]) -> (u32, u32, Vec<u8>) {
    let decoder = ::png::Decoder::new(std::io::Cursor::new(bytes));
    let mut reader = decoder.read_info().expect("valid PNG");
    let mut buffer = vec![0; reader.output_buffer_size().expect("known size")];
    let info = reader.next_frame(&mut buffer).expect("decodable frame");
    buffer.truncate(info.buffer_size());
    (info.width, info.height, buffer)
}

#[test]
fn output_starts_with_the_png_signature() {
    let bytes = encode(&gradient(4, 4)).expect("encodes");
    assert_eq!(&bytes[..8], &[0x89, b'P', b'N', b'G', 0x0D, 0x0A, 0x1A, 0x0A]);
}

#[test]
fn pixels_survive_a_round_trip_unchanged() {
    let image = gradient(7, 3);
    let (width, height, pixels) = decode(&encode(&image).expect("encodes"));

    assert_eq!((width, height), (7, 3));
    assert_eq!(pixels, image.as_bytes(), "RGBA data changed in transit");
}

#[test]
fn a_payload_larger_than_one_deflate_block_round_trips() {
    // Three rows of 40000 px comfortably exceeds the 65535-byte cap on a
    // single stored block.
    let image = gradient(40_000, 3);
    let (width, height, pixels) = decode(&encode(&image).expect("encodes"));

    assert_eq!((width, height), (40_000, 3));
    assert_eq!(pixels, image.as_bytes());
}

#[test]
fn compression_beats_the_raw_pixel_size() {
    // A flat image is highly compressible; stored blocks could never shrink it.
    let image = gradient(256, 256);
    let encoded = encode(&image).expect("encodes");
    assert!(
        encoded.len() < image.as_bytes().len() / 2,
        "expected real compression, got {} bytes for {} raw",
        encoded.len(),
        image.as_bytes().len()
    );
}

#[test]
fn an_empty_image_fails_at_the_header() {
    let empty = Rgba8::from_raw(0, 5, Vec::new()).expect("valid buffer");
    let message = encode(&empty).expect_err("zero width cannot be encoded");
    assert!(message.starts_with("cannot write the PNG header: "), "{message}");
}

#[test]
fn failures_name_the_step_that_failed() {
    assert_eq!(describe_png_failure(PngStep::Header, "x"), "cannot write the PNG header: x");
    assert_eq!(describe_png_failure(PngStep::Data, "y"), "cannot write the PNG data: y");
    assert_eq!(describe_png_failure(PngStep::Finish, "z"), "cannot finish the PNG stream: z");
}

#[test]
fn the_same_image_encodes_to_the_same_bytes() {
    let a = encode(&gradient(9, 5)).expect("encodes");
    let b = encode(&gradient(9, 5)).expect("encodes");
    assert_eq!(a, b);
}

#[test]
fn an_image_buffer_must_hold_four_bytes_per_pixel() {
    assert!(Rgba8::from_raw(2, 2, vec![0; 15]).is_none());
    assert!(Rgba8::from_raw(2, 2, vec![0; 16]).is_some());
}

#[test]
fn every_non_empty_image_encodes() {
    for (w, h) in [(1, 1), (1, 300), (300, 1), (17, 9)] {
        let image = gradient(w, h);
        let (width, height, pixels) = decode(&encode(&image).expect("a non-empty image encodes"));
        assert_eq!((width as usize, height as usize), (w, h));
        assert_eq!(pixels, image.as_bytes());
    }
}
