//! PNG encoding for the clipboard.
//!
//! The bytes are produced by the `png` crate; this module fixes what it is
//! handed and turns its failures into messages.

use vstd::prelude::*;

use crate::image::Rgba8;
use crate::text::concat;

verus! {

/// The step of writing a PNG stream that failed.
#[derive(Clone, Copy, Debug, PartialEq, Eq, Structural)]
pub enum PngStep {
    Header,
    Data,
    Finish,
}

/// The eight bytes every PNG stream starts with.
pub open spec fn png_signature() -> Seq<u8> {
    seq![0x89u8, 0x50u8, 0x4Eu8, 0x47u8, 0x0Du8, 0x0Au8, 0x1Au8, 0x0Au8]
}

/// The stream the `png` crate writes for an 8-bit RGBA image of the given
/// size and pixels, with its default filter and compression settings.
pub uninterp spec fn png_rgba8_stream(width: u32, height: u32, pixels: Seq<u8>) -> Seq<u8>;

/// The outcome is a failure at `step`.
pub open spec fn failed_at(outcome: Result<Vec<u8>, (PngStep, String)>, step: PngStep) -> bool {
    match outcome {
        Ok(_) => false,
        Err(failure) => failure.0 == step,
    }
}

/// Writes `pixels` as an 8-bit RGBA PNG of `width` x `height`.
///
/// Trusted: drives `png::Encoder::new`, `set_color(ColorType::Rgba)`,
/// `set_depth(BitDepth::Eight)`, `write_header`, `Writer::write_image_data`
/// and `Writer::finish` over an in-memory buffer, turning a failure into its
/// step and the error's text. The contract claims what the crate's source
/// shows: the stream depends on the arguments alone and opens with the PNG
/// signature (written first by `write_header`); a zero width or height fails
/// at the header, a pixel buffer of the wrong length fails at the data step,
/// and every other input succeeds: RGBA at eight bits is a valid colour
/// combination, `write_image_data` refuses only a wrongly sized buffer, and
/// neither it nor `finish` can fail writing into a `Vec`.
#[verifier::external_body]
fn write_rgba8_png(width: u32, height: u32, pixels: &[u8]) -> (r: Result<Vec<u8>, (PngStep, String)>)
    requires
        width * height * 4 <= usize::MAX,
    ensures
        r matches Ok(bytes) ==> {
            &&& bytes@ == png_rgba8_stream(width, height, pixels@)
            &&& bytes@.len() >= 8
            &&& bytes@.take(8) == png_signature()
        },
        width == 0 || height == 0 ==> failed_at(r, PngStep::Header),
        width > 0 && height > 0 && pixels@.len() != width * height * 4 ==> failed_at(r, PngStep::Data),
        width > 0 && height > 0 && pixels@.len() == width * height * 4 ==> r is Ok,
{
    let mut out = Vec::new();
    let mut encoder = ::png::Encoder::new(&mut out, width, height);
    encoder.set_color(::png::ColorType::Rgba);
    encoder.set_depth(::png::BitDepth::Eight);
    let mut writer = encoder.write_header().map_err(|e| (PngStep::Header, e.to_string()))?;
    writer.write_image_data(pixels).map_err(|e| (PngStep::Data, e.to_string()))?;
    writer.finish().map_err(|e| (PngStep::Finish, e.to_string()))?;
    Ok(out)
}

/// The message reported when a PNG step fails with the given detail.
pub fn describe_png_failure(step: PngStep, detail: &str) -> (message: String)
    ensures
        message@ == (match step {
            PngStep::Header => "cannot write the PNG header: "@,
            PngStep::Data => "cannot write the PNG data: "@,
            PngStep::Finish => "cannot finish the PNG stream: "@,
        }) + detail@,
{
    match step {
        PngStep::Header => concat("cannot write the PNG header: ", detail),
        PngStep::Data => concat("cannot write the PNG data: ", detail),
        PngStep::Finish => concat("cannot finish the PNG stream: ", detail),
    }
}

/// Encodes an image as PNG bytes. An image with both sides between one and
/// `u32::MAX` pixels always encodes.
pub fn encode(image: &Rgba8) -> (r: Result<Vec<u8>, String>)
    ensures
        0 < image.cols() <= u32::MAX && 0 < image.rows() <= u32::MAX ==> r is Ok,
        r matches Ok(bytes) ==> {
            &&& bytes@ == png_rgba8_stream(#[verifier::truncate] (image.cols() as u32), #[verifier::truncate] (image.rows() as u32), image.bytes())
            &&& bytes@.take(8) == png_signature()
        },
        #[verifier::truncate] (image.cols() as u32) == 0 || #[verifier::truncate] (image.rows() as u32) == 0 ==> (r matches Err(message) && message@.take(29)
            == "cannot write the PNG header: "@),
{
    let bytes = image.as_bytes();
    let width = image.width();
    let height = image.height();
    let n = bytes.len();
    let w = #[verifier::truncate] (width as u32);
    let h = #[verifier::truncate] (height as u32);
    proof {
        assert(w <= width) by (bit_vector)
            requires
                w == width as u32,
        ;
        assert(h <= height) by (bit_vector)
            requires
                h == height as u32,
        ;
        assert(w * h * 4 <= width * height * 4) by (nonlinear_arith)
            requires
                w <= width,
                h <= height,
        ;
        assert(width <= 0xffff_ffff ==> w == width) by (bit_vector)
            requires
                w == width as u32,
        ;
        assert(height <= 0xffff_ffff ==> h == height) by (bit_vector)
            requires
                h == height as u32,
        ;
    }
    match write_rgba8_png(w, h, bytes) {
        Ok(out) => Ok(out),
        Err((step, detail)) => {
            let message = describe_png_failure(step, detail.as_str());
            proof {
                reveal_strlit("cannot write the PNG header: ");
                assert((("cannot write the PNG header: "@) + detail@).take(29) =~= "cannot write the PNG header: "@);
            }
            Err(message)
        },
    }
}

} // verus!
