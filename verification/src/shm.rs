//! Decoding a compositor's shared-memory frame into RGBA.
//!
//! Shared-memory formats name their channels in little-endian word order, so
//! `Xrgb8888` is stored as `B, G, R, X` in memory.

use vstd::prelude::*;

use crate::image::{channel_offset, Rgba8};

verus! {

/// A shared-memory pixel format, as the compositor names it.
#[derive(Clone, Copy, Debug, PartialEq, Eq, Structural)]
pub enum ShmFormat {
    Argb8888,
    Xrgb8888,
    Abgr8888,
    Xbgr8888,
    Rgb888,
    Bgr888,
    /// Any other format, by its protocol code.
    Other(u32),
}

/// Buffer parameters the compositor offers for a pending frame.
#[derive(Clone, Copy, Debug, PartialEq, Eq, Structural)]
pub struct BufferSpec {
    pub format: ShmFormat,
    pub width: u32,
    pub height: u32,
    pub stride: u32,
}

impl BufferSpec {
    /// Size of the whole buffer in bytes.
    pub fn byte_size(&self) -> (size: u64)
        ensures
            size == self.stride * self.height,
    {
        proof {
            assert(self.stride * self.height <= u32::MAX * u32::MAX) by (nonlinear_arith)
                requires
                    self.stride <= u32::MAX,
                    self.height <= u32::MAX,
            ;
        }
        self.stride as u64 * self.height as u64
    }
}

/// Where each channel sits within one stored pixel.
#[derive(Clone, Copy, Debug, PartialEq, Eq, Structural)]
pub struct ChannelLayout {
    /// Bytes per stored pixel.
    pub bpp: usize,
    pub r: usize,
    pub g: usize,
    pub b: usize,
    /// The alpha byte, or `None` for formats whose pixels are opaque.
    pub a: Option<usize>,
}

/// The layout of a decodable format; `None` for the others.
pub open spec fn layout_of(format: ShmFormat) -> Option<ChannelLayout> {
    match format {
        ShmFormat::Xrgb8888 => Some(ChannelLayout { bpp: 4, r: 2, g: 1, b: 0, a: None }),
        ShmFormat::Argb8888 => Some(ChannelLayout { bpp: 4, r: 2, g: 1, b: 0, a: Some(3) }),
        ShmFormat::Xbgr8888 => Some(ChannelLayout { bpp: 4, r: 0, g: 1, b: 2, a: None }),
        ShmFormat::Abgr8888 => Some(ChannelLayout { bpp: 4, r: 0, g: 1, b: 2, a: Some(3) }),
        ShmFormat::Bgr888 => Some(ChannelLayout { bpp: 3, r: 2, g: 1, b: 0, a: None }),
        ShmFormat::Rgb888 => Some(ChannelLayout { bpp: 3, r: 0, g: 1, b: 2, a: None }),
        ShmFormat::Other(_) => None,
    }
}

/// Every channel index falls inside a pixel of three or four bytes.
pub open spec fn well_laid(layout: ChannelLayout) -> bool {
    &&& layout.bpp == 3 || layout.bpp == 4
    &&& layout.r < layout.bpp && layout.g < layout.bpp && layout.b < layout.bpp
    &&& layout.a matches Some(i) ==> i < layout.bpp
}

/// The layout of a decodable format; `None` for the others.
pub fn channel_layout(format: ShmFormat) -> (layout: Option<ChannelLayout>)
    ensures
        layout == layout_of(format),
        layout matches Some(l) ==> well_laid(l),
{
    match format {
        ShmFormat::Xrgb8888 => Some(ChannelLayout { bpp: 4, r: 2, g: 1, b: 0, a: None }),
        ShmFormat::Argb8888 => Some(ChannelLayout { bpp: 4, r: 2, g: 1, b: 0, a: Some(3) }),
        ShmFormat::Xbgr8888 => Some(ChannelLayout { bpp: 4, r: 0, g: 1, b: 2, a: None }),
        ShmFormat::Abgr8888 => Some(ChannelLayout { bpp: 4, r: 0, g: 1, b: 2, a: Some(3) }),
        ShmFormat::Bgr888 => Some(ChannelLayout { bpp: 3, r: 2, g: 1, b: 0, a: None }),
        ShmFormat::Rgb888 => Some(ChannelLayout { bpp: 3, r: 0, g: 1, b: 2, a: None }),
        ShmFormat::Other(_) => None,
    }
}

/// Whether [`to_rgba8`] can decode a format.
pub fn is_supported_format(format: ShmFormat) -> (b: bool)
    ensures
        b == layout_of(format) is Some,
{
    channel_layout(format).is_some()
}

/// One stored pixel as RGBA; pixels without alpha come out opaque.
pub open spec fn rgba_of(pixel: Seq<u8>, layout: ChannelLayout) -> Seq<u8> {
    seq![
        pixel[layout.r as int],
        pixel[layout.g as int],
        pixel[layout.b as int],
        match layout.a {
            Some(i) => pixel[i as int],
            None => 255u8,
        },
    ]
}

/// A row of stored pixels as RGBA, pixel by pixel; trailing bytes short of
/// a whole pixel are ignored.
pub open spec fn decode_line(line: Seq<u8>, layout: ChannelLayout) -> Seq<u8>
    decreases line.len(),
{
    if layout.bpp == 0 || line.len() < layout.bpp {
        Seq::empty()
    } else {
        let cut = line.len() - layout.bpp;
        decode_line(line.take(cut), layout) + rgba_of(line.subrange(cut, line.len() as int), layout)
    }
}

/// The stored row that becomes output row `row`.
pub open spec fn source_row(height: int, row: int, y_invert: bool) -> int {
    if y_invert {
        height - 1 - row
    } else {
        row
    }
}

/// The first `rows` output rows of a frame, decoded and concatenated.
pub open spec fn decode_rows(raw: Seq<u8>, spec: BufferSpec, layout: ChannelLayout, y_invert: bool, rows: int) -> Seq<u8>
    decreases rows,
{
    if rows <= 0 {
        Seq::empty()
    } else {
        let start = source_row(spec.height as int, rows - 1, y_invert) * spec.stride;
        decode_rows(raw, spec, layout, y_invert, rows - 1) + decode_line(
            raw.subrange(start, start + spec.width * layout.bpp),
            layout,
        )
    }
}

/// Every row the frame describes lies within the buffer.
pub open spec fn rows_in_buffer(raw_len: int, spec: BufferSpec, bpp: int) -> bool {
    spec.height == 0 || (spec.height - 1) * spec.stride + spec.width * bpp <= raw_len
}

/// The sizes [`to_rgba8`] computes fit in `usize`.
pub open spec fn frame_fits(spec: BufferSpec) -> bool {
    &&& spec.width * spec.height * 4 <= usize::MAX
    &&& spec.height * spec.stride + spec.width * 4 <= usize::MAX
}

/// Appends one stored row, decoded to RGBA, to `out`.
fn decode_line_into(out: &mut Vec<u8>, line: &[u8], layout: ChannelLayout, width: usize)
    requires
        well_laid(layout),
        line@.len() == width * layout.bpp,
        old(out)@.len() + width * 4 <= usize::MAX,
    ensures
        final(out)@ == old(out)@ + decode_line(line@, layout),
        final(out)@.len() == old(out)@.len() + width * 4,
{
    let ghost before = out@;
    let n = line.len();
    let bpp = layout.bpp;
    let mut offset: usize = 0;
    let mut i: usize = 0;
    while i < width
        invariant
            0 <= i <= width,
            offset == i * bpp,
            line@.len() == width * bpp,
            n == line@.len(),
            bpp == layout.bpp,
            well_laid(layout),
            out@ == before + decode_line(line@.take(offset as int), layout),
            out@.len() == before.len() + i * 4,
            before.len() + width * 4 <= usize::MAX,
        decreases width - i,
    {
        proof {
            assert(i * bpp + bpp <= width * bpp) by (nonlinear_arith)
                requires
                    i < width,
                    0 <= bpp,
            ;
        }
        let ghost prev = out@;
        out.push(line[offset + layout.r]);
        out.push(line[offset + layout.g]);
        out.push(line[offset + layout.b]);
        let alpha = match layout.a {
            Some(index) => line[offset + index],
            None => 255u8,
        };
        out.push(alpha);
        proof {
            let next = line@.take(offset + bpp);
            assert(next.take(offset as int) =~= line@.take(offset as int));
            assert(next.subrange(offset as int, next.len() as int) =~= line@.subrange(
                offset as int,
                offset + bpp,
            ));
            assert(out@ =~= prev + rgba_of(line@.subrange(offset as int, offset + bpp), layout));
        }
        offset = offset + bpp;
        i = i + 1;
        assert(offset == i * bpp) by (nonlinear_arith)
            requires
                offset == (i - 1) * bpp + bpp,
        ;
    }
    assert(line@.take(offset as int) =~= line@);
}

/// Converts a compositor buffer into RGBA8, flipping it if written bottom-up.
///
/// `None` when the format is not decodable or the buffer is too short for
/// the rows the frame describes.
pub fn to_rgba8(raw: &[u8], spec: BufferSpec, y_invert: bool) -> (image: Option<Rgba8>)
    requires
        frame_fits(spec),
    ensures
        image is Some <==> (layout_of(spec.format) matches Some(l) && rows_in_buffer(
            raw@.len() as int,
            spec,
            l.bpp as int,
        )),
        image matches Some(img) ==> {
            &&& img.cols() == spec.width
            &&& img.rows() == spec.height
            &&& img.bytes() == decode_rows(
                raw@,
                spec,
                layout_of(spec.format)->0,
                y_invert,
                spec.height as int,
            )
        },
{
    let layout = match channel_layout(spec.format) {
        Some(layout) => layout,
        None => return None,
    };
    let width = spec.width as usize;
    let height = spec.height as usize;
    let stride = spec.stride as usize;
    let bpp = layout.bpp;
    proof {
        assert(width * bpp <= width * 4) by (nonlinear_arith)
            requires
                bpp <= 4,
        ;
    }
    let line_len = width * bpp;

    let mut out: Vec<u8> = Vec::with_capacity(width * height * 4);
    let mut row: usize = 0;
    while row < height
        invariant
            layout == layout_of(spec.format)->0,
            well_laid(layout),
            width == spec.width,
            height == spec.height,
            stride == spec.stride,
            bpp == layout.bpp,
            line_len == width * bpp,
            frame_fits(spec),
            row <= height,
            out@ == decode_rows(raw@, spec, layout, y_invert, row as int),
            out@.len() == row * width * 4,
            forall|r: int|
                0 <= r < row ==> #[trigger] source_row(height as int, r, y_invert) * stride + width * bpp
                    <= raw@.len(),
        decreases height - row,
    {
        let source = if y_invert {
            height - 1 - row
        } else {
            row
        };
        proof {
            assert(source * stride + line_len <= height * stride + width * 4) by (nonlinear_arith)
                requires
                    source < height,
                    line_len == width * bpp,
                    bpp <= 4,
            ;
            assert(0 <= source * stride) by (nonlinear_arith)
                requires
                    0 <= source,
                    0 <= stride,
            ;
        }
        let start = source * stride;
        if start + line_len > raw.len() {
            proof {
                assert(source * stride <= (height - 1) * stride) by (nonlinear_arith)
                    requires
                        source <= height - 1,
                        0 <= stride,
                ;
            }
            return None;
        }
        let line = &raw[start..start + line_len];
        proof {
            assert((row + 1) * width * 4 <= width * height * 4) by (nonlinear_arith)
                requires
                    row < height,
            ;
            assert((row + 1) * width * 4 == row * width * 4 + width * 4) by (nonlinear_arith);
        }
        decode_line_into(&mut out, line, layout, width);
        row = row + 1;
    }
    proof {
        if height > 0 {
            let r = if y_invert { 0 } else { height - 1 };
            assert(source_row(height as int, r as int, y_invert) == height - 1);
        }
        assert(height * width * 4 == width * height * 4) by (nonlinear_arith);
    }
    Rgba8::from_raw(width, height, out)
}


proof fn lemma_decode_line(line: Seq<u8>, layout: ChannelLayout, n: int)
    requires
        well_laid(layout),
        0 <= n,
        line.len() == n * layout.bpp,
    ensures
        decode_line(line, layout).len() == n * 4,
        forall|x: int, c: int|
            0 <= x < n && 0 <= c < 4 ==> #[trigger] decode_line(line, layout)[x * 4 + c] == rgba_of(
                line.subrange(x * layout.bpp, x * layout.bpp + layout.bpp),
                layout,
            )[c],
    decreases n,
{
    let bpp = layout.bpp as int;
    if n > 0 {
        let cut = line.len() - bpp;
        assert(cut == (n - 1) * bpp) by (nonlinear_arith)
            requires
                line.len() == n * bpp,
                cut == line.len() - bpp,
        ;
        let head = line.take(cut);
        lemma_decode_line(head, layout, n - 1);
        let tail = rgba_of(line.subrange(cut, line.len() as int), layout);
        assert(decode_line(line, layout) == decode_line(head, layout) + tail);
        assert forall|x: int, c: int| 0 <= x < n && 0 <= c < 4 implies #[trigger] decode_line(
            line,
            layout,
        )[x * 4 + c] == rgba_of(line.subrange(x * bpp, x * bpp + bpp), layout)[c] by {
            if x < n - 1 {
                assert(x * bpp + bpp <= cut) by (nonlinear_arith)
                    requires
                        x < n - 1,
                        cut == (n - 1) * bpp,
                        bpp >= 0,
                ;
                assert(0 <= x * bpp) by (nonlinear_arith)
                    requires
                        0 <= x,
                        bpp >= 0,
                ;
                assert(head.subrange(x * bpp, x * bpp + bpp) =~= line.subrange(x * bpp, x * bpp + bpp));
            } else {
                assert(x * bpp == cut);
            }
        }
    } else {
        assert(line.len() == 0) by (nonlinear_arith)
            requires
                n == 0,
                line.len() == n * bpp,
        ;
    }
}

proof fn lemma_decode_rows_len(raw: Seq<u8>, spec: BufferSpec, layout: ChannelLayout, y_invert: bool, rows: int)
    requires
        well_laid(layout),
        0 <= rows <= spec.height,
        rows_in_buffer(raw.len() as int, spec, layout.bpp as int),
    ensures
        decode_rows(raw, spec, layout, y_invert, rows).len() == rows * spec.width * 4,
    decreases rows,
{
    if rows > 0 {
        lemma_decode_rows_len(raw, spec, layout, y_invert, rows - 1);
        lemma_row_in_buffer(raw, spec, layout, y_invert, rows - 1);
        let start = source_row(spec.height as int, rows - 1, y_invert) * spec.stride;
        lemma_decode_line(raw.subrange(start, start + spec.width * layout.bpp), layout, spec.width as int);
        assert(rows * spec.width * 4 == (rows - 1) * spec.width * 4 + spec.width * 4) by (nonlinear_arith);
    } else {
        assert(rows * spec.width * 4 == 0) by (nonlinear_arith)
            requires
                rows == 0,
        ;
    }
}

proof fn lemma_row_in_buffer(raw: Seq<u8>, spec: BufferSpec, layout: ChannelLayout, y_invert: bool, row: int)
    requires
        0 <= row < spec.height,
        rows_in_buffer(raw.len() as int, spec, layout.bpp as int),
    ensures
        0 <= source_row(spec.height as int, row, y_invert) * spec.stride,
        source_row(spec.height as int, row, y_invert) * spec.stride + spec.width * layout.bpp <= raw.len(),
{
    let s = source_row(spec.height as int, row, y_invert);
    assert(0 <= s <= spec.height - 1);
    assert(s * spec.stride <= (spec.height - 1) * spec.stride && 0 <= s * spec.stride) by (nonlinear_arith)
        requires
            0 <= s <= spec.height - 1,
            0 <= spec.stride,
    ;
}

/// Each output pixel is the stored pixel of its source row, with channels
/// reordered: output row `row` comes from stored row `height - 1 - row` when
/// the frame is written bottom-up, and from stored row `row` otherwise.
pub proof fn lemma_decoded_pixel(
    raw: Seq<u8>,
    spec: BufferSpec,
    y_invert: bool,
    x: int,
    row: int,
    c: int,
)
    requires
        layout_of(spec.format) is Some,
        rows_in_buffer(raw.len() as int, spec, layout_of(spec.format)->0.bpp as int),
        0 <= x < spec.width,
        0 <= row < spec.height,
        0 <= c < 4,
    ensures
        ({
            let layout = layout_of(spec.format)->0;
            let at = source_row(spec.height as int, row, y_invert) * spec.stride + x * layout.bpp;
            decode_rows(raw, spec, layout, y_invert, spec.height as int)[channel_offset(
                spec.width as int,
                x,
                row,
                c,
            )] == rgba_of(raw.subrange(at, at + layout.bpp), layout)[c]
        }),
{
    let layout = layout_of(spec.format)->0;
    assert(well_laid(layout));
    lemma_pixel_in_rows(raw, spec, layout, y_invert, spec.height as int, x, row, c);
}

proof fn lemma_pixel_in_rows(
    raw: Seq<u8>,
    spec: BufferSpec,
    layout: ChannelLayout,
    y_invert: bool,
    rows: int,
    x: int,
    row: int,
    c: int,
)
    requires
        well_laid(layout),
        rows <= spec.height,
        rows_in_buffer(raw.len() as int, spec, layout.bpp as int),
        0 <= x < spec.width,
        0 <= row < rows,
        0 <= c < 4,
    ensures
        ({
            let at = source_row(spec.height as int, row, y_invert) * spec.stride + x * layout.bpp;
            decode_rows(raw, spec, layout, y_invert, rows)[channel_offset(spec.width as int, x, row, c)]
                == rgba_of(raw.subrange(at, at + layout.bpp), layout)[c]
        }),
    decreases rows,
{
    let w = spec.width as int;
    let bpp = layout.bpp as int;
    lemma_decode_rows_len(raw, spec, layout, y_invert, rows - 1);
    lemma_row_in_buffer(raw, spec, layout, y_invert, rows - 1);
    let start = source_row(spec.height as int, rows - 1, y_invert) * spec.stride;
    let line = raw.subrange(start, start + w * bpp);
    lemma_decode_line(line, layout, w);
    assert(0 <= x * 4 + c < w * 4) by (nonlinear_arith)
        requires
            0 <= x < w,
            0 <= c < 4,
    ;
    assert(0 <= x * bpp && x * bpp + bpp <= w * bpp) by (nonlinear_arith)
        requires
            0 <= x < w,
            0 <= bpp,
    ;
    if row < rows - 1 {
        assert(channel_offset(w, x, row, c) < (rows - 1) * w * 4) by (nonlinear_arith)
            requires
                0 <= x < w,
                0 <= row < rows - 1,
                0 <= c < 4,
        ;
        assert(0 <= channel_offset(w, x, row, c)) by (nonlinear_arith)
            requires
                0 <= x < w,
                0 <= row,
                0 <= c < 4,
        ;
        lemma_pixel_in_rows(raw, spec, layout, y_invert, rows - 1, x, row, c);
    } else {
        assert(channel_offset(w, x, row, c) == (rows - 1) * w * 4 + (x * 4 + c)) by (nonlinear_arith)
            requires
                row == rows - 1,
        ;
        let at = start + x * bpp;
        assert(line.subrange(x * bpp, x * bpp + bpp) =~= raw.subrange(at, at + bpp));
    }
}

/// Row order of a decoded frame, written out: a bottom-up frame puts stored
/// row `height - 1 - row` at output row `row`, a top-down frame stored row
/// `row`, each pixel with its channels reordered to RGBA.
pub proof fn lemma_row_order(raw: Seq<u8>, spec: BufferSpec, y_invert: bool, x: int, row: int, c: int)
    requires
        layout_of(spec.format) is Some,
        rows_in_buffer(raw.len() as int, spec, layout_of(spec.format)->0.bpp as int),
        0 <= x < spec.width,
        0 <= row < spec.height,
        0 <= c < 4,
    ensures
        ({
            let layout = layout_of(spec.format)->0;
            let h = spec.height as int;
            let out = decode_rows(raw, spec, layout, y_invert, h);
            let at = if y_invert {
                (h - 1 - row) * spec.stride + x * layout.bpp
            } else {
                row * spec.stride + x * layout.bpp
            };
            &&& out.len() == h * spec.width * 4
            &&& out[(row * spec.width + x) * 4 + c] == rgba_of(raw.subrange(at, at + layout.bpp), layout)[c]
        }),
{
    let layout = layout_of(spec.format)->0;
    assert(well_laid(layout));
    lemma_decode_rows_len(raw, spec, layout, y_invert, spec.height as int);
    lemma_decoded_pixel(raw, spec, y_invert, x, row, c);
}

} // verus!
