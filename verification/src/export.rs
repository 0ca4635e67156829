//! Cutting an exported region out of a window's framebuffer readback.

use vstd::prelude::*;

use crate::image::{channel_offset, Rgba8};

verus! {

/// Rows `top .. top + rows` of a top-down RGBA readback `win_w` pixels wide,
/// each cut to columns `left .. left + width`, concatenated.
pub open spec fn crop_bytes(pixels: Seq<u8>, win_w: int, left: int, top: int, width: int, rows: int) -> Seq<u8>
    decreases rows,
{
    if rows <= 0 {
        Seq::empty()
    } else {
        let start = ((top + rows - 1) * win_w + left) * 4;
        crop_bytes(pixels, win_w, left, top, width, rows - 1) + pixels.subrange(start, start + width * 4)
    }
}

/// The readback covers the whole window and the crop lies inside it.
pub open spec fn crop_fits(pixels_len: int, window: (u32, u32), crop: (u32, u32, u32, u32)) -> bool {
    &&& pixels_len >= window.0 * window.1 * 4
    &&& crop.0 + crop.2 <= window.0
    &&& crop.1 + crop.3 <= window.1
}

proof fn lemma_crop_len(pixels: Seq<u8>, win_w: int, left: int, top: int, width: int, rows: int)
    requires
        0 <= rows,
        0 <= width,
        0 <= left,
        0 <= top,
        left + width <= win_w,
        (top + rows) * win_w * 4 <= pixels.len(),
    ensures
        crop_bytes(pixels, win_w, left, top, width, rows).len() == rows * width * 4,
    decreases rows,
{
    if rows > 0 {
        let start = ((top + rows - 1) * win_w + left) * 4;
        assert(start + width * 4 <= (top + rows) * win_w * 4 && 0 <= start) by (nonlinear_arith)
            requires
                0 <= rows,
                0 <= left,
                0 <= top,
                0 <= width,
                left + width <= win_w,
                start == ((top + rows - 1) * win_w + left) * 4,
                rows > 0,
        ;
        assert((top + rows - 1) * win_w * 4 <= (top + rows) * win_w * 4) by (nonlinear_arith)
            requires
                0 <= win_w,
        ;
        lemma_crop_len(pixels, win_w, left, top, width, rows - 1);
        let prev = crop_bytes(pixels, win_w, left, top, width, rows - 1);
        let line = pixels.subrange(start, start + width * 4);
        assert(line.len() == width * 4);
        assert(crop_bytes(pixels, win_w, left, top, width, rows) == prev + line);
        assert(rows * width * 4 == (rows - 1) * width * 4 + width * 4) by (nonlinear_arith);
        assert(prev.len() == (rows - 1) * width * 4);
        assert((prev + line).len() == prev.len() + line.len());
    } else {
        assert(rows * width * 4 == 0) by (nonlinear_arith)
            requires
                rows == 0,
        ;
    }
}

/// Each pixel of a crop is the window pixel at the same offset from the
/// crop's corner.
pub proof fn lemma_crop_pixel(
    pixels: Seq<u8>,
    win_w: int,
    left: int,
    top: int,
    width: int,
    rows: int,
    x: int,
    y: int,
    c: int,
)
    requires
        0 <= width,
        0 <= left,
        0 <= top,
        left + width <= win_w,
        (top + rows) * win_w * 4 <= pixels.len(),
        0 <= x < width,
        0 <= y < rows,
        0 <= c < 4,
    ensures
        crop_bytes(pixels, win_w, left, top, width, rows)[channel_offset(width, x, y, c)] == pixels[channel_offset(
            win_w,
            left + x,
            top + y,
            c,
        )],
    decreases rows,
{
    let start = ((top + rows - 1) * win_w + left) * 4;
    assert((top + rows - 1) * win_w * 4 <= (top + rows) * win_w * 4) by (nonlinear_arith)
        requires
            0 <= win_w,
    ;
    lemma_crop_len(pixels, win_w, left, top, width, rows - 1);
    assert(start + width * 4 <= (top + rows) * win_w * 4 && 0 <= start) by (nonlinear_arith)
        requires
            0 <= rows,
            0 <= left,
            0 <= top,
            0 <= width,
            left + width <= win_w,
            start == ((top + rows - 1) * win_w + left) * 4,
            rows > 0,
    ;
    if y < rows - 1 {
        assert(channel_offset(width, x, y, c) < (rows - 1) * width * 4) by (nonlinear_arith)
            requires
                0 <= x < width,
                0 <= y < rows - 1,
                0 <= c < 4,
        ;
        assert(0 <= channel_offset(width, x, y, c)) by (nonlinear_arith)
            requires
                0 <= x < width,
                0 <= y,
                0 <= c < 4,
        ;
        lemma_crop_pixel(pixels, win_w, left, top, width, rows - 1, x, y, c);
    } else {
        assert(channel_offset(width, x, y, c) == (rows - 1) * width * 4 + x * 4 + c) by (nonlinear_arith)
            requires
                y == rows - 1,
        ;
        assert(channel_offset(win_w, left + x, top + y, c) == start + x * 4 + c) by (nonlinear_arith)
            requires
                y == rows - 1,
                start == ((top + rows - 1) * win_w + left) * 4,
        ;
    }
}

/// Cuts a region out of a full-window RGBA readback.
///
/// `pixels` must be top-down. Returns `None` when the readback is shorter
/// than the window or the crop does not lie inside it.
pub fn crop_readback(pixels: &[u8], window: (u32, u32), crop: (u32, u32, u32, u32)) -> (image: Option<Rgba8>)
    requires
        window.0 * window.1 * 4 <= usize::MAX,
    ensures
        image is Some <==> crop_fits(pixels@.len() as int, window, crop),
        image matches Some(img) ==> {
            &&& img.cols() == crop.2
            &&& img.rows() == crop.3
            &&& img.bytes() == crop_bytes(
                pixels@,
                window.0 as int,
                crop.0 as int,
                crop.1 as int,
                crop.2 as int,
                crop.3 as int,
            )
        },
{
    let win_w = window.0 as usize;
    let win_h = window.1 as usize;
    let left = crop.0 as usize;
    let top = crop.1 as usize;
    let width = crop.2 as usize;
    let height = crop.3 as usize;

    if pixels.len() < win_w * win_h * 4 || left as u64 + width as u64 > win_w as u64 || top as u64
        + height as u64 > win_h as u64 {
        return None;
    }
    proof {
        assert(width * height * 4 <= win_w * win_h * 4) by (nonlinear_arith)
            requires
                width <= win_w,
                height <= win_h,
        ;
    }

    let mut out: Vec<u8> = Vec::with_capacity(width * height * 4);
    let mut row = top;
    while row < top + height
        invariant
            top <= row <= top + height,
            top + height <= win_h,
            left + width <= win_w,
            win_w * win_h * 4 <= pixels@.len(),
            win_w * win_h * 4 <= usize::MAX,
            out@ == crop_bytes(pixels@, win_w as int, left as int, top as int, width as int, row - top),
        decreases top + height - row,
    {
        proof {
            assert((row * win_w + left) * 4 + width * 4 <= win_w * win_h * 4) by (nonlinear_arith)
                requires
                    row < win_h,
                    left + width <= win_w,
            ;
            assert(0 <= row * win_w) by (nonlinear_arith)
                requires
                    0 <= row,
                    0 <= win_w,
            ;
        }
        let start = (row * win_w + left) * 4;
        let line = &pixels[start..start + width * 4];
        let ghost before = out@;
        out.extend_from_slice(line);
        proof {
            assert(out@ =~= before + line@);
        }
        row = row + 1;
    }
    proof {
        assert((top + height) * win_w * 4 <= win_w * win_h * 4) by (nonlinear_arith)
            requires
                top + height <= win_h,
                0 <= win_w,
        ;
        lemma_crop_len(pixels@, win_w as int, left as int, top as int, width as int, height as int);
        assert(width * height * 4 == height * width * 4) by (nonlinear_arith);
    }
    Rgba8::from_raw(width, height, out)
}

} // verus!
