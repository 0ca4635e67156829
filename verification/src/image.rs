//! An owned RGBA image with 8 bits per channel, stored row by row.

use vstd::prelude::*;

verus! {

/// Pixels in RGBA order, four bytes each, rows top to bottom.
pub struct Rgba8 {
    width: usize,
    height: usize,
    data: Vec<u8>,
}

/// Byte offset of channel `c` of pixel `(x, y)` in an image `width` wide.
pub open spec fn channel_offset(width: int, x: int, y: int, c: int) -> int {
    (y * width + x) * 4 + c
}

impl Rgba8 {
    #[verifier::type_invariant]
    spec fn shaped(&self) -> bool {
        self.data@.len() == self.width as int * self.height as int * 4
    }

    pub closed spec fn cols(&self) -> nat {
        self.width as nat
    }

    pub closed spec fn rows(&self) -> nat {
        self.height as nat
    }

    /// The raw bytes.
    pub closed spec fn bytes(&self) -> Seq<u8> {
        self.data@
    }

    /// Wraps raw RGBA bytes; `None` unless there are exactly four per pixel.
    pub fn from_raw(width: usize, height: usize, data: Vec<u8>) -> (image: Option<Rgba8>)
        ensures
            match image {
                Some(image) => {
                    &&& data@.len() == width * height * 4
                    &&& image.cols() == width
                    &&& image.rows() == height
                    &&& image.bytes() == data@
                },
                None => data@.len() != width * height * 4,
            },
    {
        let len = data.len();
        match width.checked_mul(height) {
            Some(pixels) => match pixels.checked_mul(4) {
                Some(size) => {
                    if size == len {
                        Some(Rgba8 { width, height, data })
                    } else {
                        None
                    }
                },
                None => None,
            },
            None => {
                assert(width * height * 4 >= width * height) by (nonlinear_arith)
                    requires
                        width * height >= 0,
                ;
                None
            },
        }
    }

    pub fn width(&self) -> (w: usize)
        ensures
            w == self.cols(),
    {
        self.width
    }

    pub fn height(&self) -> (h: usize)
        ensures
            h == self.rows(),
    {
        self.height
    }

    /// The raw RGBA bytes, row by row.
    pub fn as_bytes(&self) -> (b: &[u8])
        ensures
            b@ == self.bytes(),
            b@.len() == self.cols() * self.rows() * 4,
    {
        proof {
            use_type_invariant(self);
        }
        self.data.as_slice()
    }

    /// The four channels of pixel `(x, y)`.
    pub fn pixel(&self, x: usize, y: usize) -> (p: [u8; 4])
        requires
            x < self.cols(),
            y < self.rows(),
        ensures
            forall|c: int|
                0 <= c < 4 ==> p@[c] == self.bytes()[channel_offset(self.cols() as int, x as int, y as int, c)],
    {
        proof {
            use_type_invariant(self);
            assert((y * self.width + x) * 4 + 3 < self.width * self.height * 4) by (nonlinear_arith)
                requires
                    x < self.width,
                    y < self.height,
            ;
            assert(0 <= y * self.width) by (nonlinear_arith)
                requires
                    0 <= y,
                    0 <= self.width,
            ;
        }
        let len = self.data.len();
        let base = (y * self.width + x) * 4;
        [self.data[base], self.data[base + 1], self.data[base + 2], self.data[base + 3]]
    }
}

} // verus!
