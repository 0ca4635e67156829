//! A binary edge map over one monitor's image, in device pixels.

use vstd::prelude::*;

verus! {

/// How many entries of `s` are set.
pub open spec fn count_set(s: Seq<bool>) -> nat
    decreases s.len(),
{
    if s.len() == 0 {
        0
    } else {
        count_set(s.drop_last()) + if s.last() {
            1nat
        } else {
            0nat
        }
    }
}

/// Which pixels of an image lie on an edge, stored row by row.
pub struct EdgeMap {
    width: usize,
    height: usize,
    data: Vec<bool>,
}

impl EdgeMap {
    #[verifier::type_invariant]
    spec fn shaped(&self) -> bool {
        self.data@.len() == self.width as int * self.height as int
    }

    /// Number of columns.
    pub closed spec fn cols(&self) -> nat {
        self.width as nat
    }

    /// Number of rows.
    pub closed spec fn rows(&self) -> nat {
        self.height as nat
    }

    /// The pixels, row by row.
    pub closed spec fn pixels(&self) -> Seq<bool> {
        self.data@
    }

    /// Whether `(x, y)` is an edge pixel; false for any point off the map.
    pub closed spec fn cell(&self, x: int, y: int) -> bool {
        0 <= x < self.width && 0 <= y < self.height && self.data@[y * self.width + x]
    }

    /// The dimensions are machine sizes.
    pub proof fn lemma_dims_fit(&self)
        ensures
            self.cols() <= usize::MAX,
            self.rows() <= usize::MAX,
    {
    }

    /// Only points on the map can be edge pixels.
    pub proof fn lemma_cell_off_map(&self, x: int, y: int)
        ensures
            self.cell(x, y) ==> 0 <= x < self.cols() && 0 <= y < self.rows(),
    {
    }

    /// The map holds no pixel at all.
    pub open spec fn spec_is_empty(&self) -> bool {
        self.cols() == 0 || self.rows() == 0
    }

    /// Some pixel of row `row` between columns `from` and `to` (inclusive) is an edge.
    pub open spec fn row_has_edge(&self, row: int, from: int, to: int) -> bool {
        exists|x: int| from <= x <= to && #[trigger] self.cell(x, row)
    }

    /// Some pixel of column `col` between rows `from` and `to` (inclusive) is an edge.
    pub open spec fn col_has_edge(&self, col: int, from: int, to: int) -> bool {
        exists|y: int| from <= y <= to && #[trigger] self.cell(col, y)
    }

    proof fn lemma_index_in_bounds(&self, x: int, y: int)
        requires
            self.shaped(),
            0 <= x < self.width,
            0 <= y < self.height,
        ensures
            0 <= y * self.width + x < self.data@.len(),
    {
        assert(y * self.width + x < self.width * self.height) by (nonlinear_arith)
            requires
                0 <= x < self.width,
                0 <= y < self.height,
        ;
        assert(0 <= y * self.width) by (nonlinear_arith)
            requires
                0 <= y,
                0 <= self.width,
        ;
    }

    /// Builds a map from row-major pixels; `None` when `data` does not hold
    /// exactly `width * height` entries.
    pub fn new(width: usize, height: usize, data: Vec<bool>) -> (result: Option<EdgeMap>)
        ensures
            match result {
                Some(map) => {
                    &&& data@.len() == width * height
                    &&& map.cols() == width
                    &&& map.rows() == height
                    &&& map.pixels() == data@
                    &&& forall|x: int, y: int|
                        0 <= x < width && 0 <= y < height ==> #[trigger] map.cell(x, y) == data@[y
                            * width + x]
                },
                None => data@.len() != width * height,
            },
    {
        let len = data.len();
        match width.checked_mul(height) {
            Some(size) => {
                if size == len {
                    Some(EdgeMap { width, height, data })
                } else {
                    None
                }
            },
            None => None,
        }
    }

    pub fn width(&self) -> (w: usize)
        ensures
            w == self.cols(),
    {
        self.width
    }

    pub fn height(&self) -> (h: usize)
        ensures
            h == self.rows(),
    {
        self.height
    }

    pub fn is_empty(&self) -> (b: bool)
        ensures
            b == self.spec_is_empty(),
    {
        self.width == 0 || self.height == 0
    }

    /// The pixel at `(x, y)`; false off the map.
    pub fn at(&self, x: usize, y: usize) -> (b: bool)
        ensures
            b == self.cell(x as int, y as int),
    {
        proof {
            use_type_invariant(self);
        }
        if x < self.width && y < self.height {
            let len = self.data.len();
            proof {
                self.lemma_index_in_bounds(x as int, y as int);
            }
            assert(y * self.width + x < len);
            self.data[y * self.width + x]
        } else {
            false
        }
    }

    /// The number of edge pixels on the map.
    pub fn count(&self) -> (n: usize)
        ensures
            n == count_set(self.pixels()),
    {
        let mut n: usize = 0;
        let mut i: usize = 0;
        while i < self.data.len()
            invariant
                i <= self.data@.len(),
                n == count_set(self.data@.take(i as int)),
                n <= i,
            decreases self.data@.len() - i,
        {
            assert(self.data@.take(i + 1).drop_last() =~= self.data@.take(i as int));
            if self.data[i] {
                n = n + 1;
            }
            i = i + 1;
        }
        assert(self.data@.take(self.data@.len() as int) =~= self.data@);
        n
    }

    /// Whether row `row` holds an edge between columns `from` and `to`, inclusive.
    pub fn any_in_row(&self, row: usize, from: usize, to: usize) -> (b: bool)
        ensures
            b == self.row_has_edge(row as int, from as int, to as int),
    {
        if row >= self.height {
            return false;
        }
        let mut x = from;
        while x <= to && x < self.width
            invariant
                from <= x,
                row < self.rows(),
                forall|c: int| from <= c < x ==> !#[trigger] self.cell(c, row as int),
            decreases self.cols() - x,
        {
            if self.at(x, row) {
                return true;
            }
            x = x + 1;
        }
        assert forall|c: int| from <= c <= to implies !#[trigger] self.cell(c, row as int) by {
            if c >= x {
                assert(c >= self.cols() || c > to);
            }
        }
        false
    }

    /// Whether column `col` holds an edge between rows `from` and `to`, inclusive.
    pub fn any_in_column(&self, col: usize, from: usize, to: usize) -> (b: bool)
        ensures
            b == self.col_has_edge(col as int, from as int, to as int),
    {
        if col >= self.width {
            return false;
        }
        let mut y = from;
        while y <= to && y < self.height
            invariant
                from <= y,
                col < self.cols(),
                forall|r: int| from <= r < y ==> !#[trigger] self.cell(col as int, r),
            decreases self.rows() - y,
        {
            if self.at(col, y) {
                return true;
            }
            y = y + 1;
        }
        assert forall|r: int| from <= r <= to implies !#[trigger] self.cell(col as int, r) by {
            if r >= y {
                assert(r >= self.rows() || r > to);
            }
        }
        false
    }
}

} // verus!
