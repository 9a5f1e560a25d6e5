//! Dense two-dimensional storage, one cell per pixel.

use vstd::prelude::*;

verus! {

/// Why a cell could not be reached.
#[derive(Clone, Copy, Debug, PartialEq, Eq, Structural)]
pub enum GridError {
    /// The column is not below the width, or the row is not below the height.
    OutOfRange,
}

/// A block of `width` by `height` cells whose dimensions are fixed at
/// construction. Cell `(x, y)` is column `x` of row `y`; rows are stored one
/// after the other.
pub struct Grid<T: Clone> {
    width: usize,
    height: usize,
    contents: Vec<T>,
}

impl<T: Clone> Grid<T> {
    #[verifier::type_invariant]
    spec fn well_formed(&self) -> bool {
        self.contents@.len() == self.width * self.height
    }

    /// Number of columns.
    pub closed spec fn spec_width(&self) -> nat {
        self.width as nat
    }

    /// Number of rows.
    pub closed spec fn spec_height(&self) -> nat {
        self.height as nat
    }

    /// The cells, row after row.
    pub closed spec fn cells(&self) -> Seq<T> {
        self.contents@
    }

    /// Whether `(x, y)` addresses a cell.
    pub open spec fn in_range(&self, x: int, y: int) -> bool {
        0 <= x < self.spec_width() && 0 <= y < self.spec_height()
    }

    /// Position of cell `(x, y)` among `cells()`.
    pub open spec fn offset(&self, x: int, y: int) -> int {
        y * self.spec_width() + x
    }

    /// The value held by cell `(x, y)`.
    pub open spec fn at(&self, x: int, y: int) -> T {
        self.cells()[self.offset(x, y)]
    }

    /// Every cell has a position below `width * height`, and two cells share
    /// a position only if they are the same cell.
    pub proof fn lemma_offset(&self, x: int, y: int)
        requires
            self.in_range(x, y),
        ensures
            0 <= self.offset(x, y) < self.spec_width() * self.spec_height(),
            self.offset(x, y) % (self.spec_width() as int) == x,
            self.offset(x, y) / (self.spec_width() as int) == y,
    {
        let w = self.spec_width() as int;
        let h = self.spec_height() as int;
        assert(0 <= y * w && y * w + x < w * h) by (nonlinear_arith)
            requires
                0 <= x < w,
                0 <= y < h,
        ;
        vstd::arithmetic::div_mod::lemma_fundamental_div_mod_converse(y * w + x, w, y, x);
    }

    /// A grid of `width * height` cells, each a clone of `default`.
    pub fn new(width: usize, height: usize, default: T) -> (grid: Self)
        requires
            width * height <= usize::MAX,
        ensures
            grid.spec_width() == width,
            grid.spec_height() == height,
            grid.cells().len() == width * height,
            forall|i: int| 0 <= i < width * height ==> cloned(default, #[trigger] grid.cells()[i]),
    {
        Grid { width, height, contents: vec![default; width * height] }
    }

    /// Number of columns. A grid always holds `width * height` cells.
    pub fn width(&self) -> (w: usize)
        ensures
            w == self.spec_width(),
            self.cells().len() == self.spec_width() * self.spec_height(),
    {
        proof {
            use_type_invariant(self);
        }
        self.width
    }

    /// Number of rows. A grid always holds `width * height` cells.
    pub fn height(&self) -> (h: usize)
        ensures
            h == self.spec_height(),
            self.cells().len() == self.spec_width() * self.spec_height(),
    {
        proof {
            use_type_invariant(self);
        }
        self.height
    }

    /// Mutable access to cell `(x, y)`, or `OutOfRange` when there is no such
    /// cell. Whatever is written through the reference becomes the value of
    /// that cell; every other cell and both dimensions stay as they were.
    pub fn get(&mut self, x: usize, y: usize) -> (r: Result<&mut T, GridError>)
        ensures
            final(self).spec_width() == old(self).spec_width(),
            final(self).spec_height() == old(self).spec_height(),
            final(self).cells().len() == old(self).cells().len(),
            match r {
                Ok(cell) => {
                    &&& old(self).in_range(x as int, y as int)
                    &&& *cell == old(self).at(x as int, y as int)
                    &&& final(self).cells() == old(self).cells().update(
                        old(self).offset(x as int, y as int),
                        *final(cell),
                    )
                },
                Err(e) => {
                    &&& e == GridError::OutOfRange
                    &&& !old(self).in_range(x as int, y as int)
                    &&& final(self).cells() == old(self).cells()
                },
            },
    {
        proof {
            use_type_invariant(&*self);
        }
        if x >= self.width || y >= self.height {
            Err(GridError::OutOfRange)
        } else {
            // The cells fill the vector, so every offset is below its length.
            let cells: usize = self.contents.len();
            assert(cells == self.width * self.height);
            assert(0 <= y * self.width && y * self.width + x < self.width * self.height)
                by (nonlinear_arith)
                requires
                    x < self.width,
                    y < self.height,
            ;
            let at: usize = y * self.width + x;
            Ok(&mut self.contents[at])
        }
    }

    /// A clone of the value in cell `(x, y)`, or `OutOfRange` when there is no
    /// such cell.
    pub fn get_val(&self, x: usize, y: usize) -> (r: Result<T, GridError>)
        ensures
            match r {
                Ok(value) => {
                    &&& self.in_range(x as int, y as int)
                    &&& cloned(self.at(x as int, y as int), value)
                },
                Err(e) => e == GridError::OutOfRange && !self.in_range(x as int, y as int),
            },
    {
        proof {
            use_type_invariant(self);
        }
        if x >= self.width || y >= self.height {
            Err(GridError::OutOfRange)
        } else {
            // The cells fill the vector, so every offset is below its length.
            let cells: usize = self.contents.len();
            assert(cells == self.width * self.height);
            assert(0 <= y * self.width && y * self.width + x < self.width * self.height)
                by (nonlinear_arith)
                requires
                    x < self.width,
                    y < self.height,
            ;
            let at: usize = y * self.width + x;
            Ok(self.contents[at].clone())
        }
    }
}

} // verus!
