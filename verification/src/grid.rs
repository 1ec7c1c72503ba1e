//! The mathematical model of a dense rectangular grid stored row by row,
//! and the arithmetic that ties a coordinate to its place in the storage.

use vstd::prelude::*;

verus! {

/// A grid of `width * height` cells. The cell at column `x` of row `y` is
/// `cells[y * width + x]`.
pub struct Grid<T> {
    pub width: int,
    pub height: int,
    pub cells: Seq<T>,
}

/// The place of column `x`, row `y` in row-major storage of the given width.
pub open spec fn index_of(width: int, x: int, y: int) -> int {
    y * width + x
}

/// The column of the storage place `index`.
pub open spec fn column_of(width: int, index: int) -> int {
    index % width
}

/// The row of the storage place `index`.
pub open spec fn row_of(width: int, index: int) -> int {
    index / width
}

impl<T> Grid<T> {
    /// Both dimensions are positive and there is one cell per coordinate.
    pub open spec fn wf(self) -> bool {
        &&& 0 < self.width
        &&& 0 < self.height
        &&& self.cells.len() == self.width * self.height
    }

    /// Whether `(x, y)` names a cell of the grid.
    pub open spec fn contains(self, x: int, y: int) -> bool {
        0 <= x < self.width && 0 <= y < self.height
    }

    /// Whether `(x, y)` lies on the outermost ring of the grid.
    pub open spec fn on_perimeter(self, x: int, y: int) -> bool {
        self.contains(x, y) && (x == 0 || y == 0 || x == self.width - 1 || y == self.height - 1)
    }

    /// Whether `(x, y)` is a cell of the grid that is not on its outermost ring.
    pub open spec fn in_interior(self, x: int, y: int) -> bool {
        0 < x < self.width - 1 && 0 < y < self.height - 1
    }

    /// The cell at column `x`, row `y`.
    pub open spec fn at(self, x: int, y: int) -> T
        recommends
            self.contains(x, y),
    {
        self.cells[index_of(self.width, x, y)]
    }

    /// The grid with the cell at column `x`, row `y` replaced by `value`.
    pub open spec fn put(self, x: int, y: int, value: T) -> Grid<T>
        recommends
            self.contains(x, y),
    {
        Grid { cells: self.cells.update(index_of(self.width, x, y), value), ..self }
    }
}

/// A coordinate inside a `width` by `height` grid has its place inside the
/// storage, and the place leads back to the coordinate.
pub proof fn lemma_index_of_coordinate(width: int, height: int, x: int, y: int)
    requires
        0 <= x < width,
        0 <= y < height,
    ensures
        0 <= index_of(width, x, y) < width * height,
        column_of(width, index_of(width, x, y)) == x,
        row_of(width, index_of(width, x, y)) == y,
{
    assert(y * width + width <= height * width) by (nonlinear_arith)
        requires
            y + 1 <= height,
            0 < width,
    ;
    assert(0 <= y * width) by (nonlinear_arith)
        requires
            0 <= y,
            0 < width,
    ;
    assert(height * width == width * height) by (nonlinear_arith);
    vstd::arithmetic::div_mod::lemma_fundamental_div_mod_converse(y * width + x, width, y, x);
}

/// A place inside the storage of a `width` by `height` grid names a
/// coordinate inside the grid, and the coordinate leads back to the place.
pub proof fn lemma_coordinate_of_index(width: int, height: int, index: int)
    requires
        0 < width,
        0 <= index < width * height,
    ensures
        0 <= column_of(width, index) < width,
        0 <= row_of(width, index) < height,
        index_of(width, column_of(width, index), row_of(width, index)) == index,
{
    vstd::arithmetic::div_mod::lemma_fundamental_div_mod(index, width);
    vstd::arithmetic::div_mod::lemma_mod_bound(index, width);
    let q = index / width;
    assert(width * q == q * width) by (nonlinear_arith);
    assert(0 <= q) by (nonlinear_arith)
        requires
            0 <= index,
            0 < width,
            q == index / width,
    ;
    if q >= height {
        assert(q * width >= height * width) by (nonlinear_arith)
            requires
                q >= height,
                0 < width,
        ;
        assert(height * width == width * height) by (nonlinear_arith);
    }
}

} // verus!
