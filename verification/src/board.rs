//! The playfield: a bordered grid of cells.

use crate::grid::{
    column_of, index_of, lemma_coordinate_of_index, lemma_index_of_coordinate, row_of, Grid,
};
use crate::matrix_2d::Matrix2D;
use crate::point_2d::Point2D;
use crate::{CellType, ConstructionError, SnakeBodyPart};
use vstd::prelude::*;

verus! {

/// The smallest width and the smallest height of a board.
pub const MIN_SIDE: usize = 5;

/// Border cells are the cells of the outermost ring, and no others.
pub open spec fn framed(g: Grid<CellType>) -> bool {
    forall|x: int, y: int|
        g.contains(x, y) ==> ((#[trigger] g.at(x, y)) is Border <==> g.on_perimeter(x, y))
}

/// A grid that can be a board: at least five cells wide and high, framed by
/// border cells, and small enough to be stored and addressed.
pub open spec fn board_wf(g: Grid<CellType>) -> bool {
    &&& g.wf()
    &&& MIN_SIDE <= g.width <= i32::MAX
    &&& MIN_SIDE <= g.height <= i32::MAX
    &&& g.cells.len() <= usize::MAX
    &&& framed(g)
}

/// What a fresh board of the given size holds at `(x, y)`: border on the
/// outermost ring, the snake's head in the center, nothing elsewhere.
pub open spec fn initial_cell(width: int, height: int, x: int, y: int) -> CellType {
    if x == 0 || y == 0 || x == width - 1 || y == height - 1 {
        CellType::Border
    } else if x == width / 2 && y == height / 2 {
        CellType::Snake(SnakeBodyPart::Head(1))
    } else {
        CellType::Empty
    }
}

/// The fresh board of the given size.
pub open spec fn initial_grid(width: int, height: int) -> Grid<CellType> {
    Grid {
        width,
        height,
        cells: Seq::new(
            (width * height) as nat,
            |i: int| initial_cell(width, height, column_of(width, i), row_of(width, i)),
        ),
    }
}

/// Whether `set` may write `kind` at `(x, y)`: the cell is inside the
/// border ring and `kind` is not a border.
pub open spec fn writable(g: Grid<CellType>, x: int, y: int, kind: CellType) -> bool {
    g.in_interior(x, y) && !(kind is Border)
}

/// The number of empty cells among the first `end` cells.
pub open spec fn empty_before(cells: Seq<CellType>, end: int) -> nat
    decreases end,
{
    if end <= 0 {
        0
    } else {
        empty_before(cells, end - 1) + if cells[end - 1] is Empty {
            1nat
        } else {
            0nat
        }
    }
}

/// The number of empty cells.
pub open spec fn empty_count(cells: Seq<CellType>) -> nat {
    empty_before(cells, cells.len() as int)
}

/// Whether `index` is the place of the empty cell that exactly `n` empty
/// cells precede.
pub open spec fn is_nth_empty(cells: Seq<CellType>, n: nat, index: int) -> bool {
    &&& 0 <= index < cells.len()
    &&& cells[index] is Empty
    &&& empty_before(cells, index) == n
}

/// The place of the empty cell that exactly `n` empty cells precede.
pub open spec fn nth_empty(cells: Seq<CellType>, n: nat) -> int
    recommends
        n < empty_count(cells),
{
    choose|index: int| is_nth_empty(cells, n, index)
}

/// The count of empty cells never shrinks as more cells are taken in, and
/// it grows past an empty cell.
pub proof fn lemma_empty_before_grows(cells: Seq<CellType>, low: int, high: int)
    requires
        0 <= low <= high,
    ensures
        empty_before(cells, low) <= empty_before(cells, high),
        low < high && cells[low] is Empty ==> empty_before(cells, low) < empty_before(cells, high),
    decreases high - low,
{
    if low < high {
        lemma_empty_before_grows(cells, low, high - 1);
    }
}

/// At most one place is that of the `n`-th empty cell, so `nth_empty` names
/// it wherever there is one.
pub proof fn lemma_nth_empty_is_unique(cells: Seq<CellType>, n: nat, index: int)
    requires
        is_nth_empty(cells, n, index),
    ensures
        nth_empty(cells, n) == index,
{
    let other = nth_empty(cells, n);
    assert(is_nth_empty(cells, n, other));
    if other < index {
        lemma_empty_before_grows(cells, other, index);
    } else if index < other {
        lemma_empty_before_grows(cells, index, other);
    }
}

/// Where the first `end` cells hold more than `n` empty cells, one of them
/// is the empty cell that exactly `n` empty cells precede.
proof fn lemma_nth_empty_before(cells: Seq<CellType>, n: nat, end: int)
    requires
        0 <= end <= cells.len(),
        n < empty_before(cells, end),
    ensures
        exists|index: int| index < end && is_nth_empty(cells, n, index),
    decreases end,
{
    if cells[end - 1] is Empty && empty_before(cells, end - 1) == n {
        assert(is_nth_empty(cells, n, end - 1));
    } else {
        lemma_nth_empty_before(cells, n, end - 1);
    }
}

/// Where there are more than `n` empty cells, `nth_empty` names the empty
/// cell that exactly `n` empty cells precede.
pub proof fn lemma_nth_empty_exists(cells: Seq<CellType>, n: nat)
    requires
        n < empty_count(cells),
    ensures
        is_nth_empty(cells, n, nth_empty(cells, n)),
{
    lemma_nth_empty_before(cells, n, cells.len() as int);
}

/// The fresh board of a size of at least five by five is a board.
pub proof fn lemma_initial_grid_is_board(width: int, height: int)
    requires
        MIN_SIDE <= width <= i32::MAX,
        MIN_SIDE <= height <= i32::MAX,
        width * height <= usize::MAX,
    ensures
        board_wf(initial_grid(width, height)),
{
    let g = initial_grid(width, height);
    assert(0 <= width * height) by (nonlinear_arith)
        requires
            0 <= width,
            0 <= height,
    ;
    assert forall|x: int, y: int| g.contains(x, y) implies ((#[trigger] g.at(x, y)) is Border
        <==> g.on_perimeter(x, y)) by {
        lemma_index_of_coordinate(width, height, x, y);
    }
}

/// The bordered playfield. It keeps its size for life, and its border ring
/// never changes.
pub struct Board {
    cells: Matrix2D<CellType>,
}

impl View for Board {
    type V = Grid<CellType>;

    closed spec fn view(&self) -> Grid<CellType> {
        self.cells@
    }
}

impl Board {
    /// The board's invariant.
    pub open spec fn wf(&self) -> bool {
        board_wf(self@)
    }

    /// A fresh board: border cells on the outermost ring, the snake's head
    /// `Snake(Head(1))` at `(width / 2, height / 2)`, and empty cells
    /// elsewhere. It fails exactly when a side is shorter than five cells.
    pub fn construct(width: usize, height: usize) -> (made: Result<Board, ConstructionError>)
        requires
            width >= MIN_SIDE && height >= MIN_SIDE ==> width <= i32::MAX && height <= i32::MAX
                && width * height <= usize::MAX,
        ensures
            match made {
                Ok(board) => {
                    &&& width >= MIN_SIDE && height >= MIN_SIDE
                    &&& board.wf()
                    &&& board@ == initial_grid(width as int, height as int)
                },
                Err(e) => {
                    &&& width < MIN_SIDE || height < MIN_SIDE
                    &&& e == ConstructionError::InvalidDimensions
                },
            },
    {
        if width < MIN_SIDE || height < MIN_SIDE {
            return Err(ConstructionError::InvalidDimensions);
        }
        let size = Point2D::new(width as i32, height as i32);
        let mut cells = match Matrix2D::filled(&size, CellType::Empty) {
            Ok(cells) => cells,
            Err(e) => {
                return Err(e);
            },
        };
        let total = cells.len();
        let mut i: usize = 0;
        while i < total
            invariant
                MIN_SIDE <= width <= i32::MAX,
                MIN_SIDE <= height <= i32::MAX,
                cells.wf(),
                cells@.width == width,
                cells@.height == height,
                total == cells@.cells.len(),
                i <= total,
                forall|j: int|
                    0 <= j < i ==> #[trigger] cells@.cells[j] == initial_cell(
                        width as int,
                        height as int,
                        column_of(width as int, j),
                        row_of(width as int, j),
                    ),
            decreases total - i,
        {
            let x = i % width;
            let y = i / width;
            let kind = if x == 0 || y == 0 || x == width - 1 || y == height - 1 {
                CellType::Border
            } else if x == width / 2 && y == height / 2 {
                CellType::Snake(SnakeBodyPart::Head(1))
            } else {
                CellType::Empty
            };
            match cells.get_mut(i) {
                Some(cell) => {
                    *cell = kind;
                },
                None => {},
            }
            i += 1;
        }
        let board = Board { cells };
        proof {
            lemma_initial_grid_is_board(width as int, height as int);
            assert(board@.cells =~= initial_grid(width as int, height as int).cells);
        }
        Ok(board)
    }

    /// The number of columns.
    pub fn width(&self) -> (width: usize)
        requires
            self.wf(),
        ensures
            width == self@.width,
    {
        self.cells.size().x as usize
    }

    /// The number of rows.
    pub fn height(&self) -> (height: usize)
        requires
            self.wf(),
        ensures
            height == self@.height,
    {
        self.cells.size().y as usize
    }

    /// The number of cells.
    pub fn len(&self) -> (len: usize)
        ensures
            len == self@.cells.len(),
    {
        self.cells.len()
    }

    /// The storage place `y * width + x` of the cell at `(x, y)`, or `None`
    /// where `(x, y)` is outside the board.
    pub fn index_of(&self, x: i32, y: i32) -> (index: Option<usize>)
        requires
            self.wf(),
        ensures
            self@.contains(x as int, y as int) ==> (index matches Some(i) && i == index_of(
                self@.width,
                x as int,
                y as int,
            ) && i < self@.cells.len()),
            !self@.contains(x as int, y as int) ==> index is None,
    {
        self.cells.pos_to_index(Point2D::new(x, y))
    }

    /// The coordinate `(index % width, index / width)` of the cell stored at
    /// `index`, or `None` where the board has no such place.
    pub fn coords_of(&self, index: usize) -> (pos: Option<Point2D<i32>>)
        requires
            self.wf(),
        ensures
            index < self@.cells.len() ==> (pos matches Some(p) && p.x == column_of(
                self@.width,
                index as int,
            ) && p.y == row_of(self@.width, index as int) && self@.contains(
                p.x as int,
                p.y as int,
            )),
            index >= self@.cells.len() ==> pos is None,
    {
        if index < self.cells.len() {
            let width = self.width();
            proof {
                lemma_coordinate_of_index(self@.width, self@.height, index as int);
            }
            Some(Point2D::new((index % width) as i32, (index / width) as i32))
        } else {
            None
        }
    }

    /// The cell at `(x, y)`, or `None` where `(x, y)` is outside the board.
    pub fn get(&self, x: i32, y: i32) -> (kind: Option<CellType>)
        requires
            self.wf(),
        ensures
            self@.contains(x as int, y as int) ==> kind == Some(self@.at(x as int, y as int)),
            !self@.contains(x as int, y as int) ==> kind is None,
    {
        match self.cells.get_pos(Point2D::new(x, y)) {
            Some(cell) => Some(*cell),
            None => None,
        }
    }

    /// The cell stored at `index`, or `None` where the board has no such
    /// place.
    pub fn get_index(&self, index: usize) -> (kind: Option<CellType>)
        ensures
            index < self@.cells.len() ==> kind == Some(self@.cells[index as int]),
            index >= self@.cells.len() ==> kind is None,
    {
        match self.cells.get(index) {
            Some(cell) => Some(*cell),
            None => None,
        }
    }

    /// Overwrites the cell at `(x, y)` with `kind` and says whether it did.
    /// The border ring is fixed: a write outside the board, onto the ring, or
    /// of a border cell changes nothing.
    pub fn set(&mut self, x: i32, y: i32, kind: CellType) -> (written: bool)
        requires
            old(self).wf(),
        ensures
            final(self).wf(),
            written == writable(old(self)@, x as int, y as int, kind),
            written ==> final(self)@ == old(self)@.put(x as int, y as int, kind),
            !written ==> final(self)@ == old(self)@,
    {
        let size = self.cells.size();
        if x <= 0 || y <= 0 || x >= size.x - 1 || y >= size.y - 1 {
            return false;
        }
        if let CellType::Border = kind {
            return false;
        }
        match self.cells.get_pos_mut(Point2D::new(x, y)) {
            Some(cell) => {
                *cell = kind;
            },
            None => {},
        }
        proof {
            let before = old(self)@;
            let after = self@;
            lemma_index_of_coordinate(before.width, before.height, x as int, y as int);
            assert forall|x2: int, y2: int| after.contains(x2, y2) implies ((#[trigger] after.at(
                x2,
                y2,
            )) is Border <==> after.on_perimeter(x2, y2)) by {
                lemma_index_of_coordinate(before.width, before.height, x2, y2);
                assert(before.at(x2, y2) is Border <==> before.on_perimeter(x2, y2));
            }
        }
        true
    }

    /// The number of empty cells.
    pub fn count_empty(&self) -> (count: usize)
        ensures
            count == empty_count(self@.cells),
    {
        let total = self.cells.len();
        let mut count: usize = 0;
        let mut i: usize = 0;
        while i < total
            invariant
                total == self@.cells.len(),
                i <= total,
                count == empty_before(self@.cells, i as int),
                count <= i,
            decreases total - i,
        {
            if let Some(CellType::Empty) = self.cells.get(i) {
                count += 1;
            }
            i += 1;
        }
        count
    }

    /// The storage place of the empty cell that exactly `n` empty cells
    /// precede, or `None` where the board has no more than `n` empty cells.
    pub fn find_empty(&self, n: usize) -> (index: Option<usize>)
        ensures
            n < empty_count(self@.cells) ==> (index matches Some(i) && i == nth_empty(
                self@.cells,
                n as nat,
            ) && is_nth_empty(self@.cells, n as nat, i as int)),
            n >= empty_count(self@.cells) ==> index is None,
    {
        let total = self.cells.len();
        let mut seen: usize = 0;
        let mut i: usize = 0;
        while i < total
            invariant
                total == self@.cells.len(),
                i <= total,
                seen == empty_before(self@.cells, i as int),
                seen <= n,
                seen <= i,
            decreases total - i,
        {
            if let Some(CellType::Empty) = self.cells.get(i) {
                if seen == n {
                    proof {
                        lemma_nth_empty_is_unique(self@.cells, n as nat, i as int);
                        lemma_empty_before_grows(self@.cells, i as int, total as int);
                    }
                    return Some(i);
                }
                seen += 1;
            }
            i += 1;
        }
        None
    }
}

} // verus!
