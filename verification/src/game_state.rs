//! A board of positioned cells, and its traversal.

use crate::matrix_2d::Matrix2D;
use crate::point_2d::Point2D;
use crate::ConstructionError;
use vstd::prelude::*;

pub use crate::Direction;

verus! {

/// A cell that knows its own position on the board.
#[derive(Debug, Copy, Clone)]
pub struct Cell {
    pub pos: Point2D<i32>,
}

/// The position of a cell that has not been placed on a board.
pub open spec fn unplaced() -> Point2D<i32> {
    Point2D { x: -1i32, y: -1i32 }
}

impl Default for Cell {
    /// A cell that has not been placed: its position is `(-1, -1)`.
    fn default() -> (cell: Cell)
        ensures
            cell.pos == unplaced(),
    {
        Cell { pos: Point2D::new(-1, -1) }
    }
}

/// One entry of a traversal: a cell of the board and its storage place.
pub struct CellContext<'a> {
    pub cell_index: usize,
    pub cell: &'a Cell,
}

/// A board of positioned cells.
pub struct GameStateX {
    pub board: Matrix2D<Cell>,
}

impl GameStateX {
    /// The state's invariant: its board is a matrix.
    pub open spec fn wf(&self) -> bool {
        self.board.wf()
    }

    /// A board of the given size on which no cell has been placed yet. It
    /// fails exactly when a dimension is not positive.
    pub fn new(board_size: Point2D<i32>) -> (made: Result<GameStateX, ConstructionError>)
        requires
            board_size.x > 0 && board_size.y > 0 ==> board_size.x * board_size.y <= usize::MAX,
        ensures
            match made {
                Ok(state) => {
                    &&& board_size.x > 0 && board_size.y > 0
                    &&& state.wf()
                    &&& state.board@.width == board_size.x
                    &&& state.board@.height == board_size.y
                    &&& forall|i: int|
                        0 <= i < state.board@.cells.len() ==> (#[trigger] state.board@.cells[i]).pos
                            == unplaced()
                },
                Err(e) => {
                    &&& board_size.x <= 0 || board_size.y <= 0
                    &&& e == ConstructionError::InvalidDimensions
                },
            },
    {
        match Matrix2D::new(&board_size) {
            Ok(board) => Ok(GameStateX { board }),
            Err(e) => Err(e),
        }
    }

    /// A traversal of the board, from the first cell on.
    pub fn iter_cell_mut(&mut self) -> (cells: CellIterator<'_>)
        ensures
            cells.remaining() == old(self).board@.cells,
            cells.position() == 0,
            *final(self) == *old(self),
    {
        CellIterator::new(self)
    }
}

/// A traversal of a board's cells in storage order.
pub struct CellIterator<'a> {
    game: &'a GameStateX,
    index: usize,
}

impl<'a> CellIterator<'a> {
    /// The cells still to come, next one first.
    pub closed spec fn remaining(&self) -> Seq<Cell> {
        if self.index <= self.game.board@.cells.len() {
            self.game.board@.cells.skip(self.index as int)
        } else {
            Seq::empty()
        }
    }

    /// The storage place of the next cell.
    pub closed spec fn position(&self) -> nat {
        self.index as nat
    }

    /// A traversal of `game`'s board, from the first cell on.
    pub fn new(game: &'a GameStateX) -> (cells: Self)
        ensures
            cells.remaining() == game.board@.cells,
            cells.position() == 0,
    {
        CellIterator { game, index: 0 }
    }

    /// The next cell with its storage place, or `None` at the end of the
    /// board.
    pub fn next(&mut self) -> (item: Option<CellContext<'a>>)
        ensures
            old(self).remaining().len() == 0 ==> {
                &&& item is None
                &&& *final(self) == *old(self)
            },
            old(self).remaining().len() > 0 ==> {
                &&& item matches Some(entry)
                &&& entry.cell_index == old(self).position()
                &&& *entry.cell == old(self).remaining()[0]
                &&& final(self).remaining() == old(self).remaining().skip(1)
                &&& final(self).position() == old(self).position() + 1
            },
    {
        let index = self.index;
        match self.game.board.get(index) {
            Some(cell) => {
                proof {
                    self.game.board.lemma_len_fits();
                }
                self.index = index + 1;
                proof {
                    assert(self.remaining() =~= old(self).remaining().skip(1));
                }
                Some(CellContext { cell_index: index, cell })
            },
            None => None,
        }
    }
}

} // verus!
