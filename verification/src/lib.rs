//! A grid-based snake simulation: a bordered board of cells, one snake that
//! moves a cell per tick, and the rules that decide growth and game over.

use crate::board::{empty_count, Board, MIN_SIDE};
use crate::grid::{column_of, index_of, lemma_coordinate_of_index, row_of};
use crate::point_2d::Point2D;
use crate::rules::{
    initial_game, lemma_initial_game_wf, lemma_moved_keeps_wf, lemma_paint_next,
    lemma_redraw_by_parts, lemma_target_is_legal, lemma_with_food, lemma_with_food_at, listing,
    next_seed, painted, GameModel, INITIAL_SEED, SEED_INCREMENT, SEED_MULTIPLIER,
};
use crate::snake::{arbitrate, Snake, SnakeModel};
use vstd::prelude::*;
use vstd::std_specs::cmp::PartialEqSpecImpl;

pub mod board;
pub mod game_state;
pub mod grid;
pub mod matrix_2d;
pub mod point_2d;
pub mod rules;
pub mod snake;

verus! {

/// A heading on the grid. `y` grows downward, so `Up` decreases `y`.
#[derive(Debug, Copy, Clone, PartialEq, Eq, Structural)]
pub enum Direction {
    Left,
    Right,
    Up,
    Down,
}

/// The part a snake segment plays, with the segment's number. Numbers count
/// from the tail, which is 1, up to the head, which carries the snake's length.
#[derive(Debug, Copy, Clone)]
pub enum SnakeBodyPart {
    Head(usize),
    Body(usize),
    Tail(usize),
}

impl SnakeBodyPart {
    /// Whether the two segments play the same part.
    pub open spec fn same_part(self, other: SnakeBodyPart) -> bool {
        ||| self is Head && other is Head
        ||| self is Body && other is Body
        ||| self is Tail && other is Tail
    }
}

impl PartialEq for SnakeBodyPart {
    /// Two segments compare equal when they play the same part; the numbers
    /// are not compared.
    fn eq(&self, other: &Self) -> (equal: bool) {
        match (self, other) {
            (SnakeBodyPart::Head(_), SnakeBodyPart::Head(_)) => true,
            (SnakeBodyPart::Body(_), SnakeBodyPart::Body(_)) => true,
            (SnakeBodyPart::Tail(_), SnakeBodyPart::Tail(_)) => true,
            _ => false,
        }
    }
}

impl PartialEqSpecImpl for SnakeBodyPart {
    open spec fn obeys_eq_spec() -> bool {
        true
    }

    open spec fn eq_spec(&self, other: &SnakeBodyPart) -> bool {
        self.same_part(*other)
    }
}

/// What occupies one position of the board.
#[derive(Debug, Copy, Clone)]
pub enum CellType {
    Empty,
    Border,
    Snake(SnakeBodyPart),
    Food,
}

impl CellType {
    /// Whether the cell holds the snake's head.
    pub open spec fn is_head(self) -> bool {
        self matches CellType::Snake(part) && part is Head
    }

    /// Whether the cell holds a segment of the snake between head and tail.
    pub open spec fn is_body(self) -> bool {
        self matches CellType::Snake(part) && part is Body
    }

    /// Whether the cell holds the snake's tail.
    pub open spec fn is_tail(self) -> bool {
        self matches CellType::Snake(part) && part is Tail
    }

    /// Whether the two cells are of the same kind. All snake cells are of
    /// one kind, whatever segment they hold.
    pub open spec fn same_kind(self, other: CellType) -> bool {
        ||| self is Empty && other is Empty
        ||| self is Border && other is Border
        ||| self is Snake && other is Snake
        ||| self is Food && other is Food
    }
}

impl PartialEq for CellType {
    /// Two cells compare equal when they are of the same kind; what a snake
    /// cell holds is not compared.
    fn eq(&self, other: &Self) -> (equal: bool) {
        match (self, other) {
            (CellType::Empty, CellType::Empty) => true,
            (CellType::Border, CellType::Border) => true,
            (CellType::Food, CellType::Food) => true,
            (CellType::Snake(_), CellType::Snake(_)) => true,
            _ => false,
        }
    }
}

impl PartialEqSpecImpl for CellType {
    open spec fn obeys_eq_spec() -> bool {
        true
    }

    open spec fn eq_spec(&self, other: &CellType) -> bool {
        self.same_kind(*other)
    }
}

/// Why a game ended.
#[derive(Debug, Copy, Clone, PartialEq, Eq, Structural)]
pub enum GameOverType {
    PlaygroundFilled,
    BorderHit,
    SelfBite,
}

/// Where a game stands. A game starts paused and never leaves `GameOver`.
#[derive(Debug, Copy, Clone, PartialEq, Eq, Structural)]
pub enum GameState {
    Paused,
    Playing,
    GameOver(GameOverType),
}

/// Why a board or a game could not be built.
#[derive(Debug, Copy, Clone, PartialEq, Eq, Structural)]
pub enum ConstructionError {
    /// The requested width or height is below the minimum.
    InvalidDimensions,
}

/// One cell as a traversal of the board reports it: where it is and what
/// it holds.
#[derive(Debug, Copy, Clone)]
pub struct Cell {
    pub pos: Point2D<i32>,
    pub cell_type: CellType,
}

/// One entry of a traversal of the board: a cell and its storage place.
#[derive(Debug, Copy, Clone)]
pub struct CellContext {
    pub cell_index: usize,
    pub cell: Cell,
}

/// The seed that follows `seed`.
fn advance_seed(seed: u64) -> (next: u64)
    ensures
        next == next_seed(seed),
{
    proof {
        let product = seed as int * SEED_MULTIPLIER as int;
        let range = 0x1_0000_0000_0000_0000int;
        assert(0 <= product) by (nonlinear_arith)
            requires
                product == seed as int * SEED_MULTIPLIER as int,
                0 <= seed as int,
                0 <= SEED_MULTIPLIER as int,
        ;
        vstd::arithmetic::div_mod::lemma_fundamental_div_mod(product, range);
        vstd::arithmetic::div_mod::lemma_mod_bound(product, range);
        let wrapped = product % range;
        let sum = wrapped + SEED_INCREMENT as int;
        if sum >= range {
            vstd::arithmetic::div_mod::lemma_fundamental_div_mod_converse(
                product + SEED_INCREMENT as int,
                range,
                product / range + 1,
                sum - range,
            );
        } else {
            vstd::arithmetic::div_mod::lemma_fundamental_div_mod_converse(
                product + SEED_INCREMENT as int,
                range,
                product / range,
                sum,
            );
        }
    }
    seed.wrapping_mul(SEED_MULTIPLIER).wrapping_add(SEED_INCREMENT)
}

/// A game of snake: the board, the snake on it, and where the game stands.
pub struct Game {
    state: GameState,
    board: Board,
    snake: Snake,
    step_count: usize,
    seed: u64,
}

impl View for Game {
    type V = GameModel;

    closed spec fn view(&self) -> GameModel {
        GameModel {
            state: self.state,
            board: self.board@,
            snake: self.snake@,
            steps: self.step_count as nat,
            seed: self.seed,
        }
    }
}

impl Game {
    /// The game's invariant.
    pub open spec fn wf(&self) -> bool {
        self@.wf()
    }

    /// A paused game on a fresh board of `cols` by `rows` cells, with a snake
    /// of one segment in the center, heading right. It fails exactly when a
    /// side is shorter than five cells.
    pub fn new(cols: usize, rows: usize) -> (made: Result<Game, ConstructionError>)
        requires
            cols >= MIN_SIDE && rows >= MIN_SIDE ==> cols <= i32::MAX && rows <= i32::MAX && cols
                * rows <= usize::MAX,
        ensures
            match made {
                Ok(game) => {
                    &&& cols >= MIN_SIDE && rows >= MIN_SIDE
                    &&& game.wf()
                    &&& game@ == initial_game(cols as int, rows as int)
                },
                Err(e) => {
                    &&& cols < MIN_SIDE || rows < MIN_SIDE
                    &&& e == ConstructionError::InvalidDimensions
                },
            },
    {
        let board = match Board::construct(cols, rows) {
            Ok(board) => board,
            Err(e) => {
                return Err(e);
            },
        };
        let start = Point2D::new((cols / 2) as i32, (rows / 2) as i32);
        let snake = Snake::new(start);
        let game = Game {
            state: GameState::Paused,
            board,
            snake,
            step_count: 0,
            seed: INITIAL_SEED,
        };
        proof {
            lemma_initial_game_wf(cols as int, rows as int);
        }
        Ok(game)
    }

    /// Where the game stands.
    pub fn state(&self) -> (state: GameState)
        ensures
            state == self@.state,
    {
        self.state
    }

    /// The board's width and height, as `x` and `y`.
    pub fn board_dimensions(&self) -> (size: Point2D<usize>)
        requires
            self.wf(),
        ensures
            size.x == self@.board.width,
            size.y == self@.board.height,
    {
        Point2D::new(self.board.width(), self.board.height())
    }

    /// The board.
    pub fn board(&self) -> (board: &Board)
        ensures
            board@ == self@.board,
    {
        &self.board
    }

    /// The snake.
    pub fn snake(&self) -> (snake: &Snake)
        ensures
            snake@ == self@.snake,
    {
        &self.snake
    }

    /// The snake's heading.
    pub fn direction(&self) -> (direction: Direction)
        ensures
            direction == self@.snake.heading,
    {
        self.snake.direction()
    }

    /// The number of the snake's segments.
    pub fn snake_length(&self) -> (length: usize)
        ensures
            length == self@.snake.body.len(),
    {
        self.snake.length()
    }

    /// The storage place of the cell that holds the snake's head.
    pub fn snake_head_index(&self) -> (index: usize)
        requires
            self.wf(),
        ensures
            index == index_of(self@.board.width, self@.head().x as int, self@.head().y as int),
            index < self@.board.cells.len(),
    {
        let head = self.snake.head();
        proof {
            assert(self@.board.in_interior(
                self@.snake.body[0].x as int,
                self@.snake.body[0].y as int,
            ));
        }
        match self.board.index_of(head.x, head.y) {
            Some(index) => index,
            None => 0,
        }
    }

    /// The number of ticks played so far.
    pub fn step_count(&self) -> (steps: usize)
        ensures
            steps == self@.steps,
    {
        self.step_count
    }

    /// The storage place `y * width + x` of the cell at `(x, y)`, or `None`
    /// where `(x, y)` is outside the board.
    pub fn get_field_index(&self, x: i32, y: i32) -> (index: Option<usize>)
        requires
            self.wf(),
        ensures
            self@.board.contains(x as int, y as int) ==> (index matches Some(i) && i == index_of(
                self@.board.width,
                x as int,
                y as int,
            ) && i < self@.board.cells.len()),
            !self@.board.contains(x as int, y as int) ==> index is None,
    {
        self.board.index_of(x, y)
    }

    /// The storage place `pos.y * width + pos.x` of the cell at `pos`, or
    /// `None` where `pos` is outside the board.
    pub fn get_index_from_point(&self, pos: Point2D<i32>) -> (index: Option<usize>)
        requires
            self.wf(),
        ensures
            self@.board.contains(pos.x as int, pos.y as int) ==> (index matches Some(i) && i
                == index_of(self@.board.width, pos.x as int, pos.y as int) && i
                < self@.board.cells.len()),
            !self@.board.contains(pos.x as int, pos.y as int) ==> index is None,
    {
        self.board.index_of(pos.x, pos.y)
    }

    /// The coordinate `(index % width, index / width)` of the cell stored at
    /// `index`, or `None` where the board has no such place.
    pub fn get_point_from_index(&self, index: usize) -> (pos: Option<Point2D<i32>>)
        requires
            self.wf(),
        ensures
            index < self@.board.cells.len() ==> (pos matches Some(p) && p.x == column_of(
                self@.board.width,
                index as int,
            ) && p.y == row_of(self@.board.width, index as int) && self@.board.contains(
                p.x as int,
                p.y as int,
            )),
            index >= self@.board.cells.len() ==> pos is None,
    {
        self.board.coords_of(index)
    }

    /// Starts a paused game, heading in `direction`. A game that is being
    /// played or is over stays as it is.
    pub fn play(&mut self, direction: Direction)
        requires
            old(self).wf(),
        ensures
            final(self).wf(),
            final(self)@ == old(self)@.played(direction),
    {
        if self.state == GameState::Paused {
            self.state = GameState::Playing;
            self.snake.face(direction);
        }
    }

    /// Asks the snake to head in `direction`. A snake longer than one cell
    /// keeps its heading where the request would reverse it; every other
    /// request is granted.
    pub fn set_movement_direction(&mut self, direction: Direction)
        requires
            old(self).wf(),
        ensures
            final(self).wf(),
            final(self)@ == (GameModel {
                snake: SnakeModel {
                    heading: arbitrate(
                        old(self)@.snake.heading,
                        direction,
                        old(self)@.snake.body.len(),
                    ),
                    ..old(self)@.snake
                },
                ..old(self)@
            }),
    {
        self.snake.set_direction(direction);
    }

    /// Replaces the seed that food positions are drawn from. Nothing else
    /// changes.
    pub fn set_seed(&mut self, seed: u64)
        ensures
            final(self)@ == (GameModel { seed, ..old(self)@ }),
    {
        self.seed = seed;
    }

    /// Puts food on the cell at `(x, y)` if that cell is empty, and says
    /// whether it did. Otherwise nothing changes.
    pub fn place_food(&mut self, x: i32, y: i32) -> (placed: bool)
        requires
            old(self).wf(),
        ensures
            final(self).wf(),
            placed == (old(self)@.board.contains(x as int, y as int) && old(self)@.board.at(
                x as int,
                y as int,
            ) is Empty),
            final(self)@ == old(self)@.with_food_at(x as int, y as int),
    {
        proof {
            lemma_with_food_at(self@, x as int, y as int);
            if self@.board.contains(x as int, y as int) {
                assert(self@.board.at(x as int, y as int) is Border <==> self@.board.on_perimeter(
                    x as int,
                    y as int,
                ));
            }
        }
        match self.board.get(x, y) {
            Some(CellType::Empty) => self.board.set(x, y, CellType::Food),
            _ => false,
        }
    }

    /// Puts food on an empty cell and says whether it did. The cell is the
    /// one that the game's seed picks among the empty cells, and the seed
    /// moves on. Where no cell is empty, nothing changes.
    pub fn spawn_food(&mut self) -> (spawned: bool)
        requires
            old(self).wf(),
        ensures
            final(self).wf(),
            spawned == (empty_count(old(self)@.board.cells) > 0),
            final(self)@ == old(self)@.with_food(),
    {
        let count = self.board.count_empty();
        if count == 0 {
            return false;
        }
        let chosen = ((self.seed / 0x1_0000_0000) as usize) % count;
        proof {
            lemma_with_food(self@);
        }
        let place = match self.board.find_empty(chosen) {
            Some(place) => place,
            None => {
                return false;
            },
        };
        let pos = match self.board.coords_of(place) {
            Some(pos) => pos,
            None => {
                return false;
            },
        };
        proof {
            lemma_coordinate_of_index(self@.board.width, self@.board.height, place as int);
            assert(self@.board.at(pos.x as int, pos.y as int) is Border <==> self@.board.on_perimeter(
                pos.x as int,
                pos.y as int,
            ));
        }
        self.board.set(pos.x, pos.y, CellType::Food);
        self.seed = advance_seed(self.seed);
        true
    }

    /// Moves the snake's head to `target`, with or without growth, and
    /// redraws the snake on the board.
    fn advance(&mut self, target: Point2D<i32>, grow: bool)
        requires
            old(self).wf(),
            old(self)@.snake.legal_destination(target, grow),
            old(self)@.board.in_interior(target.x as int, target.y as int),
        ensures
            final(self).wf(),
            final(self)@ == old(self)@.moved(target, grow),
    {
        let tail = self.snake.tail();
        proof {
            lemma_moved_keeps_wf(self@, target, grow);
            lemma_redraw_by_parts(self@, target, grow);
            assert(self@.board.in_interior(tail.x as int, tail.y as int));
        }
        self.snake.commit_move(target, grow);
        if !grow {
            self.board.set(tail.x, tail.y, CellType::Empty);
        }
        let ghost base = self.board@;
        let ghost body = self.snake@.body;
        let length = self.snake.length();
        let mut k: usize = 0;
        proof {
            assert(base == if grow {
                old(self)@.board
            } else {
                old(self)@.board.put(tail.x as int, tail.y as int, CellType::Empty)
            });
            assert(painted(base, body, 0).cells =~= base.cells);
        }
        while k < length
            invariant
                k <= length,
                length == body.len(),
                body == self.snake@.body,
                self.snake@ == old(self)@.snake.moved(target, grow),
                body.no_duplicates(),
                forall|j: int|
                    0 <= j < body.len() ==> base.in_interior(
                        (#[trigger] body[j]).x as int,
                        body[j].y as int,
                    ),
                self.board.wf(),
                base.wf(),
                base.width <= i32::MAX,
                base.height <= i32::MAX,
                self.board@ == painted(base, body, k as int),
                self.state == old(self).state,
                self.step_count == old(self).step_count,
                self.seed == old(self).seed,
            decreases length - k,
        {
            let part = if k == 0 {
                SnakeBodyPart::Head(length)
            } else if k == length - 1 {
                SnakeBodyPart::Tail(1)
            } else {
                SnakeBodyPart::Body(length - k)
            };
            if let Some(pos) = self.snake.segment(k) {
                proof {
                    lemma_paint_next(base, body, k as int);
                    assert(base.in_interior(body[k as int].x as int, body[k as int].y as int));
                }
                self.board.set(pos.x, pos.y, CellType::Snake(part));
            }
            k += 1;
        }
    }

    /// A traversal of the board as it is now, from the first cell on. The
    /// game does not change.
    pub fn cell_iter_mut(&self) -> (cells: CellIterator<'_>)
        requires
            self.wf(),
        ensures
            cells.wf(),
            cells.remaining() == listing(self@.board),
    {
        CellIterator { game: self, iter_index: 0 }
    }

    /// Plays one tick. A game that is not being played stays as it is.
    /// Otherwise the tick is counted and the cell in front of the head
    /// decides what happens: a border cell ends the game, with nothing
    /// moved; so does a segment of the snake other than its tail, which
    /// moves out of the way in the same tick; onto an empty cell the snake
    /// moves; onto food it moves and grows by one segment, and new food
    /// appears on an empty cell, or the game ends where no cell is empty.
    pub fn update_game_state(&mut self)
        requires
            old(self).wf(),
        ensures
            final(self).wf(),
            final(self)@ == old(self)@.tick(),
    {
        if self.state != GameState::Playing {
            return;
        }
        proof {
            lemma_target_is_legal(self@, self@.snake.heading);
        }
        let target = self.snake.propose_move(self.snake.direction());
        if self.step_count < usize::MAX {
            self.step_count = self.step_count + 1;
        }
        match self.board.get(target.x, target.y) {
            Some(CellType::Snake(SnakeBodyPart::Tail(_))) | Some(CellType::Empty) => {
                self.advance(target, false);
            },
            Some(CellType::Food) => {
                self.advance(target, true);
                if !self.spawn_food() {
                    self.state = GameState::GameOver(GameOverType::PlaygroundFilled);
                }
            },
            Some(CellType::Snake(_)) => {
                self.state = GameState::GameOver(GameOverType::SelfBite);
            },
            Some(CellType::Border) | None => {
                self.state = GameState::GameOver(GameOverType::BorderHit);
            },
        }
    }
}

/// A traversal of a game's board, cell by cell and row by row.
pub struct CellIterator<'a> {
    game: &'a Game,
    iter_index: usize,
}

impl<'a> CellIterator<'a> {
    /// The traversal stands on a game, at a cell of its board or at the end.
    pub closed spec fn wf(&self) -> bool {
        self.game.wf() && self.iter_index <= self.game@.board.cells.len()
    }

    /// The entries still to come, next one first.
    pub closed spec fn remaining(&self) -> Seq<CellContext> {
        listing(self.game@.board).skip(self.iter_index as int)
    }

    /// The next entry, or `None` at the end of the board.
    pub fn next(&mut self) -> (item: Option<CellContext>)
        requires
            old(self).wf(),
        ensures
            final(self).wf(),
            old(self).remaining().len() == 0 ==> {
                &&& item is None
                &&& final(self).remaining() == old(self).remaining()
            },
            old(self).remaining().len() > 0 ==> {
                &&& item == Some(old(self).remaining()[0])
                &&& final(self).remaining() == old(self).remaining().skip(1)
            },
    {
        let index = self.iter_index;
        let cell_type = match self.game.board.get_index(index) {
            Some(cell_type) => cell_type,
            None => {
                return None;
            },
        };
        let pos = match self.game.board.coords_of(index) {
            Some(pos) => pos,
            None => {
                return None;
            },
        };
        self.iter_index = index + 1;
        proof {
            assert(self.remaining() =~= old(self).remaining().skip(1));
        }
        Some(CellContext { cell_index: index, cell: Cell { pos, cell_type } })
    }
}

} // verus!
