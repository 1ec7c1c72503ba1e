//! The rules of the game, stated over mathematical models: what a game is,
//! how the board shows the snake, and what one tick does.

use crate::board::{
    board_wf, empty_count, initial_grid, lemma_initial_grid_is_board, lemma_nth_empty_exists,
    nth_empty,
};
use crate::grid::{
    column_of, index_of, lemma_coordinate_of_index, lemma_index_of_coordinate, row_of, Grid,
};
use crate::point_2d::Point2D;
use crate::snake::{advance, lemma_move_keeps_wf, step, SnakeModel};
use crate::{Cell, CellContext, CellType, Direction, GameOverType, GameState, SnakeBodyPart};
use vstd::prelude::*;

verus! {

/// The seed that a new game draws its food positions from.
pub const INITIAL_SEED: u64 = 0x853c_49e6_748f_ea9b;

/// The multiplier of the step from one seed to the next.
pub const SEED_MULTIPLIER: u64 = 6364136223846793005;

/// The increment of the step from one seed to the next.
pub const SEED_INCREMENT: u64 = 1442695040888963407;

/// The mathematical model of a game.
pub struct GameModel {
    pub state: GameState,
    pub board: Grid<CellType>,
    pub snake: SnakeModel,
    /// The number of ticks played so far.
    pub steps: nat,
    /// What the next food position is drawn from.
    pub seed: u64,
}

/// The coordinate of the cell stored at `index` in a grid of the given width.
pub open spec fn position_of(width: int, index: int) -> Point2D<i32> {
    Point2D { x: column_of(width, index) as i32, y: row_of(width, index) as i32 }
}

/// The cell of `board` at `p`.
pub open spec fn cell_at(board: Grid<CellType>, p: Point2D<i32>) -> CellType {
    board.at(p.x as int, p.y as int)
}

/// What the board shows for the segment that is `k` segments behind the
/// head of a snake of the given length: the head carries the length, the
/// last segment is the tail with number 1, and the segments between count
/// down from the head.
pub open spec fn segment_part(k: int, length: int) -> SnakeBodyPart {
    if k == 0 {
        SnakeBodyPart::Head(length as usize)
    } else if k == length - 1 {
        SnakeBodyPart::Tail(1)
    } else {
        SnakeBodyPart::Body((length - k) as usize)
    }
}

/// Whether one of the first `count` segments of `body` is at `p`.
pub open spec fn occupies(body: Seq<Point2D<i32>>, p: Point2D<i32>, count: int) -> bool {
    exists|j: int| 0 <= j < count && #[trigger] body[j] == p
}

/// Whether the board shows the snake, and nothing but the snake, as snake:
/// every segment lies inside the border ring, its cell shows its part and
/// number, and no other cell is a snake cell.
pub open spec fn shows(board: Grid<CellType>, body: Seq<Point2D<i32>>) -> bool {
    &&& forall|k: int|
        0 <= k < body.len() ==> board.in_interior(
            (#[trigger] body[k]).x as int,
            body[k].y as int,
        ) && cell_at(board, body[k]) == CellType::Snake(segment_part(k, body.len() as int))
    &&& forall|i: int|
        0 <= i < board.cells.len() && (#[trigger] board.cells[i]) is Snake ==> occupies(
            body,
            position_of(board.width, i),
            body.len() as int,
        )
}

/// The board with every snake cell emptied.
pub open spec fn erased(board: Grid<CellType>) -> Grid<CellType> {
    Grid {
        cells: Seq::new(
            board.cells.len(),
            |i: int|
                if board.cells[i] is Snake {
                    CellType::Empty
                } else {
                    board.cells[i]
                },
        ),
        ..board
    }
}

/// The board with the first `count` segments of `body` drawn over it, each
/// with its part and number.
pub open spec fn painted(board: Grid<CellType>, body: Seq<Point2D<i32>>, count: int) -> Grid<
    CellType,
> {
    Grid {
        cells: Seq::new(
            board.cells.len(),
            |i: int|
                if occupies(body, position_of(board.width, i), count) {
                    CellType::Snake(
                        segment_part(body.index_of(position_of(board.width, i)), body.len() as int),
                    )
                } else {
                    board.cells[i]
                },
        ),
        ..board
    }
}

/// The board after the snake has moved: the old snake is wiped off, and the
/// snake is drawn where it is now.
pub open spec fn redrawn(board: Grid<CellType>, body: Seq<Point2D<i32>>) -> Grid<CellType> {
    painted(erased(board), body, body.len() as int)
}

/// The seed that follows `seed`.
pub open spec fn next_seed(seed: u64) -> u64 {
    ((seed * SEED_MULTIPLIER + SEED_INCREMENT) % 0x1_0000_0000_0000_0000) as u64
}

/// Which of `count` empty cells, counted row by row, a game with the given
/// seed puts its next food on.
pub open spec fn pick(seed: u64, count: nat) -> nat
    recommends
        count > 0,
{
    (((seed / 0x1_0000_0000) as int) % (count as int)) as nat
}

/// The number of ticks after one more tick. The count stops at the largest
/// number it can hold.
pub open spec fn next_steps(steps: nat) -> nat {
    if steps < usize::MAX {
        steps + 1
    } else {
        steps
    }
}

impl GameModel {
    /// A game's invariant: a board, a snake, and the board shows the snake.
    pub open spec fn wf(self) -> bool {
        &&& board_wf(self.board)
        &&& self.snake.wf()
        &&& shows(self.board, self.snake.body)
        &&& self.steps <= usize::MAX
    }

    /// The position of the snake's head.
    pub open spec fn head(self) -> Point2D<i32> {
        self.snake.body[0]
    }

    /// The game with food on the cell at `(x, y)` if that cell is empty; the
    /// unchanged game otherwise.
    pub open spec fn with_food_at(self, x: int, y: int) -> GameModel {
        if self.board.contains(x, y) && self.board.at(x, y) is Empty {
            GameModel { board: self.board.put(x, y, CellType::Food), ..self }
        } else {
            self
        }
    }

    /// The game with food on the empty cell that its seed picks, and with the
    /// next seed; the unchanged game where no cell is empty.
    pub open spec fn with_food(self) -> GameModel {
        let count = empty_count(self.board.cells);
        if count == 0 {
            self
        } else {
            GameModel {
                board: Grid {
                    cells: self.board.cells.update(
                        nth_empty(self.board.cells, pick(self.seed, count)),
                        CellType::Food,
                    ),
                    ..self.board
                },
                seed: next_seed(self.seed),
                ..self
            }
        }
    }

    /// The game after the snake's head has moved to `target`.
    pub open spec fn moved(self, target: Point2D<i32>, grow: bool) -> GameModel {
        let snake = self.snake.moved(target, grow);
        GameModel { snake, board: redrawn(self.board, snake.body), ..self }
    }

    /// The game after the snake has eaten: new food where a cell is empty,
    /// and the end of the game where the playground is full.
    pub open spec fn fed(self) -> GameModel {
        if empty_count(self.board.cells) == 0 {
            GameModel { state: GameState::GameOver(GameOverType::PlaygroundFilled), ..self }
        } else {
            self.with_food()
        }
    }

    /// The game after one tick. A game that is not being played stays as it
    /// is. Otherwise the tick is counted, and the cell in front of the head
    /// decides: a border ends the game, and so does a segment of the snake
    /// other than its tail, which moves out of the way; on an empty cell the
    /// snake moves; on food it moves and grows, and new food appears.
    pub open spec fn tick(self) -> GameModel {
        if self.state != GameState::Playing {
            self
        } else {
            let target = step(self.head(), self.snake.heading);
            let counted = GameModel { steps: next_steps(self.steps), ..self };
            match cell_at(self.board, target) {
                CellType::Border => GameModel {
                    state: GameState::GameOver(GameOverType::BorderHit),
                    ..counted
                },
                CellType::Snake(SnakeBodyPart::Tail(_)) => counted.moved(target, false),
                CellType::Snake(_) => GameModel {
                    state: GameState::GameOver(GameOverType::SelfBite),
                    ..counted
                },
                CellType::Empty => counted.moved(target, false),
                CellType::Food => counted.moved(target, true).fed(),
            }
        }
    }

    /// The game after `play(direction)`: a paused game is being played and
    /// heads in `direction`; any other game stays as it is.
    pub open spec fn played(self, direction: Direction) -> GameModel {
        if self.state == GameState::Paused {
            GameModel {
                state: GameState::Playing,
                snake: SnakeModel { heading: direction, ..self.snake },
                ..self
            }
        } else {
            self
        }
    }
}

/// What a traversal of the board reports: one entry per cell, row by row,
/// each with the cell's storage place, its coordinate and what it holds.
pub open spec fn listing(board: Grid<CellType>) -> Seq<CellContext> {
    Seq::new(
        board.cells.len(),
        |i: int|
            CellContext {
                cell_index: i as usize,
                cell: Cell { pos: position_of(board.width, i), cell_type: board.cells[i] },
            },
    )
}

/// The game that `new` makes on a board of the given size: paused, with a
/// snake of one segment in the center of a fresh board, heading right.
pub open spec fn initial_game(width: int, height: int) -> GameModel {
    GameModel {
        state: GameState::Paused,
        board: initial_grid(width, height),
        snake: SnakeModel {
            body: seq![Point2D { x: (width / 2) as i32, y: (height / 2) as i32 }],
            heading: Direction::Right,
        },
        steps: 0,
        seed: INITIAL_SEED,
    }
}

/// The game that `new` makes is a game.
pub proof fn lemma_initial_game_wf(width: int, height: int)
    requires
        5 <= width <= i32::MAX,
        5 <= height <= i32::MAX,
        width * height <= usize::MAX,
    ensures
        initial_game(width, height).wf(),
{
    let game = initial_game(width, height);
    lemma_initial_grid_is_board(width, height);
    lemma_index_of_coordinate(width, height, width / 2, height / 2);
    assert forall|i: int| 0 <= i < game.board.cells.len() && (#[trigger] game.board.cells[i])
        is Snake implies occupies(
        game.snake.body,
        position_of(game.board.width, i),
        game.snake.body.len() as int,
    ) by {
        lemma_coordinate_of_index(width, height, i);
        assert(game.snake.body[0] == position_of(width, i));
    }
}

/// In a sequence without duplicates, the place of an entry is the place
/// where it stands.
pub proof fn lemma_segment_index(body: Seq<Point2D<i32>>, j: int)
    requires
        body.no_duplicates(),
        0 <= j < body.len(),
    ensures
        body.index_of(body[j]) == j,
{
    let i = body.index_of(body[j]);
    assert(0 <= i < body.len() && body[i] == body[j]);
}

/// The cell of a board at a position stands at that position's place, and
/// the place leads back to the position.
pub proof fn lemma_position_of_place(board: Grid<CellType>, p: Point2D<i32>)
    requires
        board.wf(),
        board.contains(p.x as int, p.y as int),
    ensures
        0 <= index_of(board.width, p.x as int, p.y as int) < board.cells.len(),
        position_of(board.width, index_of(board.width, p.x as int, p.y as int)) == p,
{
    lemma_index_of_coordinate(board.width, board.height, p.x as int, p.y as int);
}

/// A board on which a snake is redrawn is a board that shows that snake.
/// Every cell that the snake does not occupy is as it was, or empty where
/// it was a snake cell.
pub proof fn lemma_redrawn_shows(board: Grid<CellType>, body: Seq<Point2D<i32>>)
    requires
        board_wf(board),
        body.no_duplicates(),
        forall|k: int|
            0 <= k < body.len() ==> board.in_interior(
                (#[trigger] body[k]).x as int,
                body[k].y as int,
            ),
    ensures
        board_wf(redrawn(board, body)),
        shows(redrawn(board, body), body),
{
    let after = redrawn(board, body);
    let length = body.len() as int;
    assert forall|k: int| 0 <= k < body.len() implies board.in_interior(
        (#[trigger] body[k]).x as int,
        body[k].y as int,
    ) && cell_at(after, body[k]) == CellType::Snake(segment_part(k, length)) by {
        lemma_position_of_place(board, body[k]);
        lemma_segment_index(body, k);
        assert(occupies(body, body[k], length));
    }
    assert forall|x: int, y: int| after.contains(x, y) implies ((#[trigger] after.at(x, y)) is Border
        <==> after.on_perimeter(x, y)) by {
        lemma_index_of_coordinate(board.width, board.height, x, y);
        let i = index_of(board.width, x, y);
        let p = position_of(board.width, i);
        assert(board.at(x, y) is Border <==> board.on_perimeter(x, y));
        if occupies(body, p, length) {
            let j = choose|j: int| 0 <= j < length && #[trigger] body[j] == p;
            assert(board.in_interior(body[j].x as int, body[j].y as int));
        }
    }
}

/// Drawing one more segment over a board on which the segments before it
/// are drawn is writing that segment's cell.
pub proof fn lemma_paint_next(board: Grid<CellType>, body: Seq<Point2D<i32>>, k: int)
    requires
        board.wf(),
        board.width <= i32::MAX,
        board.height <= i32::MAX,
        body.no_duplicates(),
        0 <= k < body.len(),
        board.contains(body[k].x as int, body[k].y as int),
    ensures
        painted(board, body, k + 1) == painted(board, body, k).put(
            body[k].x as int,
            body[k].y as int,
            CellType::Snake(segment_part(k, body.len() as int)),
        ),
{
    let before = painted(board, body, k);
    let after = painted(board, body, k + 1);
    let place = index_of(board.width, body[k].x as int, body[k].y as int);
    let written = before.put(
        body[k].x as int,
        body[k].y as int,
        CellType::Snake(segment_part(k, body.len() as int)),
    );
    lemma_position_of_place(board, body[k]);
    lemma_segment_index(body, k);
    assert forall|i: int| 0 <= i < board.cells.len() implies after.cells[i] == written.cells[i] by {
        let p = position_of(board.width, i);
        lemma_coordinate_of_index(board.width, board.height, i);
        if i == place {
            assert(occupies(body, p, k + 1));
        } else {
            assert(p != body[k]);
            if occupies(body, p, k + 1) {
                let j = choose|j: int| 0 <= j < k + 1 && #[trigger] body[j] == p;
                assert(occupies(body, p, k));
            }
            if occupies(body, p, k) {
                let j = choose|j: int| 0 <= j < k && #[trigger] body[j] == p;
                assert(occupies(body, p, k + 1));
            }
        }
    }
    assert(after.cells =~= written.cells);
}

/// The cell in front of the head is on the board. Where it is empty or
/// holds food, the snake may move there, growing or not; where it holds the
/// snake's tail, the snake may move there without growing.
pub proof fn lemma_target_is_legal(game: GameModel, direction: Direction)
    requires
        game.wf(),
    ensures
        ({
            let target = step(game.head(), direction);
            let kind = cell_at(game.board, target);
            &&& game.board.contains(target.x as int, target.y as int)
            &&& !(kind is Border) ==> game.board.in_interior(target.x as int, target.y as int)
            &&& kind is Empty || kind is Food ==> game.snake.legal_destination(target, true)
                && game.snake.legal_destination(target, false)
            &&& kind.is_tail() ==> game.snake.legal_destination(target, false)
        }),
{
    let target = step(game.head(), direction);
    let kind = cell_at(game.board, target);
    let body = game.snake.body;
    assert(game.board.in_interior(body[0].x as int, body[0].y as int));
    assert(game.board.contains(target.x as int, target.y as int));
    assert(game.board.at(target.x as int, target.y as int) is Border <==> game.board.on_perimeter(
        target.x as int,
        target.y as int,
    ));
    assert forall|k: int| 0 <= k < body.len() && #[trigger] body[k] == target implies kind
        == CellType::Snake(segment_part(k, body.len() as int)) by {}
}

/// A move to a legal destination inside the border ring yields a game.
pub proof fn lemma_moved_keeps_wf(game: GameModel, target: Point2D<i32>, grow: bool)
    requires
        game.wf(),
        game.snake.legal_destination(target, grow),
        game.board.in_interior(target.x as int, target.y as int),
    ensures
        game.moved(target, grow).wf(),
{
    let snake = game.snake.moved(target, grow);
    lemma_move_keeps_wf(game.snake, target, grow);
    assert forall|k: int| 0 <= k < snake.body.len() implies game.board.in_interior(
        (#[trigger] snake.body[k]).x as int,
        snake.body[k].y as int,
    ) by {
        if k > 0 {
            assert(snake.body[k] == game.snake.body[k - 1]);
        }
    }
    lemma_redrawn_shows(game.board, snake.body);
}

/// Emptying the cell that the tail leaves, unless the snake grows, and then
/// drawing the snake where it is after its move, redraws the board.
pub proof fn lemma_redraw_by_parts(game: GameModel, target: Point2D<i32>, grow: bool)
    requires
        game.wf(),
        game.snake.legal_destination(target, grow),
        game.board.in_interior(target.x as int, target.y as int),
    ensures
        ({
            let body = advance(game.snake.body, target, grow);
            let tail = game.snake.body.last();
            let base = if grow {
                game.board
            } else {
                game.board.put(tail.x as int, tail.y as int, CellType::Empty)
            };
            painted(base, body, body.len() as int) == redrawn(game.board, body)
        }),
{
    let board = game.board;
    let old_body = game.snake.body;
    let body = advance(old_body, target, grow);
    let tail = old_body.last();
    let base = if grow {
        board
    } else {
        board.put(tail.x as int, tail.y as int, CellType::Empty)
    };
    let drawn = painted(base, body, body.len() as int);
    let wanted = redrawn(board, body);
    let tail_place = index_of(board.width, tail.x as int, tail.y as int);
    lemma_position_of_place(board, tail);
    assert(cell_at(board, tail) is Snake);
    assert forall|i: int| 0 <= i < board.cells.len() implies drawn.cells[i] == wanted.cells[i] by {
        let p = position_of(board.width, i);
        lemma_coordinate_of_index(board.width, board.height, i);
        if !occupies(body, p, body.len() as int) {
            if board.cells[i] is Snake {
                let k = choose|k: int| 0 <= k < old_body.len() && #[trigger] old_body[k] == p;
                if grow || k < old_body.len() - 1 {
                    assert(body[k + 1] == p);
                }
            }
        }
    }
    assert(drawn.cells =~= wanted.cells);
}

/// Food on an empty cell leaves a game a game.
pub proof fn lemma_food_keeps_wf(game: GameModel, index: int, seed: u64)
    requires
        game.wf(),
        0 <= index < game.board.cells.len(),
        game.board.cells[index] is Empty,
    ensures
        (GameModel {
            board: Grid { cells: game.board.cells.update(index, CellType::Food), ..game.board },
            seed,
            ..game
        }).wf(),
{
    let board = game.board;
    let after = Grid { cells: board.cells.update(index, CellType::Food), ..board };
    let body = game.snake.body;
    assert forall|x: int, y: int| after.contains(x, y) implies ((#[trigger] after.at(x, y)) is Border
        <==> after.on_perimeter(x, y)) by {
        lemma_index_of_coordinate(board.width, board.height, x, y);
        assert(board.at(x, y) is Border <==> board.on_perimeter(x, y));
    }
    assert forall|k: int| 0 <= k < body.len() implies board.in_interior(
        (#[trigger] body[k]).x as int,
        body[k].y as int,
    ) && cell_at(after, body[k]) == CellType::Snake(segment_part(k, body.len() as int)) by {
        lemma_position_of_place(board, body[k]);
        assert(cell_at(board, body[k]) == CellType::Snake(segment_part(k, body.len() as int)));
    }
    assert forall|i: int| 0 <= i < after.cells.len() && (#[trigger] after.cells[i]) is Snake implies occupies(
        body,
        position_of(after.width, i),
        body.len() as int,
    ) by {
        assert(board.cells[i] is Snake);
    }
}

/// New food leaves a game a game. Where a cell is empty, the food is on a
/// cell that was empty, and no other cell changes.
pub proof fn lemma_with_food(game: GameModel)
    requires
        game.wf(),
    ensures
        game.with_food().wf(),
        empty_count(game.board.cells) > 0 ==> ({
            let place = nth_empty(
                game.board.cells,
                pick(game.seed, empty_count(game.board.cells)),
            );
            &&& 0 <= place < game.board.cells.len()
            &&& game.board.cells[place] is Empty
            &&& game.with_food().board.cells == game.board.cells.update(place, CellType::Food)
        }),
{
    let count = empty_count(game.board.cells);
    if count > 0 {
        let n = pick(game.seed, count);
        assert(n < count) by {
            vstd::arithmetic::div_mod::lemma_mod_bound(
                (game.seed / 0x1_0000_0000) as int,
                count as int,
            );
        }
        lemma_nth_empty_exists(game.board.cells, n);
        lemma_food_keeps_wf(game, nth_empty(game.board.cells, n), next_seed(game.seed));
    }
}

/// Food put on a cell by hand leaves a game a game.
pub proof fn lemma_with_food_at(game: GameModel, x: int, y: int)
    requires
        game.wf(),
    ensures
        game.with_food_at(x, y).wf(),
{
    if game.board.contains(x, y) && game.board.at(x, y) is Empty {
        lemma_index_of_coordinate(game.board.width, game.board.height, x, y);
        lemma_food_keeps_wf(game, index_of(game.board.width, x, y), game.seed);
    }
}

/// A tick keeps the board's size.
proof fn lemma_tick_keeps_size(game: GameModel)
    requires
        game.wf(),
    ensures
        game.tick().board.width == game.board.width,
        game.tick().board.height == game.board.height,
        game.tick().board.cells.len() == game.board.cells.len(),
{
    if game.state == GameState::Playing {
        let target = step(game.head(), game.snake.heading);
        let counted = GameModel { steps: next_steps(game.steps), ..game };
        if cell_at(game.board, target) is Food {
            lemma_target_is_legal(counted, game.snake.heading);
            lemma_moved_keeps_wf(counted, target, true);
            lemma_with_food(counted.moved(target, true));
        }
    }
}

/// Every tick takes a game to a game: the border stays where it is, the
/// snake stays in one piece inside it, and the board shows the snake.
pub proof fn lemma_tick_keeps_wf(game: GameModel)
    requires
        game.wf(),
    ensures
        game.tick().wf(),
        game.tick().board.width == game.board.width,
        game.tick().board.height == game.board.height,
        forall|x: int, y: int|
            game.board.contains(x, y) ==> ((#[trigger] game.tick().board.at(x, y)) is Border
                <==> game.board.at(x, y) is Border),
{
    lemma_tick_keeps_size(game);
    if game.state == GameState::Playing {
        let target = step(game.head(), game.snake.heading);
        let counted = GameModel { steps: next_steps(game.steps), ..game };
        lemma_target_is_legal(counted, game.snake.heading);
        match cell_at(game.board, target) {
            CellType::Border => {},
            CellType::Snake(SnakeBodyPart::Tail(_)) => {
                lemma_moved_keeps_wf(counted, target, false);
            },
            CellType::Snake(_) => {},
            CellType::Empty => {
                lemma_moved_keeps_wf(counted, target, false);
            },
            CellType::Food => {
                lemma_moved_keeps_wf(counted, target, true);
                lemma_with_food(counted.moved(target, true));
            },
        }
    }
    let after = game.tick().board;
    assert forall|x: int, y: int| game.board.contains(x, y) implies ((#[trigger] after.at(
        x,
        y,
    )) is Border <==> game.board.at(x, y) is Border) by {
        assert(after.contains(x, y));
        assert(after.at(x, y) is Border <==> after.on_perimeter(x, y));
        assert(game.board.at(x, y) is Border <==> game.board.on_perimeter(x, y));
    }
}

/// On a fresh board of at least five by five cells, the border cells are
/// the cells of the first and last row and of the first and last column,
/// and no others.
pub proof fn lemma_fresh_board_border(width: int, height: int)
    requires
        5 <= width <= i32::MAX,
        5 <= height <= i32::MAX,
        width * height <= usize::MAX,
    ensures
        forall|x: int, y: int|
            0 <= x < width && 0 <= y < height ==> ((#[trigger] initial_grid(width, height).at(
                x,
                y,
            )) is Border <==> (x == 0 || y == 0 || x == width - 1 || y == height - 1)),
{
    lemma_initial_grid_is_board(width, height);
    let board = initial_grid(width, height);
    assert forall|x: int, y: int| 0 <= x < width && 0 <= y < height implies ((#[trigger] board.at(
        x,
        y,
    )) is Border <==> (x == 0 || y == 0 || x == width - 1 || y == height - 1)) by {
        assert(board.contains(x, y));
        assert(board.at(x, y) is Border <==> board.on_perimeter(x, y));
    }
}

/// A new game has a snake of one segment. Its head is at
/// `(width / 2, height / 2)`, that cell shows `Snake(Head(1))`, and no
/// other cell of the board is a snake cell.
pub proof fn lemma_fresh_game_has_one_head(width: int, height: int)
    requires
        5 <= width <= i32::MAX,
        5 <= height <= i32::MAX,
        width * height <= usize::MAX,
    ensures
        initial_game(width, height).snake.body.len() == 1,
        initial_game(width, height).head() == (Point2D {
            x: (width / 2) as i32,
            y: (height / 2) as i32,
        }),
        initial_grid(width, height).at(width / 2, height / 2) == CellType::Snake(
            SnakeBodyPart::Head(1),
        ),
        forall|x: int, y: int|
            0 <= x < width && 0 <= y < height ==> ((#[trigger] initial_grid(width, height).at(
                x,
                y,
            )) is Snake <==> (x == width / 2 && y == height / 2)),
{
    let board = initial_grid(width, height);
    assert(0 <= width * height) by (nonlinear_arith)
        requires
            0 <= width,
            0 <= height,
    ;
    lemma_index_of_coordinate(width, height, width / 2, height / 2);
    assert forall|x: int, y: int| 0 <= x < width && 0 <= y < height implies ((#[trigger] board.at(
        x,
        y,
    )) is Snake <==> (x == width / 2 && y == height / 2)) by {
        lemma_index_of_coordinate(width, height, x, y);
    }
}

/// In every game exactly one cell shows the snake's head: the cell at the
/// head's position, and it carries the snake's length.
pub proof fn lemma_one_head(game: GameModel)
    requires
        game.wf(),
    ensures
        cell_at(game.board, game.head()) == CellType::Snake(
            SnakeBodyPart::Head(game.snake.body.len() as usize),
        ),
        forall|i: int|
            0 <= i < game.board.cells.len() && (#[trigger] game.board.cells[i]).is_head()
                ==> position_of(game.board.width, i) == game.head(),
{
    let board = game.board;
    let body = game.snake.body;
    assert(cell_at(board, body[0]) == CellType::Snake(segment_part(0, body.len() as int)));
    assert forall|i: int|
        0 <= i < board.cells.len() && (#[trigger] board.cells[i]).is_head() implies position_of(
        board.width,
        i,
    ) == game.head() by {
        let p = position_of(board.width, i);
        assert(board.cells[i] is Snake);
        assert(occupies(body, p, body.len() as int));
        let k = choose|k: int| 0 <= k < body.len() && #[trigger] body[k] == p;
        lemma_coordinate_of_index(board.width, board.height, i);
        assert(cell_at(board, body[k]) == CellType::Snake(segment_part(k, body.len() as int)));
        assert(cell_at(board, body[k]) == board.cells[i]);
    }
}

/// A tick changes nothing in a game that is paused or over.
pub proof fn lemma_tick_only_while_playing(game: GameModel)
    requires
        game.state != GameState::Playing,
    ensures
        game.tick() == game,
{
}

/// A game that is over stays over, for the same reason, whatever is asked
/// of it.
pub proof fn lemma_game_over_is_final(game: GameModel, direction: Direction)
    requires
        game.state is GameOver,
    ensures
        game.tick() == game,
        game.played(direction) == game,
        game.with_food().state == game.state,
{
}

/// A tick that runs the head into the border, or into a segment of the
/// snake that stays in place, ends the game and moves nothing.
pub proof fn lemma_collision_moves_nothing(game: GameModel)
    requires
        game.wf(),
        game.state == GameState::Playing,
        ({
            let kind = cell_at(game.board, step(game.head(), game.snake.heading));
            kind is Border || kind.is_head() || kind.is_body()
        }),
    ensures
        game.tick().state is GameOver,
        game.tick().board == game.board,
        game.tick().snake == game.snake,
        cell_at(game.board, step(game.head(), game.snake.heading)) is Border
            <==> game.tick().state == GameState::GameOver(GameOverType::BorderHit),
        cell_at(game.board, step(game.head(), game.snake.heading)) is Snake
            <==> game.tick().state == GameState::GameOver(GameOverType::SelfBite),
{
}

/// A tick onto an empty cell, or onto the tail as it moves away, moves the
/// snake by one cell and keeps its length: the head is at the cell that was
/// in front of it, every other segment is where the one before it was, and
/// the cell that the tail left is empty unless the head entered it.
pub proof fn lemma_plain_move(game: GameModel)
    requires
        game.wf(),
        game.state == GameState::Playing,
        ({
            let kind = cell_at(game.board, step(game.head(), game.snake.heading));
            kind is Empty || kind.is_tail()
        }),
    ensures
        game.tick().state == GameState::Playing,
        game.tick().snake.body == advance(
            game.snake.body,
            step(game.head(), game.snake.heading),
            false,
        ),
        game.tick().snake.body.len() == game.snake.body.len(),
        game.tick().head() == step(game.head(), game.snake.heading),
        game.snake.body.last() != step(game.head(), game.snake.heading) ==> cell_at(
            game.tick().board,
            game.snake.body.last(),
        ) is Empty,
{
    let target = step(game.head(), game.snake.heading);
    let counted = GameModel { steps: next_steps(game.steps), ..game };
    let body = advance(game.snake.body, target, false);
    let tail = game.snake.body.last();
    lemma_target_is_legal(counted, game.snake.heading);
    if tail != target {
        lemma_position_of_place(game.board, tail);
        assert(cell_at(game.board, tail) is Snake);
        if occupies(body, tail, body.len() as int) {
            let j = choose|j: int| 0 <= j < body.len() && #[trigger] body[j] == tail;
            assert(body[j] == game.snake.body[j - 1]);
        }
    }
}

/// A tick onto food moves the snake and makes it one segment longer: the
/// head is at the cell that held the food, every old segment stays where it
/// was, and the cell of the tail is still a snake cell. New food is on a
/// cell that was empty, or the game is over because no cell was empty.
pub proof fn lemma_eating_grows(game: GameModel)
    requires
        game.wf(),
        game.state == GameState::Playing,
        cell_at(game.board, step(game.head(), game.snake.heading)) is Food,
    ensures
        game.tick().snake.body == advance(
            game.snake.body,
            step(game.head(), game.snake.heading),
            true,
        ),
        game.tick().snake.body.len() == game.snake.body.len() + 1,
        cell_at(game.tick().board, game.snake.body.last()) is Snake,
        ({
            let eaten = game.moved(step(game.head(), game.snake.heading), true).board;
            let count = empty_count(eaten.cells);
            if count == 0 {
                &&& game.tick().state == GameState::GameOver(GameOverType::PlaygroundFilled)
                &&& game.tick().board == eaten
            } else {
                let place = nth_empty(eaten.cells, pick(game.seed, count));
                &&& game.tick().state == GameState::Playing
                &&& 0 <= place < eaten.cells.len()
                &&& eaten.cells[place] is Empty
                &&& game.tick().board.cells == eaten.cells.update(place, CellType::Food)
            }
        }),
{
    let target = step(game.head(), game.snake.heading);
    let counted = GameModel { steps: next_steps(game.steps), ..game };
    let grown = counted.moved(target, true);
    let tail = game.snake.body.last();
    lemma_target_is_legal(counted, game.snake.heading);
    lemma_moved_keeps_wf(counted, target, true);
    lemma_with_food(grown);
    lemma_tick_keeps_wf(game);
    let after = game.tick();
    assert(after.snake.body.last() == tail);
    assert(cell_at(after.board, after.snake.body[after.snake.body.len() - 1]) is Snake);
}

/// A traversal reports the board and nothing else: one entry per cell in
/// storage order, each with the cell's place, its coordinate and what the
/// board holds there. So two traversals of one board report the same, and a
/// traversal after a change reports the changed board.
pub proof fn lemma_listing_reports_board(board: Grid<CellType>, other: Grid<CellType>)
    ensures
        listing(board).len() == board.cells.len(),
        forall|i: int|
            0 <= i < board.cells.len() ==> {
                &&& (#[trigger] listing(board)[i]).cell_index == i as usize
                &&& listing(board)[i].cell.pos == position_of(board.width, i)
                &&& listing(board)[i].cell.cell_type == board.cells[i]
            },
        board == other ==> listing(board) == listing(other),
        board.width == other.width && listing(board) == listing(other) ==> board.cells
            == other.cells,
{
    if board.width == other.width && listing(board) == listing(other) {
        assert(board.cells.len() == listing(board).len());
        assert(other.cells.len() == listing(other).len());
        assert forall|i: int| 0 <= i < board.cells.len() implies board.cells[i]
            == other.cells[i] by {
            assert(listing(board)[i].cell.cell_type == board.cells[i]);
            assert(listing(other)[i].cell.cell_type == other.cells[i]);
        }
        assert(board.cells =~= other.cells);
    }
}

} // verus!
