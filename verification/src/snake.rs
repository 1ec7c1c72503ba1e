//! The snake: the cells it occupies, head first, and the way it is heading.

use crate::point_2d::Point2D;
use crate::Direction;
use vstd::prelude::*;

verus! {

/// The mathematical model of a snake: the positions of its segments from
/// head to tail, and its heading.
pub struct SnakeModel {
    pub body: Seq<Point2D<i32>>,
    pub heading: Direction,
}

/// The step of one cell in the given direction. `y` grows downward.
pub open spec fn unit_vector(direction: Direction) -> Point2D<i32> {
    match direction {
        Direction::Right => Point2D { x: 1, y: 0 },
        Direction::Left => Point2D { x: -1i32, y: 0 },
        Direction::Up => Point2D { x: 0, y: -1i32 },
        Direction::Down => Point2D { x: 0, y: 1 },
    }
}

/// The position one cell from `from` in the given direction.
pub open spec fn step(from: Point2D<i32>, direction: Direction) -> Point2D<i32> {
    Point2D {
        x: (from.x + unit_vector(direction).x) as i32,
        y: (from.y + unit_vector(direction).y) as i32,
    }
}

/// The direction that undoes a step in `direction`.
pub open spec fn opposite(direction: Direction) -> Direction {
    match direction {
        Direction::Right => Direction::Left,
        Direction::Left => Direction::Right,
        Direction::Up => Direction::Down,
        Direction::Down => Direction::Up,
    }
}

/// The heading that results when a snake of the given length, heading
/// `current`, is asked to head `requested`. A snake longer than one cell
/// cannot reverse into its own neck and keeps its heading; every other
/// request is granted.
pub open spec fn arbitrate(current: Direction, requested: Direction, length: nat) -> Direction {
    if length > 1 && requested == opposite(current) {
        current
    } else {
        requested
    }
}

/// Whether the two positions are neighbours on the grid: one step apart
/// along exactly one axis.
pub open spec fn adjacent(a: Point2D<i32>, b: Point2D<i32>) -> bool {
    ||| a.x == b.x && (a.y - b.y == 1 || b.y - a.y == 1)
    ||| a.y == b.y && (a.x - b.x == 1 || b.x - a.x == 1)
}

/// Whether a step from `p` in any direction stays within the range of the
/// coordinates' type.
pub open spec fn movable(p: Point2D<i32>) -> bool {
    i32::MIN < p.x < i32::MAX && i32::MIN < p.y < i32::MAX
}

/// The positions after a move to `new_head`: the new head in front, and the
/// old positions behind it, without the last one unless the snake grows.
pub open spec fn advance(body: Seq<Point2D<i32>>, new_head: Point2D<i32>, grow: bool) -> Seq<
    Point2D<i32>,
> {
    if grow {
        seq![new_head] + body
    } else {
        seq![new_head] + body.drop_last()
    }
}

impl SnakeModel {
    /// A snake has a head, occupies no cell twice, and each of its segments
    /// is a neighbour of the next.
    pub open spec fn wf(self) -> bool {
        &&& self.body.len() >= 1
        &&& self.body.no_duplicates()
        &&& forall|k: int| 0 <= k < self.body.len() ==> movable(#[trigger] self.body[k])
        &&& forall|k: int|
            0 <= k < self.body.len() - 1 ==> adjacent(#[trigger] self.body[k], self.body[k + 1])
    }

    /// Whether the snake may move its head to `to`: the cell is a neighbour of
    /// the head, and no segment that stays in place occupies it. The tail
    /// stays only when the snake grows.
    pub open spec fn legal_destination(self, to: Point2D<i32>, grow: bool) -> bool {
        &&& movable(to)
        &&& adjacent(to, self.body[0])
        &&& forall|k: int|
            0 <= k < self.body.len() - (if grow {
                0int
            } else {
                1int
            }) ==> #[trigger] self.body[k] != to
    }

    /// The snake after a move to `to`.
    pub open spec fn moved(self, to: Point2D<i32>, grow: bool) -> SnakeModel {
        SnakeModel { body: advance(self.body, to, grow), ..self }
    }
}

/// A move keeps the snake's length, and a move that grows adds one to it.
pub proof fn lemma_move_changes_length(snake: SnakeModel, direction: Direction, grow: bool)
    requires
        snake.wf(),
    ensures
        snake.moved(step(snake.body[0], direction), grow).body.len() == snake.body.len() + if grow {
            1int
        } else {
            0int
        },
{
}

/// A move to a legal destination yields a snake.
pub proof fn lemma_move_keeps_wf(snake: SnakeModel, to: Point2D<i32>, grow: bool)
    requires
        snake.wf(),
        snake.legal_destination(to, grow),
    ensures
        snake.moved(to, grow).wf(),
{
    let after = snake.moved(to, grow).body;
    assert forall|i: int, j: int| 0 <= i < after.len() && 0 <= j < after.len() && i != j implies after[i]
        != after[j] by {
        if i > 0 && j > 0 {
            assert(after[i] == snake.body[i - 1]);
            assert(after[j] == snake.body[j - 1]);
        } else if i == 0 {
            assert(after[j] == snake.body[j - 1]);
        } else {
            assert(after[i] == snake.body[i - 1]);
        }
    }
    assert forall|k: int| 0 <= k < after.len() implies movable(#[trigger] after[k]) by {
        if k > 0 {
            assert(after[k] == snake.body[k - 1]);
        }
    }
    assert forall|k: int| 0 <= k < after.len() - 1 implies adjacent(
        #[trigger] after[k],
        after[k + 1],
    ) by {
        assert(after[k + 1] == snake.body[k]);
        if k > 0 {
            assert(after[k] == snake.body[k - 1]);
            assert(adjacent(snake.body[k - 1], snake.body[k - 1 + 1]));
        }
    }
}

/// The snake.
pub struct Snake {
    body: Vec<Point2D<i32>>,
    direction: Direction,
}

impl View for Snake {
    type V = SnakeModel;

    closed spec fn view(&self) -> SnakeModel {
        SnakeModel { body: self.body@, heading: self.direction }
    }
}

impl Snake {
    /// The snake's invariant.
    pub open spec fn wf(&self) -> bool {
        self@.wf()
    }

    /// A snake of one segment at `start`, heading right.
    pub fn new(start: Point2D<i32>) -> (snake: Snake)
        requires
            movable(start),
        ensures
            snake.wf(),
            snake@ == (SnakeModel { body: seq![start], heading: Direction::Right }),
    {
        let mut body = Vec::new();
        body.push(start);
        let snake = Snake { body, direction: Direction::Right };
        assert(snake@.body =~= seq![start]);
        snake
    }

    /// The position of the head.
    pub fn head(&self) -> (head: Point2D<i32>)
        requires
            self.wf(),
        ensures
            head == self@.body[0],
    {
        self.body[0]
    }

    /// The position of the last segment, which is the head where the snake
    /// has one segment.
    pub fn tail(&self) -> (tail: Point2D<i32>)
        requires
            self.wf(),
        ensures
            tail == self@.body.last(),
    {
        self.body[self.body.len() - 1]
    }

    /// The number of segments.
    pub fn length(&self) -> (length: usize)
        ensures
            length == self@.body.len(),
    {
        self.body.len()
    }

    /// The position of the segment that is `k` segments behind the head, or
    /// `None` where the snake is not that long.
    pub fn segment(&self, k: usize) -> (pos: Option<Point2D<i32>>)
        ensures
            k < self@.body.len() ==> pos == Some(self@.body[k as int]),
            k >= self@.body.len() ==> pos is None,
    {
        if k < self.body.len() {
            Some(self.body[k])
        } else {
            None
        }
    }

    /// The current heading.
    pub fn direction(&self) -> (direction: Direction)
        ensures
            direction == self@.heading,
    {
        self.direction
    }

    /// The cell the head would enter by one step in `direction`. The snake
    /// does not move.
    pub fn propose_move(&self, direction: Direction) -> (candidate: Point2D<i32>)
        requires
            self.wf(),
        ensures
            candidate == step(self@.body[0], direction),
            adjacent(candidate, self@.body[0]),
    {
        let head = self.head();
        let unit: Point2D<i32> = match direction {
            Direction::Right => Point2D::new(1, 0),
            Direction::Left => Point2D::new(-1, 0),
            Direction::Up => Point2D::new(0, -1),
            Direction::Down => Point2D::new(0, 1),
        };
        head + unit
    }

    /// Moves the head to `new_head`. The tail follows, unless `grow` is set:
    /// then it stays, and the snake is one segment longer. The caller has
    /// made sure that `new_head` is a legal destination.
    pub fn commit_move(&mut self, new_head: Point2D<i32>, grow: bool)
        requires
            old(self).wf(),
            old(self)@.legal_destination(new_head, grow),
        ensures
            final(self).wf(),
            final(self)@ == old(self)@.moved(new_head, grow),
            final(self)@.body.len() == old(self)@.body.len() + if grow {
                1int
            } else {
                0int
            },
    {
        self.body.insert(0, new_head);
        if !grow {
            self.body.pop();
        }
        proof {
            assert(self@.body =~= advance(old(self)@.body, new_head, grow));
            lemma_move_keeps_wf(old(self)@, new_head, grow);
        }
    }

    /// Turns the snake to head in `direction`, whatever its length.
    pub fn face(&mut self, direction: Direction)
        ensures
            final(self)@ == (SnakeModel { heading: direction, ..old(self)@ }),
    {
        self.direction = direction;
    }

    /// Asks the snake to head `requested`, and returns the heading it takes:
    /// its old one where the request would reverse a snake longer than one
    /// cell, else the requested one.
    pub fn set_direction(&mut self, requested: Direction) -> (effective: Direction)
        ensures
            effective == arbitrate(old(self)@.heading, requested, old(self)@.body.len()),
            final(self)@ == (SnakeModel { heading: effective, ..old(self)@ }),
    {
        if self.body.len() > 1 {
            self.direction = match (self.direction, requested) {
                (Direction::Right, Direction::Left) => Direction::Right,
                (Direction::Left, Direction::Right) => Direction::Left,
                (Direction::Up, Direction::Down) => Direction::Up,
                (Direction::Down, Direction::Up) => Direction::Down,
                (_, _) => requested,
            };
        } else {
            self.direction = requested;
        }
        self.direction
    }
}

} // verus!
