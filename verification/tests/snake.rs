use my_snake::point_2d::Point2D;
use my_snake::snake::Snake;
use my_snake::Direction;

fn at(snake: &Snake, k: usize) -> (i32, i32) {
    let p = snake.segment(k).unwrap();
    (p.x, p.y)
}

#[test]
fn new_snake_is_one_segment_heading_right() {
    let snake = Snake::new(Point2D::new(3, 4));
    assert_eq!(snake.length(), 1);
    assert_eq!(snake.direction(), Direction::Right);
    assert_eq!((snake.head().x, snake.head().y), (3, 4));
    assert_eq!((snake.tail().x, snake.tail().y), (3, 4));
    assert!(snake.segment(1).is_none());
}

#[test]
fn propose_move_steps_by_the_unit_vector() {
    let snake = Snake::new(Point2D::new(3, 4));
    let right = snake.propose_move(Direction::Right);
    let left = snake.propose_move(Direction::Left);
    let up = snake.propose_move(Direction::Up);
    let down = snake.propose_move(Direction::Down);
    assert_eq!((right.x, right.y), (4, 4));
    assert_eq!((left.x, left.y), (2, 4));
    assert_eq!((up.x, up.y), (3, 3));
    assert_eq!((down.x, down.y), (3, 5));
    assert_eq!(snake.length(), 1);
    assert_eq!((snake.head().x, snake.head().y), (3, 4));
}

#[test]
fn move_without_growth_keeps_the_length() {
    let mut snake = Snake::new(Point2D::new(3, 4));
    let target = snake.propose_move(Direction::Right);
    snake.commit_move(target, false);
    assert_eq!(snake.length(), 1);
    assert_eq!(at(&snake, 0), (4, 4));
}

#[test]
fn move_with_growth_adds_one_segment() {
    let mut snake = Snake::new(Point2D::new(3, 4));
    let target = snake.propose_move(Direction::Right);
    snake.commit_move(target, true);
    assert_eq!(snake.length(), 2);
    assert_eq!(at(&snake, 0), (4, 4));
    assert_eq!(at(&snake, 1), (3, 4));
    let target = snake.propose_move(Direction::Down);
    snake.commit_move(target, true);
    assert_eq!(snake.length(), 3);
    let target = snake.propose_move(Direction::Down);
    snake.commit_move(target, false);
    assert_eq!(snake.length(), 3);
    assert_eq!(at(&snake, 0), (4, 6));
    assert_eq!(at(&snake, 1), (4, 5));
    assert_eq!(at(&snake, 2), (4, 4));
    assert_eq!((snake.tail().x, snake.tail().y), (4, 4));
}

#[test]
fn long_snake_cannot_reverse() {
    let mut snake = Snake::new(Point2D::new(5, 5));
    snake.commit_move(Point2D::new(6, 5), true);
    snake.commit_move(Point2D::new(7, 5), true);
    assert_eq!(snake.length(), 3);
    assert_eq!(snake.direction(), Direction::Right);
    assert_eq!(snake.set_direction(Direction::Left), Direction::Right);
    assert_eq!(snake.direction(), Direction::Right);
    assert_eq!(snake.set_direction(Direction::Up), Direction::Up);
    assert_eq!(snake.direction(), Direction::Up);
}

#[test]
fn short_snake_turns_any_way() {
    let mut snake = Snake::new(Point2D::new(5, 5));
    assert_eq!(snake.set_direction(Direction::Left), Direction::Left);
    assert_eq!(snake.set_direction(Direction::Right), Direction::Right);
    assert_eq!(snake.set_direction(Direction::Up), Direction::Up);
    assert_eq!(snake.set_direction(Direction::Down), Direction::Down);
}

#[test]
fn arbitration_table_for_a_long_snake() {
    let all = [Direction::Left, Direction::Right, Direction::Up, Direction::Down];
    for current in all {
        for requested in all {
            let mut snake = Snake::new(Point2D::new(5, 5));
            snake.commit_move(Point2D::new(6, 5), true);
            snake.face(current);
            let reversal = matches!(
                (current, requested),
                (Direction::Left, Direction::Right)
                    | (Direction::Right, Direction::Left)
                    | (Direction::Up, Direction::Down)
                    | (Direction::Down, Direction::Up)
            );
            let expected = if reversal { current } else { requested };
            assert_eq!(snake.set_direction(requested), expected);
            assert_eq!(snake.direction(), expected);
        }
    }
}
