use my_snake::{
    CellContext, CellType, ConstructionError, Direction, Game, GameOverType, GameState,
    SnakeBodyPart,
};

fn listing(game: &Game) -> Vec<CellContext> {
    let mut cells = game.cell_iter_mut();
    let mut entries = Vec::new();
    while let Some(entry) = cells.next() {
        entries.push(entry);
    }
    entries
}

fn count_food(game: &Game) -> usize {
    listing(game).iter().filter(|e| matches!(e.cell.cell_type, CellType::Food)).count()
}

fn feed_and_tick(game: &mut Game, x: i32, y: i32) {
    game.place_food(x, y);
    assert!(matches!(game.board().get(x, y), Some(CellType::Food)));
    game.update_game_state();
}

#[test]
fn construct_rejects_small_boards() {
    assert!(matches!(Game::new(4, 10), Err(ConstructionError::InvalidDimensions)));
    assert!(matches!(Game::new(10, 4), Err(ConstructionError::InvalidDimensions)));
}

#[test]
fn new_game_is_paused_with_one_head_in_the_center() {
    let game = Game::new(9, 7).unwrap();
    assert_eq!(game.state(), GameState::Paused);
    assert_eq!(game.direction(), Direction::Right);
    assert_eq!(game.snake_length(), 1);
    assert_eq!(game.step_count(), 0);
    assert_eq!(game.board_dimensions().as_array(), [9, 7]);
    assert_eq!((game.snake().head().x, game.snake().head().y), (4, 3));
    assert_eq!(game.snake_head_index(), 3 * 9 + 4);
    let heads: Vec<usize> = listing(&game)
        .iter()
        .filter(|e| matches!(e.cell.cell_type, CellType::Snake(_)))
        .map(|e| e.cell_index)
        .collect();
    assert_eq!(heads, vec![3 * 9 + 4]);
    assert!(matches!(
        game.board().get(4, 3),
        Some(CellType::Snake(SnakeBodyPart::Head(1)))
    ));
}

#[test]
fn new_game_border_is_the_outer_ring() {
    let game = Game::new(6, 5).unwrap();
    for entry in listing(&game) {
        let (x, y) = (entry.cell.pos.x, entry.cell.pos.y);
        let on_ring = x == 0 || y == 0 || x == 5 || y == 4;
        assert_eq!(matches!(entry.cell.cell_type, CellType::Border), on_ring);
    }
}

#[test]
fn index_mapping_is_row_major() {
    let game = Game::new(7, 5).unwrap();
    assert_eq!(game.get_field_index(3, 2), Some(17));
    assert_eq!(game.get_field_index(7, 2), None);
    assert_eq!(game.get_field_index(-1, 2), None);
    assert_eq!(game.get_index_from_point(my_snake::point_2d::Point2D::new(6, 4)), Some(34));
    assert_eq!(game.get_index_from_point(my_snake::point_2d::Point2D::new(6, 5)), None);
    let p = game.get_point_from_index(17).unwrap();
    assert_eq!((p.x, p.y), (3, 2));
    assert!(game.get_point_from_index(35).is_none());
}

#[test]
fn tick_does_nothing_while_paused() {
    let mut game = Game::new(7, 7).unwrap();
    let before = format!("{:?}", listing(&game));
    game.update_game_state();
    assert_eq!(game.state(), GameState::Paused);
    assert_eq!(game.step_count(), 0);
    assert_eq!(format!("{:?}", listing(&game)), before);
}

#[test]
fn play_starts_a_paused_game_only() {
    let mut game = Game::new(5, 5).unwrap();
    game.play(Direction::Up);
    assert_eq!(game.state(), GameState::Playing);
    assert_eq!(game.direction(), Direction::Up);
    game.play(Direction::Left);
    assert_eq!(game.state(), GameState::Playing);
    assert_eq!(game.direction(), Direction::Up);
    game.update_game_state();
    game.update_game_state();
    assert_eq!(game.state(), GameState::GameOver(GameOverType::BorderHit));
    game.play(Direction::Down);
    assert_eq!(game.state(), GameState::GameOver(GameOverType::BorderHit));
}

#[test]
fn first_tick_moves_the_head_right() {
    let mut game = Game::new(7, 7).unwrap();
    assert_eq!((game.snake().head().x, game.snake().head().y), (3, 3));
    game.play(Direction::Right);
    game.update_game_state();
    assert_eq!(game.state(), GameState::Playing);
    assert!(matches!(game.board().get(3, 3), Some(CellType::Empty)));
    assert!(matches!(
        game.board().get(4, 3),
        Some(CellType::Snake(SnakeBodyPart::Head(1)))
    ));
    assert_eq!(game.snake_length(), 1);
    assert_eq!(game.step_count(), 1);
    assert_eq!((game.snake().head().x, game.snake().head().y), (4, 3));
}

#[test]
fn up_decreases_y_and_down_increases_it() {
    let mut game = Game::new(7, 7).unwrap();
    game.play(Direction::Up);
    game.update_game_state();
    assert_eq!((game.snake().head().x, game.snake().head().y), (3, 2));
    game.set_movement_direction(Direction::Left);
    game.update_game_state();
    assert_eq!((game.snake().head().x, game.snake().head().y), (2, 2));
    game.set_movement_direction(Direction::Down);
    game.update_game_state();
    assert_eq!((game.snake().head().x, game.snake().head().y), (2, 3));
}

#[test]
fn border_hit_ends_the_game() {
    let mut game = Game::new(5, 5).unwrap();
    game.play(Direction::Right);
    game.update_game_state();
    assert_eq!(game.state(), GameState::Playing);
    assert_eq!((game.snake().head().x, game.snake().head().y), (3, 2));
    let before = format!("{:?}", listing(&game));
    game.update_game_state();
    assert_eq!(game.state(), GameState::GameOver(GameOverType::BorderHit));
    assert_eq!(format!("{:?}", listing(&game)), before);
    assert_eq!((game.snake().head().x, game.snake().head().y), (3, 2));
    assert_eq!(game.step_count(), 2);
    game.update_game_state();
    assert_eq!(game.state(), GameState::GameOver(GameOverType::BorderHit));
    assert_eq!(format!("{:?}", listing(&game)), before);
    assert_eq!(game.step_count(), 2);
}

#[test]
fn eating_grows_the_snake_and_spawns_food() {
    let mut game = Game::new(7, 7).unwrap();
    assert!(game.place_food(4, 3));
    assert_eq!(count_food(&game), 1);
    game.play(Direction::Right);
    let empty_before: Vec<usize> = listing(&game)
        .iter()
        .filter(|e| matches!(e.cell.cell_type, CellType::Empty))
        .map(|e| e.cell_index)
        .collect();
    game.update_game_state();
    assert_eq!(game.state(), GameState::Playing);
    assert_eq!(game.snake_length(), 2);
    assert!(matches!(
        game.board().get(4, 3),
        Some(CellType::Snake(SnakeBodyPart::Head(2)))
    ));
    assert!(matches!(
        game.board().get(3, 3),
        Some(CellType::Snake(SnakeBodyPart::Tail(1)))
    ));
    let food: Vec<usize> = listing(&game)
        .iter()
        .filter(|e| matches!(e.cell.cell_type, CellType::Food))
        .map(|e| e.cell_index)
        .collect();
    assert_eq!(food.len(), 1);
    assert!(empty_before.contains(&food[0]));
}

#[test]
fn segments_are_numbered_from_the_tail() {
    let mut game = Game::new(15, 15).unwrap();
    game.play(Direction::Right);
    feed_and_tick(&mut game, 8, 7);
    feed_and_tick(&mut game, 9, 7);
    feed_and_tick(&mut game, 10, 7);
    assert_eq!(game.snake_length(), 4);
    assert!(matches!(game.board().get(10, 7), Some(CellType::Snake(SnakeBodyPart::Head(4)))));
    assert!(matches!(game.board().get(9, 7), Some(CellType::Snake(SnakeBodyPart::Body(3)))));
    assert!(matches!(game.board().get(8, 7), Some(CellType::Snake(SnakeBodyPart::Body(2)))));
    assert!(matches!(game.board().get(7, 7), Some(CellType::Snake(SnakeBodyPart::Tail(1)))));
    let snake_cells = listing(&game)
        .iter()
        .filter(|e| matches!(e.cell.cell_type, CellType::Snake(_)))
        .count();
    assert_eq!(snake_cells, 4);
}

#[test]
fn full_playground_ends_the_game() {
    let mut game = Game::new(5, 5).unwrap();
    for y in 1..4 {
        for x in 1..4 {
            if (x, y) != (2, 2) {
                assert!(game.place_food(x, y));
            }
        }
    }
    assert_eq!(game.board().count_empty(), 0);
    game.play(Direction::Right);
    game.update_game_state();
    assert_eq!(game.state(), GameState::GameOver(GameOverType::PlaygroundFilled));
    assert_eq!(game.snake_length(), 2);
    assert!(matches!(game.board().get(3, 2), Some(CellType::Snake(SnakeBodyPart::Head(2)))));
    assert!(matches!(game.board().get(2, 2), Some(CellType::Snake(SnakeBodyPart::Tail(1)))));
    assert_eq!(count_food(&game), 7);
}

#[test]
fn self_bite_ends_the_game() {
    let mut game = Game::new(15, 15).unwrap();
    game.play(Direction::Right);
    feed_and_tick(&mut game, 8, 7);
    feed_and_tick(&mut game, 9, 7);
    feed_and_tick(&mut game, 10, 7);
    feed_and_tick(&mut game, 11, 7);
    assert_eq!(game.snake_length(), 5);
    game.set_movement_direction(Direction::Down);
    game.update_game_state();
    game.set_movement_direction(Direction::Left);
    game.update_game_state();
    game.set_movement_direction(Direction::Up);
    assert_eq!(game.state(), GameState::Playing);
    assert_eq!((game.snake().head().x, game.snake().head().y), (10, 8));
    assert!(matches!(game.board().get(10, 7), Some(CellType::Snake(SnakeBodyPart::Body(_)))));
    let before = format!("{:?}", listing(&game));
    game.update_game_state();
    assert_eq!(game.state(), GameState::GameOver(GameOverType::SelfBite));
    assert_eq!(format!("{:?}", listing(&game)), before);
}

#[test]
fn head_may_follow_the_tail() {
    let mut game = Game::new(15, 15).unwrap();
    game.play(Direction::Right);
    feed_and_tick(&mut game, 8, 7);
    feed_and_tick(&mut game, 9, 7);
    feed_and_tick(&mut game, 10, 7);
    assert_eq!(game.snake_length(), 4);
    assert!(matches!(game.board().get(10, 8), Some(CellType::Empty)));
    assert!(matches!(game.board().get(9, 8), Some(CellType::Empty)));
    game.set_movement_direction(Direction::Down);
    game.update_game_state();
    game.set_movement_direction(Direction::Left);
    game.update_game_state();
    game.set_movement_direction(Direction::Up);
    assert!(matches!(game.board().get(9, 7), Some(CellType::Snake(SnakeBodyPart::Tail(1)))));
    game.update_game_state();
    assert_eq!(game.state(), GameState::Playing);
    assert_eq!(game.snake_length(), 4);
    assert!(matches!(game.board().get(9, 7), Some(CellType::Snake(SnakeBodyPart::Head(4)))));
    assert!(matches!(game.board().get(9, 8), Some(CellType::Snake(SnakeBodyPart::Body(3)))));
    assert!(matches!(game.board().get(10, 8), Some(CellType::Snake(SnakeBodyPart::Body(2)))));
    assert!(matches!(game.board().get(10, 7), Some(CellType::Snake(SnakeBodyPart::Tail(1)))));
}

#[test]
fn game_refuses_to_reverse_a_long_snake() {
    let mut game = Game::new(15, 15).unwrap();
    game.play(Direction::Right);
    game.set_movement_direction(Direction::Left);
    assert_eq!(game.direction(), Direction::Left);
    game.set_movement_direction(Direction::Right);
    feed_and_tick(&mut game, 8, 7);
    feed_and_tick(&mut game, 9, 7);
    assert_eq!(game.snake_length(), 3);
    game.set_movement_direction(Direction::Left);
    assert_eq!(game.direction(), Direction::Right);
    game.set_movement_direction(Direction::Up);
    assert_eq!(game.direction(), Direction::Up);
}

#[test]
fn spawn_food_follows_the_seed() {
    let mut game = Game::new(5, 5).unwrap();
    assert!(game.spawn_food());
    assert!(matches!(game.board().get(2, 3), Some(CellType::Food)));
    assert_eq!(count_food(&game), 1);
    assert!(game.spawn_food());
    assert!(matches!(game.board().get(3, 1), Some(CellType::Food)));
    assert_eq!(count_food(&game), 2);
}

#[test]
fn spawn_food_needs_an_empty_cell() {
    let mut game = Game::new(5, 5).unwrap();
    for _ in 0..8 {
        assert!(game.spawn_food());
    }
    assert_eq!(count_food(&game), 8);
    assert_eq!(game.board().count_empty(), 0);
    let before = format!("{:?}", listing(&game));
    assert!(!game.spawn_food());
    assert_eq!(format!("{:?}", listing(&game)), before);
}

#[test]
fn place_food_needs_an_empty_cell() {
    let mut game = Game::new(5, 5).unwrap();
    assert!(!game.place_food(0, 0));
    assert!(!game.place_food(2, 2));
    assert!(!game.place_food(9, 9));
    assert!(!game.place_food(-1, 2));
    assert!(game.place_food(1, 1));
    assert!(!game.place_food(1, 1));
    assert_eq!(count_food(&game), 1);
    assert!(matches!(game.board().get(0, 0), Some(CellType::Border)));
    assert!(matches!(game.board().get(2, 2), Some(CellType::Snake(SnakeBodyPart::Head(1)))));
}

#[test]
fn traversal_is_repeatable_and_row_major() {
    let game = Game::new(6, 5).unwrap();
    let first = listing(&game);
    let second = listing(&game);
    assert_eq!(first.len(), 30);
    assert_eq!(format!("{:?}", first), format!("{:?}", second));
    for (i, entry) in first.iter().enumerate() {
        assert_eq!(entry.cell_index, i);
        assert_eq!((entry.cell.pos.x, entry.cell.pos.y), ((i % 6) as i32, (i / 6) as i32));
    }
}

#[test]
fn traversal_reflects_a_tick() {
    let mut game = Game::new(7, 7).unwrap();
    game.play(Direction::Right);
    let before = listing(&game);
    game.update_game_state();
    let after = listing(&game);
    assert!(matches!(before[24].cell.cell_type, CellType::Snake(SnakeBodyPart::Head(1))));
    assert!(matches!(before[25].cell.cell_type, CellType::Empty));
    assert!(matches!(after[24].cell.cell_type, CellType::Empty));
    assert!(matches!(after[25].cell.cell_type, CellType::Snake(SnakeBodyPart::Head(1))));
    for i in 0..49 {
        if i != 24 && i != 25 {
            assert_eq!(
                format!("{:?}", before[i].cell.cell_type),
                format!("{:?}", after[i].cell.cell_type)
            );
        }
    }
}

#[test]
fn set_seed_decides_where_food_lands() {
    let mut game = Game::new(5, 5).unwrap();
    game.set_seed(0);
    assert!(game.spawn_food());
    assert!(matches!(game.board().get(1, 1), Some(CellType::Food)));
    let mut game = Game::new(5, 5).unwrap();
    game.set_seed(3 << 32);
    assert!(game.spawn_food());
    assert!(matches!(game.board().get(1, 2), Some(CellType::Food)));
    let mut game = Game::new(5, 5).unwrap();
    game.set_seed((7 << 32) + 12345);
    assert!(game.spawn_food());
    assert!(matches!(game.board().get(3, 3), Some(CellType::Food)));
    game.update_game_state();
    assert_eq!(game.state(), GameState::Paused);
}
