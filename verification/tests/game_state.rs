use my_snake::game_state::{Cell, CellIterator, Direction, GameStateX};
use my_snake::point_2d::Point2D;
use my_snake::ConstructionError;

#[test]
fn default_cell_is_unplaced() {
    let cell = Cell::default();
    assert_eq!((cell.pos.x, cell.pos.y), (-1, -1));
}

#[test]
fn state_board_holds_unplaced_cells() {
    let state = GameStateX::new(Point2D::new(3, 2)).unwrap();
    assert_eq!(state.board.len(), 6);
    for i in 0..6 {
        let cell = state.board.get(i).unwrap();
        assert_eq!((cell.pos.x, cell.pos.y), (-1, -1));
    }
}

#[test]
fn state_rejects_non_positive_dimensions() {
    assert!(matches!(
        GameStateX::new(Point2D::new(0, 3)),
        Err(ConstructionError::InvalidDimensions)
    ));
    assert!(matches!(
        GameStateX::new(Point2D::new(3, -3)),
        Err(ConstructionError::InvalidDimensions)
    ));
}

#[test]
fn state_traversal_visits_every_cell_in_order() {
    let mut state = GameStateX::new(Point2D::new(3, 3)).unwrap();
    let mut cells = state.iter_cell_mut();
    let mut seen = Vec::new();
    while let Some(entry) = cells.next() {
        assert_eq!((entry.cell.pos.x, entry.cell.pos.y), (-1, -1));
        seen.push(entry.cell_index);
    }
    assert_eq!(seen, vec![0, 1, 2, 3, 4, 5, 6, 7, 8]);
    assert!(cells.next().is_none());
}

#[test]
fn state_traversal_can_be_started_again() {
    let state = GameStateX::new(Point2D::new(2, 2)).unwrap();
    let mut first = CellIterator::new(&state);
    let mut second = CellIterator::new(&state);
    assert_eq!(first.next().unwrap().cell_index, 0);
    assert_eq!(first.next().unwrap().cell_index, 1);
    assert_eq!(second.next().unwrap().cell_index, 0);
}

#[test]
fn both_direction_names_are_one_type() {
    let direction: my_snake::Direction = Direction::Up;
    assert_eq!(direction, my_snake::Direction::Up);
}
