use my_snake::matrix_2d::Matrix2D;
use my_snake::point_2d::Point2D;
use my_snake::ConstructionError;

#[test]
fn matrix_new_fills_with_default() {
    let m: Matrix2D<i32> = Matrix2D::new(&Point2D::new(3, 2)).unwrap();
    assert_eq!(m.len(), 6);
    assert_eq!(m.size().x, 3);
    assert_eq!(m.size().y, 2);
    for i in 0..6 {
        assert_eq!(m.get(i), Some(&0));
    }
    assert_eq!(m.get(6), None);
}

#[test]
fn matrix_filled_clones_the_value() {
    let m = Matrix2D::filled(&Point2D::new(2, 2), 7u8).unwrap();
    assert_eq!(m.len(), 4);
    for i in 0..4 {
        assert_eq!(m.get(i), Some(&7u8));
    }
}

#[test]
fn matrix_rejects_non_positive_dimensions() {
    assert!(matches!(
        Matrix2D::<i32>::new(&Point2D::new(0, 3)),
        Err(ConstructionError::InvalidDimensions)
    ));
    assert!(matches!(
        Matrix2D::<i32>::new(&Point2D::new(3, -1)),
        Err(ConstructionError::InvalidDimensions)
    ));
    assert!(matches!(
        Matrix2D::filled(&Point2D::new(-2, -2), 1u8),
        Err(ConstructionError::InvalidDimensions)
    ));
}

#[test]
fn matrix_index_is_row_major() {
    let m: Matrix2D<i32> = Matrix2D::new(&Point2D::new(3, 2)).unwrap();
    assert_eq!(m.pos_to_index(Point2D::new(0, 0)), Some(0));
    assert_eq!(m.pos_to_index(Point2D::new(2, 0)), Some(2));
    assert_eq!(m.pos_to_index(Point2D::new(0, 1)), Some(3));
    assert_eq!(m.pos_to_index(Point2D::new(2, 1)), Some(5));
}

#[test]
fn matrix_index_outside_is_none() {
    let m: Matrix2D<i32> = Matrix2D::new(&Point2D::new(3, 2)).unwrap();
    assert_eq!(m.pos_to_index(Point2D::new(3, 0)), None);
    assert_eq!(m.pos_to_index(Point2D::new(0, 2)), None);
    assert_eq!(m.pos_to_index(Point2D::new(-1, 0)), None);
    assert_eq!(m.pos_to_index(Point2D::new(0, -1)), None);
}

#[test]
fn matrix_get_mut_changes_one_value() {
    let mut m: Matrix2D<i32> = Matrix2D::new(&Point2D::new(3, 2)).unwrap();
    *m.get_mut(4).unwrap() = 42;
    for i in 0..6 {
        assert_eq!(m.get(i), Some(&(if i == 4 { 42 } else { 0 })));
    }
    assert!(m.get_mut(6).is_none());
}

#[test]
fn matrix_get_pos_mut_writes_at_the_coordinate() {
    let mut m: Matrix2D<i32> = Matrix2D::new(&Point2D::new(3, 2)).unwrap();
    *m.get_pos_mut(Point2D::new(1, 1)).unwrap() = 9;
    assert_eq!(m.get(4), Some(&9));
    assert_eq!(m.get_pos(Point2D::new(1, 1)), Some(&9));
    assert_eq!(m.get_pos(Point2D::new(1, 0)), Some(&0));
    assert!(m.get_pos(Point2D::new(3, 1)).is_none());
    assert!(m.get_pos_mut(Point2D::new(1, 2)).is_none());
}
