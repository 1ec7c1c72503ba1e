use my_snake::point_2d::Point2D;

#[test]
fn point_new_keeps_components() {
    let p = Point2D::new(3, -4);
    assert_eq!(p.x, 3);
    assert_eq!(p.y, -4);
}

#[test]
fn point_array_round_trip() {
    let p = Point2D::new_from_array([7usize, 9usize]);
    assert_eq!(p.x, 7);
    assert_eq!(p.y, 9);
    assert_eq!(p.as_array(), [7, 9]);
}

#[test]
fn point_add_is_component_wise() {
    let sum = Point2D::new(1, 2) + Point2D::new(10, -20);
    assert_eq!(sum.x, 11);
    assert_eq!(sum.y, -18);
}

#[test]
fn point_sub_is_component_wise() {
    let difference = Point2D::new(1, 2) - Point2D::new(10, -20);
    assert_eq!(difference.x, -9);
    assert_eq!(difference.y, 22);
}

#[test]
fn point_mul_is_component_wise() {
    let product = Point2D::new(3, -4) * Point2D::new(5, 6);
    assert_eq!(product.x, 15);
    assert_eq!(product.y, -24);
}

#[test]
fn point_div_is_component_wise() {
    let quotient = Point2D::new(17, -9) / Point2D::new(5, 2);
    assert_eq!(quotient.x, 3);
    assert_eq!(quotient.y, -4);
}

#[test]
fn point_equality_compares_both_components() {
    assert!(Point2D::new(1, 2) == Point2D::new(1, 2));
    assert!(Point2D::new(1, 2) != Point2D::new(1, 3));
    assert!(Point2D::new(1, 2) != Point2D::new(0, 2));
}
