//! A two-component coordinate with component-wise arithmetic.

use std::ops::{Add, Div, Mul, Sub};
use vstd::prelude::*;
use vstd::std_specs::cmp::{PartialEqSpec, PartialEqSpecImpl};
use vstd::std_specs::ops::{
    AddSpec, AddSpecImpl, DivSpec, DivSpecImpl, MulSpec, MulSpecImpl, SubSpec, SubSpecImpl,
};

verus! {

/// A pair of coordinates. It is a plain value: two points are the same point
/// exactly when both components agree.
#[derive(Debug, Copy, Clone)]
pub struct Point2D<T> {
    pub x: T,
    pub y: T,
}

impl<T: Copy> Point2D<T> {
    /// The point with the given components.
    pub fn new(x: T, y: T) -> (p: Point2D<T>)
        ensures
            p == (Point2D { x, y }),
    {
        Point2D { x, y }
    }

    /// The point whose components are the two entries of `xy`, in order.
    pub fn new_from_array(xy: [T; 2]) -> (p: Point2D<T>)
        ensures
            p == (Point2D { x: xy@[0], y: xy@[1] }),
    {
        Point2D { x: xy[0], y: xy[1] }
    }

    /// The components as an array, `x` first.
    pub fn as_array(&self) -> (xy: [T; 2])
        ensures
            xy@ == seq![self.x, self.y],
    {
        [self.x, self.y]
    }
}

impl<T: PartialEq> PartialEq for Point2D<T> {
    /// Component-wise equality.
    fn eq(&self, other: &Self) -> (equal: bool) {
        self.x == other.x && self.y == other.y
    }
}

impl<T: PartialEq> PartialEqSpecImpl for Point2D<T> {
    open spec fn obeys_eq_spec() -> bool {
        T::obeys_eq_spec()
    }

    open spec fn eq_spec(&self, other: &Point2D<T>) -> bool {
        self.x.eq_spec(&other.x) && self.y.eq_spec(&other.y)
    }
}

impl<T: Add<Output = T>> Add for Point2D<T> {
    type Output = Point2D<T>;

    /// Component-wise sum. The caller keeps each component's sum in range.
    fn add(self, other: Point2D<T>) -> (sum: Point2D<T>) {
        Point2D { x: self.x + other.x, y: self.y + other.y }
    }
}

impl<T: Add<Output = T>> AddSpecImpl for Point2D<T> {
    open spec fn obeys_add_spec() -> bool {
        T::obeys_add_spec()
    }

    open spec fn add_req(self, other: Point2D<T>) -> bool {
        self.x.add_req(other.x) && self.y.add_req(other.y)
    }

    open spec fn add_spec(self, other: Point2D<T>) -> Point2D<T> {
        Point2D { x: self.x.add_spec(other.x), y: self.y.add_spec(other.y) }
    }
}

impl<T: Sub<Output = T>> Sub for Point2D<T> {
    type Output = Point2D<T>;

    /// Component-wise difference. The caller keeps each component's difference in range.
    fn sub(self, other: Point2D<T>) -> (difference: Point2D<T>) {
        Point2D { x: self.x - other.x, y: self.y - other.y }
    }
}

impl<T: Sub<Output = T>> SubSpecImpl for Point2D<T> {
    open spec fn obeys_sub_spec() -> bool {
        T::obeys_sub_spec()
    }

    open spec fn sub_req(self, other: Point2D<T>) -> bool {
        self.x.sub_req(other.x) && self.y.sub_req(other.y)
    }

    open spec fn sub_spec(self, other: Point2D<T>) -> Point2D<T> {
        Point2D { x: self.x.sub_spec(other.x), y: self.y.sub_spec(other.y) }
    }
}

impl<T: Mul<Output = T>> Mul for Point2D<T> {
    type Output = Point2D<T>;

    /// Component-wise product. The caller keeps each component's product in range.
    fn mul(self, other: Point2D<T>) -> (product: Point2D<T>) {
        Point2D { x: self.x * other.x, y: self.y * other.y }
    }
}

impl<T: Mul<Output = T>> MulSpecImpl for Point2D<T> {
    open spec fn obeys_mul_spec() -> bool {
        T::obeys_mul_spec()
    }

    open spec fn mul_req(self, other: Point2D<T>) -> bool {
        self.x.mul_req(other.x) && self.y.mul_req(other.y)
    }

    open spec fn mul_spec(self, other: Point2D<T>) -> Point2D<T> {
        Point2D { x: self.x.mul_spec(other.x), y: self.y.mul_spec(other.y) }
    }
}

impl<T: Div<Output = T>> Div for Point2D<T> {
    type Output = Point2D<T>;

    /// Component-wise quotient. The caller keeps both components of `other` away from zero.
    fn div(self, other: Point2D<T>) -> (quotient: Point2D<T>) {
        Point2D { x: self.x / other.x, y: self.y / other.y }
    }
}

impl<T: Div<Output = T>> DivSpecImpl for Point2D<T> {
    open spec fn obeys_div_spec() -> bool {
        T::obeys_div_spec()
    }

    open spec fn div_req(self, other: Point2D<T>) -> bool {
        self.x.div_req(other.x) && self.y.div_req(other.y)
    }

    open spec fn div_spec(self, other: Point2D<T>) -> Point2D<T> {
        Point2D { x: self.x.div_spec(other.x), y: self.y.div_spec(other.y) }
    }
}

} // verus!
