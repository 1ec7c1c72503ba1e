//! A dense matrix of values addressed by a coordinate or by a storage place.

use crate::grid::{index_of, lemma_index_of_coordinate, Grid};
use crate::point_2d::Point2D;
use crate::ConstructionError;
use vstd::prelude::*;

verus! {

/// A `size.x` by `size.y` matrix stored row by row.
pub struct Matrix2D<T> {
    size: Point2D<i32>,
    data: Vec<T>,
}

impl<T> View for Matrix2D<T> {
    type V = Grid<T>;

    closed spec fn view(&self) -> Grid<T> {
        Grid { width: self.size.x as int, height: self.size.y as int, cells: self.data@ }
    }
}

impl<T> Matrix2D<T> {
    /// The matrix holds one value per coordinate of a grid with positive
    /// dimensions.
    pub open spec fn wf(&self) -> bool {
        &&& self@.wf()
        &&& self@.width <= i32::MAX
        &&& self@.height <= i32::MAX
        &&& self@.cells.len() <= usize::MAX
    }

    /// The values of any matrix can be counted in a `usize`.
    pub proof fn lemma_len_fits(&self)
        ensures
            self@.cells.len() <= usize::MAX,
    {
        assert(self.data.len() == self.data@.len());
    }

    /// The number of columns and of rows, as `x` and `y`.
    pub fn size(&self) -> (size: Point2D<i32>)
        ensures
            size.x == self@.width,
            size.y == self@.height,
    {
        self.size
    }

    /// The number of values held.
    pub fn len(&self) -> (len: usize)
        ensures
            len == self@.cells.len(),
    {
        self.data.len()
    }

    /// The storage place of `pos`, or `None` where `pos` is outside the matrix.
    pub fn pos_to_index(&self, pos: Point2D<i32>) -> (index: Option<usize>)
        requires
            self.wf(),
        ensures
            self@.contains(pos.x as int, pos.y as int) ==> (index matches Some(i) && i == index_of(
                self@.width,
                pos.x as int,
                pos.y as int,
            ) && i < self@.cells.len()),
            !self@.contains(pos.x as int, pos.y as int) ==> index is None,
    {
        if pos.x >= 0 && pos.x < self.size.x && pos.y >= 0 && pos.y < self.size.y {
            proof {
                lemma_index_of_coordinate(
                    self@.width,
                    self@.height,
                    pos.x as int,
                    pos.y as int,
                );
                assert(pos.y as int * self.size.x as int <= index_of(
                    self@.width,
                    pos.x as int,
                    pos.y as int,
                ));
                assert(0 <= pos.y as int * self.size.x as int) by (nonlinear_arith)
                    requires
                        0 <= pos.y,
                        0 < self.size.x,
                ;
            }
            Some(pos.y as usize * self.size.x as usize + pos.x as usize)
        } else {
            None
        }
    }

    /// The value at the storage place `index`, or `None` where there is no
    /// such place.
    pub fn get(&self, index: usize) -> (value: Option<&T>)
        ensures
            index < self@.cells.len() ==> value == Some(&self@.cells[index as int]),
            index >= self@.cells.len() ==> value is None,
    {
        if index < self.data.len() {
            Some(&self.data[index])
        } else {
            None
        }
    }

    /// The value at the storage place `index`, for the caller to change, or
    /// `None` where there is no such place. Nothing but that value can change.
    pub fn get_mut(&mut self, index: usize) -> (value: Option<&mut T>)
        ensures
            index < old(self)@.cells.len() ==> (value matches Some(v) && *v == old(
                self,
            )@.cells[index as int] && final(self)@ == (Grid {
                cells: old(self)@.cells.update(index as int, *final(v)),
                ..old(self)@
            })),
            index >= old(self)@.cells.len() ==> value is None && final(self)@ == old(self)@,
    {
        if index < self.data.len() {
            Some(&mut self.data[index])
        } else {
            None
        }
    }

    /// The value at `pos`, or `None` where `pos` is outside the matrix.
    pub fn get_pos(&self, pos: Point2D<i32>) -> (value: Option<&T>)
        requires
            self.wf(),
        ensures
            self@.contains(pos.x as int, pos.y as int) ==> value == Some(
                &self@.at(pos.x as int, pos.y as int),
            ),
            !self@.contains(pos.x as int, pos.y as int) ==> value is None,
    {
        match self.pos_to_index(pos) {
            Some(i) => self.get(i),
            None => None,
        }
    }

    /// The value at `pos`, for the caller to change, or `None` where `pos` is
    /// outside the matrix. Nothing but that value can change.
    pub fn get_pos_mut(&mut self, pos: Point2D<i32>) -> (value: Option<&mut T>)
        requires
            old(self).wf(),
        ensures
            old(self)@.contains(pos.x as int, pos.y as int) ==> (value matches Some(v) && *v == old(
                self,
            )@.at(pos.x as int, pos.y as int) && final(self)@ == old(self)@.put(
                pos.x as int,
                pos.y as int,
                *final(v),
            )),
            !old(self)@.contains(pos.x as int, pos.y as int) ==> value is None && final(self)@
                == old(self)@,
    {
        match self.pos_to_index(pos) {
            Some(i) => self.get_mut(i),
            None => None,
        }
    }
}

impl<T: Clone> Matrix2D<T> {
    /// A matrix of the given size in which every value is a clone of `value`.
    pub fn filled(size: &Point2D<i32>, value: T) -> (made: Result<Matrix2D<T>, ConstructionError>)
        requires
            size.x > 0 && size.y > 0 ==> size.x * size.y <= usize::MAX,
        ensures
            match made {
                Ok(m) => {
                    &&& size.x > 0 && size.y > 0
                    &&& m.wf()
                    &&& m@.width == size.x
                    &&& m@.height == size.y
                    &&& forall|i: int| 0 <= i < m@.cells.len() ==> cloned(value, #[trigger] m@.cells[i])
                },
                Err(e) => (size.x <= 0 || size.y <= 0) && e == ConstructionError::InvalidDimensions,
            },
    {
        if size.x <= 0 || size.y <= 0 {
            return Err(ConstructionError::InvalidDimensions);
        }
        let total_size = size.x as usize * size.y as usize;
        Ok(Matrix2D { size: *size, data: vec![value; total_size] })
    }
}

impl<T: Default + Clone> Matrix2D<T> {
    /// A matrix of the given size in which every value is a clone of the
    /// type's default value. It fails exactly when a dimension is not positive.
    pub fn new(size: &Point2D<i32>) -> (made: Result<Matrix2D<T>, ConstructionError>)
        requires
            size.x > 0 && size.y > 0 ==> size.x * size.y <= usize::MAX,
        ensures
            match made {
                Ok(m) => {
                    &&& size.x > 0 && size.y > 0
                    &&& m.wf()
                    &&& m@.width == size.x
                    &&& m@.height == size.y
                    &&& exists|d: T|
                        call_ensures(T::default, (), d) && forall|i: int|
                            0 <= i < m@.cells.len() ==> cloned(d, #[trigger] m@.cells[i])
                },
                Err(e) => (size.x <= 0 || size.y <= 0) && e == ConstructionError::InvalidDimensions,
            },
    {
        Matrix2D::filled(size, T::default())
    }
}

} // verus!
