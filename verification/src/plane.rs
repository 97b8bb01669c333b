//! Row-major addressing, shared by every grid of the simulation.

use vstd::prelude::*;
use vstd::std_specs::convert::IntoSpec;
use crate::point::Point;

verus! {

/// A size that a grid can have: the grid is not empty, and the number of its slots is a
/// `usize`.
pub open spec fn is_grid_size(width: usize, height: usize) -> bool {
    &&& width > 0
    &&& height > 0
    &&& width * height <= usize::MAX
}

/// Tells whether a grid can have this size.
pub fn grid_size_fits(width: usize, height: usize) -> (fits: bool)
    ensures
        fits == is_grid_size(width, height),
{
    width > 0 && height > 0 && width.checked_mul(height).is_some()
}

/// Tells whether a buffer of `len` entries holds a grid of this size.
pub fn grid_fits(width: usize, height: usize, len: usize) -> (fits: bool)
    ensures
        fits == grid_well_formed(width, height, len as nat),
{
    if width > 0 && height > 0 {
        match width.checked_mul(height) {
            Some(slots) => slots == len,
            None => false,
        }
    } else {
        false
    }
}

/// A grid that is not empty and whose buffer has one entry for each slot.
pub open spec fn grid_well_formed(width: usize, height: usize, len: nat) -> bool {
    &&& width > 0
    &&& height > 0
    &&& len == width * height
    &&& len <= usize::MAX
}

/// What a grid holds at the slot (x, y); nothing outside the grid.
pub open spec fn grid_value<T>(width: usize, height: usize, data: Seq<T>, x: usize, y: usize)
    -> Option<T> {
    match (Point { x, y }).spec_index(width, height) {
        Some(index) => if index < data.len() {
            Some(data[index as int])
        } else {
            None
        },
        None => None,
    }
}

/// The slot whose row-major index on a grid of the given width is `index`.
pub open spec fn grid_coords(width: usize, index: int) -> Point<usize> {
    Point { x: (index % (width as int)) as usize, y: (index / (width as int)) as usize }
}

/// A grid of `width` by `height` slots kept in one buffer, row after row: the slot
/// (x, y) is entry `width * y + x` of the buffer.
pub trait Plane<T> {
    /// The number of columns.
    spec fn spec_width(&self) -> usize;

    /// The number of rows.
    spec fn spec_height(&self) -> usize;

    /// The buffer, row after row.
    spec fn spec_data(&self) -> Seq<T>;

    /// The number of columns.
    fn width(&self) -> (width: usize)
        ensures
            width == self.spec_width(),
    ;

    /// The number of rows.
    fn height(&self) -> (height: usize)
        ensures
            height == self.spec_height(),
    ;

    /// The buffer, row after row.
    fn data(&self) -> (data: &Vec<T>)
        ensures
            data@ == self.spec_data(),
    ;

    /// The slot whose row-major index is `index`.
    fn get_coords(&self, index: usize) -> (slot: Point<usize>)
        requires
            self.spec_width() > 0,
        ensures
            slot == grid_coords(self.spec_width(), index as int),
    {
        let y = index / self.width();
        let x = index % self.width();
        Point { x, y }
    }

    /// The row-major index of the slot (x, y), if the slot lies on the grid.
    fn get_index(&self, x: usize, y: usize) -> (index: Option<usize>)
        ensures
            index == (Point { x, y }).spec_index(self.spec_width(), self.spec_height()),
    {
        Point { x, y }.get_index(self.width(), self.height())
    }

    /// Reads the slot (x, y). Outside the grid there is no value.
    fn get_value(&self, x: usize, y: usize) -> (value: Option<&T>)
        ensures
            match value {
                Some(v) => grid_value(self.spec_width(), self.spec_height(), self.spec_data(), x, y) == Some(*v),
                None => grid_value(self.spec_width(), self.spec_height(), self.spec_data(), x, y) is None,
            },
    {
        match self.get_index(x, y) {
            Some(index) => {
                let data = self.data();
                if index < data.len() {
                    Some(&data[index])
                } else {
                    None
                }
            },
            None => None,
        }
    }

    /// Reads the slot that `point` converts to. Outside the grid there is no value.
    fn get_value_point<U: Into<Point<usize>>>(&self, point: U) -> (value: Option<&T>)
        ensures
            exists|slot: Point<usize>|
                {
                    &&& U::obeys_into_spec() ==> slot == point.into_spec()
                    &&& match value {
                        Some(v) => #[trigger] grid_value(
                            self.spec_width(),
                            self.spec_height(),
                            self.spec_data(),
                            slot.x,
                            slot.y,
                        ) == Some(*v),
                        None => grid_value(
                            self.spec_width(),
                            self.spec_height(),
                            self.spec_data(),
                            slot.x,
                            slot.y,
                        ) is None,
                    }
                },
    {
        let discrete: Point<usize> = point.into();
        self.get_value(discrete.x, discrete.y)
    }
}

/// On a well-formed grid, every slot of the grid has an index into the buffer, and
/// `get_coords` leads back from that index to the slot.
pub proof fn lemma_index_round_trip(width: usize, height: usize, x: usize, y: usize)
    requires
        x < width,
        y < height,
        width * height <= usize::MAX,
    ensures
        (Point { x, y }).spec_index(width, height) == Some((width * y + x) as usize),
        width * y + x < width * height,
        (width * y + x) % (width as int) == x,
        (width * y + x) / (width as int) == y,
{
    assert(width * y + x < width * height) by (nonlinear_arith)
        requires
            x < width,
            y < height,
    ;
    assert((width * y + x) % (width as int) == x && (width * y + x) / (width as int) == y)
        by (nonlinear_arith)
        requires
            0 <= x < width,
            0 <= y,
    ;
}

/// On a well-formed grid, every index into the buffer belongs to exactly one slot of the
/// grid: the one that `get_coords` gives.
pub proof fn lemma_coords_in_grid(width: usize, height: usize, index: usize)
    requires
        width > 0,
        index < width * height,
    ensures
        index % width < width,
        index / width < height,
        width * (index / width) + index % width == index,
{
    assert(index / width < height && width * (index / width) + index % width == index
        && index % width < width) by (nonlinear_arith)
        requires
            width > 0,
            0 <= index < width * height,
    ;
}

} // verus!
