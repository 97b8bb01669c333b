//! Points of the plane, continuous and discrete.

use vstd::prelude::*;
use vstd::std_specs::convert::FromSpecImpl;
use vstd::std_specs::ops::AddSpecImpl;
use vstd::std_specs::ops::MulSpecImpl;
use crate::scalar::is_cosine;
use crate::scalar::is_product;
use crate::scalar::is_rounded;
use crate::scalar::is_sine;
use crate::scalar::is_sum;
use crate::scalar::Scalar;

verus! {

/// A pair of coordinates. With scalar coordinates it is a point (or a vector) of the
/// continuous plane; with `usize` coordinates it names a slot of a grid.
#[derive(Clone, Copy, Debug, PartialEq, Eq, Hash)]
pub struct Point<T> {
    pub x: T,
    pub y: T,
}

impl<T> Point<T> {
    /// The point with the coordinates `x` and `y`.
    pub fn new(x: T, y: T) -> (p: Self)
        ensures
            p.x == x,
            p.y == y,
    {
        Self { x, y }
    }
}

impl Point<usize> {
    /// The row-major index of this slot on a grid of the given size, if the slot lies on
    /// the grid and the index is a `usize`.
    pub open spec fn spec_index(self, width: usize, height: usize) -> Option<usize> {
        if self.x < width && self.y < height && width * self.y + self.x <= usize::MAX {
            Some((width * self.y + self.x) as usize)
        } else {
            None
        }
    }

    /// The row-major index `width * y + x` of this slot. A slot outside the grid has no
    /// index: nothing wraps around.
    pub fn get_index(&self, width: usize, height: usize) -> (index: Option<usize>)
        ensures
            index == self.spec_index(width, height),
    {
        if self.x < width && self.y < height {
            assert(width * self.y <= 0xffff_ffff_ffff_ffff * 0xffff_ffff_ffff_ffff) by (nonlinear_arith)
                requires
                    0 <= width <= 0xffff_ffff_ffff_ffff,
                    0 <= self.y <= 0xffff_ffff_ffff_ffff,
            ;
            let wide: u128 = (width as u128) * (self.y as u128) + (self.x as u128);
            if wide <= usize::MAX as u128 {
                Some(wide as usize)
            } else {
                None
            }
        } else {
            None
        }
    }
}

impl Point<i64> {
    /// The slot with these coordinates, if neither is negative and both are indices.
    pub open spec fn spec_slot(self) -> Option<Point<usize>> {
        if 0 <= self.x <= usize::MAX && 0 <= self.y <= usize::MAX {
            Some(Point { x: self.x as usize, y: self.y as usize })
        } else {
            None
        }
    }

    /// The slot with these coordinates. A point with a negative coordinate (or one
    /// beyond the indices of this machine) names no slot.
    pub fn to_slot(self) -> (slot: Option<Point<usize>>)
        ensures
            slot == self.spec_slot(),
    {
        if self.x < 0 || self.y < 0 {
            None
        } else if self.x as u64 > usize::MAX as u64 || self.y as u64 > usize::MAX as u64 {
            None
        } else {
            Some(Point { x: self.x as usize, y: self.y as usize })
        }
    }
}

impl<S: Scalar> Point<S> {
    /// `unit` is a unit vector along the angle `degrees`: a cosine and a sine of it.
    pub open spec fn is_direction(degrees: S, unit: Point<S>) -> bool {
        is_cosine(degrees, unit.x) && is_sine(degrees, unit.y)
    }

    /// `r` is a sum of `self` and `rhs`, coordinate by coordinate.
    pub open spec fn is_sum(self, rhs: Point<S>, r: Point<S>) -> bool {
        is_sum(self.x, rhs.x, r.x) && is_sum(self.y, rhs.y, r.y)
    }

    /// `r` is `self` with both coordinates multiplied by `factor`.
    pub open spec fn is_scaled(self, factor: S, r: Point<S>) -> bool {
        is_product(self.x, factor, r.x) && is_product(self.y, factor, r.y)
    }

    /// `r` is `self` with both coordinates rounded.
    pub open spec fn is_rounded(self, r: Point<i64>) -> bool {
        is_rounded(self.x, r.x) && is_rounded(self.y, r.y)
    }

    /// `slot` is what `self` rounds to: the slot of a rounding of `self`, or nothing
    /// where that rounding names no slot.
    pub open spec fn is_discrete(self, slot: Option<Point<usize>>) -> bool {
        exists|r: Point<i64>| #[trigger] self.is_rounded(r) && slot == r.spec_slot()
    }

    /// The unit vector (cosine, sine) of an angle given in degrees.
    pub fn from_degrees(degrees: S) -> (unit: Self)
        ensures
            Self::is_direction(degrees, unit),
    {
        Self { x: degrees.cos_degrees(), y: degrees.sin_degrees() }
    }

    /// Rounds each coordinate to the nearest whole number and takes the slot with these
    /// coordinates. A point with a coordinate that rounds below zero names no slot.
    pub fn to_discrete(self) -> (slot: Option<Point<usize>>)
        ensures
            self.is_discrete(slot),
    {
        let rounded: Point<i64> = Point { x: self.x.round(), y: self.y.round() };
        assert(self.is_rounded(rounded));
        rounded.to_slot()
    }
}

impl<S: Scalar> core::ops::Add<Point<S>> for Point<S> {
    type Output = Point<S>;

    /// Adds two points coordinate by coordinate.
    fn add(self, rhs: Point<S>) -> (sum: Point<S>)
        ensures
            self.is_sum(rhs, sum),
    {
        Point { x: self.x.plus(rhs.x), y: self.y.plus(rhs.y) }
    }
}

impl<S: Scalar> AddSpecImpl<Point<S>> for Point<S> {
    /// The operator is not bound to one sum: it gives a sum, as `add` promises.
    open spec fn obeys_add_spec() -> bool {
        false
    }

    open spec fn add_req(self, rhs: Point<S>) -> bool {
        true
    }

    open spec fn add_spec(self, rhs: Point<S>) -> Point<S> {
        choose|r: Point<S>| self.is_sum(rhs, r)
    }
}

impl<S: Scalar> core::ops::Mul<S> for Point<S> {
    type Output = Point<S>;

    /// Multiplies both coordinates by `rhs`.
    fn mul(self, rhs: S) -> (scaled: Point<S>)
        ensures
            self.is_scaled(rhs, scaled),
    {
        Point { x: self.x.times(rhs), y: self.y.times(rhs) }
    }
}

impl<S: Scalar> MulSpecImpl<S> for Point<S> {
    /// The operator is not bound to one product: it gives a product, as `mul` promises.
    open spec fn obeys_mul_spec() -> bool {
        false
    }

    open spec fn mul_req(self, rhs: S) -> bool {
        true
    }

    open spec fn mul_spec(self, rhs: S) -> Point<S> {
        choose|r: Point<S>| self.is_scaled(rhs, r)
    }
}

impl<S: Scalar> From<Point<S>> for Point<i64> {
    /// Rounds each coordinate to the nearest whole number, a tie going away from zero.
    fn from(point: Point<S>) -> (rounded: Self)
        ensures
            point.is_rounded(rounded),
    {
        Point { x: point.x.round(), y: point.y.round() }
    }
}

impl<S: Scalar> FromSpecImpl<Point<S>> for Point<i64> {
    /// The conversion is not bound to one rounding: it gives a rounding, as `from`
    /// promises.
    open spec fn obeys_from_spec() -> bool {
        false
    }

    open spec fn from_spec(point: Point<S>) -> Self {
        choose|r: Point<i64>| point.is_rounded(r)
    }
}

} // verus!
