//! The trail: one byte of chemical concentration for each slot of the grid.

use vstd::prelude::*;
use crate::plane::Plane;
use crate::plane::grid_fits;
use crate::plane::grid_value;
use crate::plane::grid_well_formed;
use crate::plane::is_grid_size;
use crate::point::Point;
use crate::scalar::is_drawn;
use crate::scalar::is_product;
use crate::scalar::is_rounded;
use crate::scalar::is_whole;
use crate::scalar::Scalar;

verus! {

/// The trail level for a rounded scalar: the same number, kept within a byte.
pub open spec fn spec_clamp_level(rounded: i64) -> u8 {
    if rounded < 0 {
        0u8
    } else if rounded > 255 {
        255u8
    } else {
        rounded as u8
    }
}

/// Keeps a rounded scalar within a byte.
pub fn clamp_level(rounded: i64) -> (level: u8)
    ensures
        level == spec_clamp_level(rounded),
{
    if rounded < 0 {
        0
    } else if rounded > 255 {
        255
    } else {
        rounded as u8
    }
}

/// `level` is a trail level of `draw`: a rounding of a product of the draw and 255, kept
/// within a byte.
pub open spec fn is_level<S: Scalar>(draw: S, level: u8) -> bool {
    exists|full: S, scaled: S, rounded: i64|
        {
            &&& #[trigger] is_whole(255usize, full)
            &&& is_product(draw, full, scaled)
            &&& #[trigger] is_rounded(scaled, rounded)
            &&& level == spec_clamp_level(rounded)
        }
}

/// Turns a draw from the random source, a scalar from 0 up to 1, into a trail level.
pub fn level<S: Scalar>(draw: S) -> (level: u8)
    ensures
        is_level(draw, level),
{
    let full = S::from_usize(255);
    let scaled = draw.times(full);
    let rounded: i64 = scaled.round();
    assert(is_whole(255usize, full) && is_product(draw, full, scaled) && is_rounded(
        scaled,
        rounded,
    ));
    clamp_level(rounded)
}

/// `trail` holds a level of each of `draws`, in the order of the draws.
pub open spec fn is_random_trail<S: Scalar>(draws: Seq<S>, trail: Seq<u8>) -> bool {
    &&& draws.len() == trail.len()
    &&& forall|i: int| 0 <= i < trail.len() ==> is_level(draws[i], #[trigger] trail[i])
}

/// The pixels of a trail, four bytes for each slot: the level as red, green and blue,
/// and full opacity.
pub open spec fn trail_pixels(data: Seq<u8>) -> Seq<u8> {
    Seq::new(
        4 * data.len(),
        |k: int|
            if k % 4 == 3 {
                255u8
            } else {
                data[k / 4]
            },
    )
}

/// The level of a trail on `slot`; 0 where `slot` is no slot of the grid.
pub open spec fn level_on(trail: Seq<u8>, width: usize, height: usize, slot: Option<Point<usize>>)
    -> u8 {
    match slot {
        Some(point) => match grid_value(width, height, trail, point.x, point.y) {
            Some(level) => level,
            None => 0u8,
        },
        None => 0u8,
    }
}

/// A dense field of trail levels, addressed like every other grid of the simulation.
#[derive(Clone)]
pub struct TrailMap {
    pub data: Vec<u8>,
    width: usize,
    height: usize,
}

impl View for TrailMap {
    type V = Seq<u8>;

    /// The levels, row after row.
    closed spec fn view(&self) -> Seq<u8> {
        self.data@
    }
}

impl TrailMap {
    /// The grid is not empty, and `data` has one level for each slot.
    pub open spec fn well_formed(&self) -> bool {
        grid_well_formed(self.spec_width(), self.spec_height(), self@.len())
    }

    /// Tells whether the trail is well formed. It is as long as only the functions of
    /// this type have written to it.
    pub fn is_well_formed(&self) -> (ok: bool)
        ensures
            ok == self.well_formed(),
    {
        grid_fits(self.width, self.height, self.data.len())
    }

    /// A trail of the given size with no chemical anywhere.
    pub fn new(width: usize, height: usize) -> (trail: Self)
        requires
            is_grid_size(width, height),
        ensures
            trail.well_formed(),
            trail.spec_width() == width,
            trail.spec_height() == height,
            forall|i: int| 0 <= i < trail@.len() ==> trail@[i] == 0,
    {
        let data: Vec<u8> = vec![0u8; width * height];
        Self { data, width, height }
    }

    /// A trail of the given size whose levels are drawn from `random_fn`, once for each
    /// slot, row after row.
    pub fn new_random<S: Scalar, F: FnMut() -> S>(
        width: usize,
        height: usize,
        random_fn: &mut F,
    ) -> (trail: Self)
        requires
            is_grid_size(width, height),
            call_requires(*old(random_fn), ()),
        ensures
            trail.well_formed(),
            trail.spec_width() == width,
            trail.spec_height() == height,
            *final(random_fn) == *old(random_fn),
            exists|draws: Seq<S>|
                {
                    &&& is_drawn(*old(random_fn), draws)
                    &&& #[trigger] is_random_trail(draws, trail@)
                },
    {
        let mut data: Vec<u8> = vec![0u8; width * height];
        let ghost mut draws: Seq<S> = Seq::empty();
        let mut index: usize = 0;
        while index < data.len()
            invariant
                index <= data.len(),
                data.len() == width * height,
                *random_fn == *old(random_fn),
                call_requires(*random_fn, ()),
                draws.len() == index,
                is_drawn(*old(random_fn), draws),
                forall|i: int| 0 <= i < index ==> is_level(draws[i], #[trigger] data@[i]),
            decreases data.len() - index,
        {
            let draw = random_fn();
            data[index] = level(draw);
            proof {
                draws = draws.push(draw);
            }
            index += 1;
        }
        assert(is_random_trail(draws, data@));
        Self { data, width, height }
    }

    /// Reads the level on `slot`. Off the grid the trail reads as 0.
    pub fn level_at(&self, slot: Option<Point<usize>>) -> (level: u8)
        ensures
            level == level_on(self@, self.spec_width(), self.spec_height(), slot),
    {
        match slot {
            Some(point) => match self.get_value(point.x, point.y) {
                Some(level) => *level,
                None => 0,
            },
            None => 0,
        }
    }

    /// Writes `level` to the slot with the row-major index `index`, in place of the
    /// level that was there.
    pub fn deposit(&mut self, index: usize, level: u8)
        requires
            index < old(self)@.len(),
        ensures
            final(self)@ == old(self)@.update(index as int, level),
            final(self).spec_width() == old(self).spec_width(),
            final(self).spec_height() == old(self).spec_height(),
    {
        self.data[index] = level;
    }

    /// Puts `data` in place of all levels at once.
    pub fn replace(&mut self, data: Vec<u8>)
        requires
            data@.len() == old(self)@.len(),
        ensures
            final(self)@ == data@,
            final(self).spec_width() == old(self).spec_width(),
            final(self).spec_height() == old(self).spec_height(),
    {
        self.data = data;
    }

    /// The trail as pixels, row after row: an opaque grey of the slot's level.
    pub fn render(&self) -> (pixels: Vec<u8>)
        ensures
            pixels@ == trail_pixels(self@),
    {
        let mut pixels: Vec<u8> = Vec::new();
        let mut index: usize = 0;
        while index < self.data.len()
            invariant
                index <= self.data.len(),
                pixels@.len() == 4 * index,
                forall|k: int|
                    0 <= k < pixels@.len() ==> #[trigger] pixels@[k] == trail_pixels(self.data@)[k],
            decreases self.data.len() - index,
        {
            let value = self.data[index];
            pixels.push(value);
            pixels.push(value);
            pixels.push(value);
            pixels.push(255);
            index += 1;
        }
        assert(pixels@ =~= trail_pixels(self.data@));
        pixels
    }
}

impl Plane<u8> for TrailMap {
    closed spec fn spec_width(&self) -> usize {
        self.width
    }

    closed spec fn spec_height(&self) -> usize {
        self.height
    }

    open spec fn spec_data(&self) -> Seq<u8> {
        self@
    }

    fn width(&self) -> usize {
        self.width
    }

    fn height(&self) -> usize {
        self.height
    }

    fn data(&self) -> &Vec<u8> {
        &self.data
    }
}

} // verus!
