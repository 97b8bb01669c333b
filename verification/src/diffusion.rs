//! Diffusion of the trail: every slot takes the average of the 3 by 3 window around it.

use vstd::prelude::*;
use crate::plane::lemma_coords_in_grid;
use crate::plane::lemma_index_round_trip;
use crate::plane::Plane;
use crate::trail_map::TrailMap;

verus! {

/// Whether (x, y) is a slot of the grid: 1 if it is, 0 if not.
pub open spec fn present(width: int, height: int, x: int, y: int) -> int {
    if 0 <= x < width && 0 <= y < height {
        1
    } else {
        0
    }
}

/// The level at (x, y), and 0 outside the grid.
pub open spec fn sample(data: Seq<u8>, width: int, height: int, x: int, y: int) -> int {
    if 0 <= x < width && 0 <= y < height {
        data[y * width + x] as int
    } else {
        0
    }
}

/// The sum of the levels in row `y` over the columns from `from` up to, not including,
/// `to`.
pub open spec fn row_sum(data: Seq<u8>, width: int, height: int, y: int, from: int, to: int)
    -> int
    decreases to - from,
{
    if to <= from {
        0
    } else {
        row_sum(data, width, height, y, from, to - 1) + sample(data, width, height, to - 1, y)
    }
}

/// The number of slots in row `y` over the columns from `from` up to, not including,
/// `to`.
pub open spec fn row_count(width: int, height: int, y: int, from: int, to: int) -> int
    decreases to - from,
{
    if to <= from {
        0
    } else {
        row_count(width, height, y, from, to - 1) + present(width, height, to - 1, y)
    }
}

/// The sum of the levels in the 3 columns around `x`, over the rows from `from` up to,
/// not including, `to`.
pub open spec fn rows_sum(data: Seq<u8>, width: int, height: int, x: int, from: int, to: int)
    -> int
    decreases to - from,
{
    if to <= from {
        0
    } else {
        rows_sum(data, width, height, x, from, to - 1) + row_sum(
            data,
            width,
            height,
            to - 1,
            x - 1,
            x + 2,
        )
    }
}

/// The number of slots in the 3 columns around `x`, over the rows from `from` up to,
/// not including, `to`.
pub open spec fn rows_count(width: int, height: int, x: int, from: int, to: int) -> int
    decreases to - from,
{
    if to <= from {
        0
    } else {
        rows_count(width, height, x, from, to - 1) + row_count(width, height, to - 1, x - 1, x + 2)
    }
}

/// The sum of the levels in the 3 by 3 window around (x, y).
pub open spec fn window_sum(data: Seq<u8>, width: int, height: int, x: int, y: int) -> int {
    rows_sum(data, width, height, x, y - 1, y + 2)
}

/// The number of slots in the 3 by 3 window around (x, y): 9 inside the grid, 6 on an
/// edge, 4 in a corner (fewer on a grid that is less than 2 wide or high).
pub open spec fn window_count(width: int, height: int, x: int, y: int) -> int {
    rows_count(width, height, x, y - 1, y + 2)
}

/// The average level around (x, y): the sum over the window, divided by the number of
/// its slots and rounded down.
pub open spec fn average(data: Seq<u8>, width: int, height: int, x: int, y: int) -> int {
    window_sum(data, width, height, x, y) / window_count(width, height, x, y)
}

/// The trail after one pass of diffusion: every slot holds the average around it, taken
/// over the trail as it was before the pass.
pub open spec fn diffused(data: Seq<u8>, width: int, height: int) -> Seq<u8> {
    Seq::new(data.len(), |i: int| average(data, width, height, i % width, i / width) as u8)
}

/// The window around a slot of the grid holds the slot itself, so it is never empty, and
/// the average over it is a level again: it lies between 0 and 255.
pub proof fn lemma_average_is_level(data: Seq<u8>, width: int, height: int, x: int, y: int)
    requires
        0 <= x < width,
        0 <= y < height,
        data.len() == width * height,
    ensures
        1 <= window_count(width, height, x, y) <= 9,
        0 <= window_sum(data, width, height, x, y) <= 255 * window_count(width, height, x, y),
        0 <= average(data, width, height, x, y) <= 255,
{
    reveal_with_fuel(row_sum, 4);
    reveal_with_fuel(row_count, 4);
    reveal_with_fuel(rows_sum, 4);
    reveal_with_fuel(rows_count, 4);
    assert forall|i: int, j: int| 0 <= i < width && 0 <= j < height implies 0 <= #[trigger] (j
        * width + i) < width * height by {
        assert(0 <= j * width + i < width * height) by (nonlinear_arith)
            requires
                0 <= i < width,
                0 <= j < height,
        ;
    }
    let sum = window_sum(data, width, height, x, y);
    let count = window_count(width, height, x, y);
    assert(1 <= count <= 9);
    assert(0 <= sum <= 255 * count);
    assert(0 <= sum / count <= 255) by (nonlinear_arith)
        requires
            1 <= count,
            0 <= sum <= 255 * count,
    ;
}

/// The average level around the slot (x, y) of `trail`.
pub fn average_around(trail: &TrailMap, x: usize, y: usize) -> (level: u8)
    requires
        trail.well_formed(),
        x < trail.spec_width(),
        y < trail.spec_height(),
    ensures
        level == average(
            trail@,
            trail.spec_width() as int,
            trail.spec_height() as int,
            x as int,
            y as int,
        ),
{
    let ghost data = trail@;
    let ghost width = trail.spec_width() as int;
    let ghost height = trail.spec_height() as int;
    let mut sum: u32 = 0;
    let mut n: u32 = 0;
    // the rows y - 1, y and y + 1, as far as they lie on the grid
    let mut dy: usize = 0;
    while dy < 3
        invariant
            trail.well_formed(),
            data == trail@,
            width == trail.spec_width(),
            height == trail.spec_height(),
            x < width,
            y < height,
            dy <= 3,
            sum == rows_sum(data, width, height, x as int, y - 1, y - 1 + dy),
            n == rows_count(width, height, x as int, y - 1, y - 1 + dy),
            n <= 3 * dy,
            sum <= 255 * n,
        decreases 3 - dy,
    {
        proof {
            reveal_with_fuel(row_sum, 4);
            reveal_with_fuel(row_count, 4);
        }
        if y > 0 || dy > 0 {
            let j: usize = if dy == 0 {
                y - 1
            } else {
                y + (dy - 1)
            };
            let mut row: u32 = 0;
            let mut m: u32 = 0;
            // the columns x - 1, x and x + 1, as far as they lie on the grid
            let mut dx: usize = 0;
            while dx < 3
                invariant
                    trail.well_formed(),
                    data == trail@,
                    width == trail.spec_width(),
                    height == trail.spec_height(),
                    x < width,
                    dx <= 3,
                    row == row_sum(data, width, height, j as int, x - 1, x - 1 + dx),
                    m == row_count(width, height, j as int, x - 1, x - 1 + dx),
                    m <= dx,
                    row <= 255 * m,
                decreases 3 - dx,
            {
                if x > 0 || dx > 0 {
                    let k: usize = if dx == 0 {
                        x - 1
                    } else {
                        x + (dx - 1)
                    };
                    proof {
                        if k < width && j < height {
                            lemma_index_round_trip(
                                trail.spec_width(),
                                trail.spec_height(),
                                k,
                                j,
                            );
                            assert(j * width + k == width * j + k) by (nonlinear_arith);
                        }
                    }
                    if let Some(value) = trail.get_value(k, j) {
                        m += 1;
                        row += *value as u32;
                    }
                }
                dx += 1;
            }
            sum += row;
            n += m;
        }
        dy += 1;
    }
    proof {
        lemma_average_is_level(data, width, height, x as int, y as int);
    }
    let level = sum / n;
    level as u8
}

/// One pass of diffusion over `trail`, as a new buffer.
pub fn diffuse_trail(trail: &TrailMap) -> (data: Vec<u8>)
    requires
        trail.well_formed(),
    ensures
        data@ == diffused(trail@, trail.spec_width() as int, trail.spec_height() as int),
{
    let width = trail.width();
    let len = trail.data().len();
    let mut data: Vec<u8> = vec![0u8; len];
    let mut i: usize = 0;
    while i < len
        invariant
            trail.well_formed(),
            width == trail.spec_width(),
            len == trail@.len(),
            data.len() == len,
            i <= len,
            forall|k: int|
                0 <= k < i ==> #[trigger] data@[k] == diffused(
                    trail@,
                    trail.spec_width() as int,
                    trail.spec_height() as int,
                )[k],
        decreases len - i,
    {
        proof {
            lemma_coords_in_grid(trail.spec_width(), trail.spec_height(), i);
        }
        let slot = trail.get_coords(i);
        let level = average_around(trail, slot.x, slot.y);
        data[i] = level;
        i += 1;
    }
    assert(data@ =~= diffused(trail@, trail.spec_width() as int, trail.spec_height() as int));
    data
}

} // verus!
