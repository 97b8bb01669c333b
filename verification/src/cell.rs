//! The agents and the grid that holds them.

use vstd::prelude::*;
use crate::config::SensorConfig;
use crate::plane::grid_coords;
use crate::plane::grid_fits;
use crate::plane::grid_value;
use crate::plane::grid_well_formed;
use crate::plane::is_grid_size;
use crate::plane::Plane;
use crate::point::Point;
use crate::scalar::is_below;
use crate::scalar::is_drawn;
use crate::scalar::is_product;
use crate::scalar::is_whole;
use crate::scalar::Scalar;

verus! {

/// One agent: where it is on the continuous plane and where it is heading.
#[derive(Clone, Copy, Debug)]
pub struct Cell<S> {
    /// The pixel position of the agent
    pub position: Point<S>,
    /// The heading of the agent in degrees; it decides where the agent moves and what
    /// its sensors see
    pub direction: S,
}

/// `heading` is a heading of `draw`: a product of the draw and 360.
pub open spec fn is_heading<S: Scalar>(draw: S, heading: S) -> bool {
    exists|full: S| #[trigger] is_whole(360usize, full) && is_product(draw, full, heading)
}

/// Turns a draw from the random source, a scalar from 0 up to 1, into a heading from 0
/// up to 360 degrees.
pub fn heading<S: Scalar>(draw: S) -> (heading: S)
    ensures
        is_heading(draw, heading),
{
    let full = S::from_usize(360);
    let heading = draw.times(full);
    assert(is_whole(360usize, full) && is_product(draw, full, heading));
    heading
}

impl<S: Scalar> Cell<S> {
    /// `moved` is this agent after a step of `distance` along its heading: its position
    /// is a sum of the old position and a unit vector along the heading scaled by the
    /// distance, and its heading is the same.
    pub open spec fn is_step(self, distance: S, moved: Cell<S>) -> bool {
        exists|unit: Point<S>, delta: Point<S>|
            {
                &&& Point::is_direction(self.direction, unit)
                &&& #[trigger] unit.is_scaled(distance, delta)
                &&& self.position.is_sum(delta, moved.position)
                &&& moved.direction == self.direction
            }
    }

    /// The slot that the agent stands on, if its position rounds to one.
    pub fn position_discrete(&self) -> (slot: Option<Point<usize>>)
        ensures
            self.position.is_discrete(slot),
    {
        self.position.to_discrete()
    }

    /// Moves the agent by `distance` along its heading.
    pub fn step(&mut self, distance: S)
        ensures
            old(self).is_step(distance, *final(self)),
    {
        let unit = Point::from_degrees(self.direction);
        let delta = unit * distance;
        self.position = self.position + delta;
        assert(Point::is_direction(old(self).direction, unit) && unit.is_scaled(distance, delta)
            && old(self).position.is_sum(delta, self.position));
    }
}

/// The number of agents in a row of slots.
pub open spec fn live_count<S>(cells: Seq<Option<Cell<S>>>) -> nat
    decreases cells.len(),
{
    if cells.len() == 0 {
        0
    } else {
        live_count(cells.drop_last()) + if cells.last() is Some {
            1nat
        } else {
            0nat
        }
    }
}

/// Writing one slot changes the number of agents by what the slot gains or loses.
pub proof fn lemma_live_count_update<S>(
    cells: Seq<Option<Cell<S>>>,
    index: int,
    value: Option<Cell<S>>,
)
    requires
        0 <= index < cells.len(),
    ensures
        live_count(cells.update(index, value)) + (if cells[index] is Some {
            1nat
        } else {
            0nat
        }) == live_count(cells) + (if value is Some {
            1nat
        } else {
            0nat
        }),
    decreases cells.len(),
{
    let written = cells.update(index, value);
    if index == cells.len() - 1 {
        assert(written.drop_last() =~= cells.drop_last());
    } else {
        lemma_live_count_update(cells.drop_last(), index, value);
        assert(written.drop_last() =~= cells.drop_last().update(index, value));
    }
}

/// The row-major indices of the slots that hold an agent, in rising order.
pub open spec fn occupied_slots<S>(cells: Seq<Option<Cell<S>>>) -> Seq<usize>
    decreases cells.len(),
{
    if cells.len() == 0 {
        Seq::empty()
    } else if cells.last() is Some {
        occupied_slots(cells.drop_last()).push((cells.len() - 1) as usize)
    } else {
        occupied_slots(cells.drop_last())
    }
}

/// The list of occupied slots names each agent's slot once, and no other slot.
pub proof fn lemma_occupied_slots<S>(cells: Seq<Option<Cell<S>>>)
    requires
        cells.len() <= usize::MAX,
    ensures
        occupied_slots(cells).len() == live_count(cells),
        forall|k: int|
            0 <= k < occupied_slots(cells).len() ==> {
                &&& (#[trigger] occupied_slots(cells)[k]) < cells.len()
                &&& cells[occupied_slots(cells)[k] as int] is Some
            },
        forall|j: int, k: int|
            0 <= j < k < occupied_slots(cells).len() ==> occupied_slots(cells)[j]
                < occupied_slots(cells)[k],
        forall|i: int|
            0 <= i < cells.len() && (#[trigger] cells[i]) is Some ==> occupied_slots(
                cells,
            ).contains(i as usize),
    decreases cells.len(),
{
    if cells.len() > 0 {
        let rest = cells.drop_last();
        lemma_occupied_slots(rest);
        let slots = occupied_slots(cells);
        assert forall|i: int| 0 <= i < cells.len() && (#[trigger] cells[i]) is Some implies slots.contains(
            i as usize,
        ) by {
            if i < cells.len() - 1 {
                assert(rest[i] is Some);
                let k = choose|k: int|
                    0 <= k < occupied_slots(rest).len() && occupied_slots(rest)[k] == i as usize;
                assert(slots[k] == i as usize);
            } else {
                assert(slots[slots.len() - 1] == i as usize);
            }
        }
    }
}

/// The slot that an agent may move to: the index of `destination`, if that is a slot
/// of the grid and empty.
pub open spec fn free_target<S>(
    cells: Seq<Option<Cell<S>>>,
    width: usize,
    height: usize,
    destination: Option<Point<usize>>,
) -> Option<usize> {
    match destination {
        Some(point) => match point.spec_index(width, height) {
            Some(index) => if index < cells.len() && cells[index as int] is None {
                Some(index)
            } else {
                None
            },
            None => None,
        },
        None => None,
    }
}

/// The pixels of a grid of agents, four bytes for each slot: opaque white where an
/// agent stands, opaque black elsewhere.
pub open spec fn cell_pixels<S>(cells: Seq<Option<Cell<S>>>) -> Seq<u8> {
    Seq::new(
        4 * cells.len(),
        |k: int|
            if k % 4 == 3 || cells[k / 4] is Some {
                255u8
            } else {
                0u8
            },
    )
}

/// The slots after `cell` was put on `slot`: the slot holds the agent, whatever it held
/// before; a slot outside the grid changes nothing.
pub open spec fn with_cell<S>(
    cells: Seq<Option<Cell<S>>>,
    width: usize,
    height: usize,
    slot: Option<Point<usize>>,
    cell: Cell<S>,
) -> Seq<Option<Cell<S>>> {
    match slot {
        Some(point) => match point.spec_index(width, height) {
            Some(index) => if index < cells.len() {
                cells.update(index as int, Some(cell))
            } else {
                cells
            },
            None => cells,
        },
        None => cells,
    }
}

/// `position` is the position of an agent that was seeded on `slot`: its coordinates
/// are the slot's, as scalars.
pub open spec fn is_seed_position<S: Scalar>(slot: Point<usize>, position: Point<S>) -> bool {
    is_whole(slot.x, position.x) && is_whole(slot.y, position.y)
}

/// What seeding leaves on `slot`, and the draws that this takes. The first draw
/// decides whether an agent is placed: it is where an answer to whether the draw is
/// below `probability` is yes. If so, the agent is placed on the slot with a heading of
/// a second draw; if not, the slot stays empty and no second draw is made.
pub open spec fn is_seeded<S: Scalar>(
    slot: Point<usize>,
    probability: S,
    draws: Seq<S>,
    seeded: Option<Cell<S>>,
) -> bool {
    match seeded {
        Some(cell) => {
            &&& draws.len() == 2
            &&& is_below(draws[0], probability, true)
            &&& is_seed_position(slot, cell.position)
            &&& is_heading(draws[1], cell.direction)
        },
        None => {
            &&& draws.len() == 1
            &&& is_below(draws[0], probability, false)
        },
    }
}

/// What seeding leaves on the slot with the row-major index `i`; this takes the draws
/// from `marks[i]` up to `marks[i + 1]`.
pub open spec fn is_seeding_turn<S: Scalar>(
    width: usize,
    probability: S,
    draws: Seq<S>,
    marks: Seq<int>,
    cells: Seq<Option<Cell<S>>>,
    i: int,
) -> bool {
    &&& 0 <= marks[i] <= marks[i + 1] <= draws.len()
    &&& is_seeded(
        grid_coords(width, i),
        probability,
        draws.subrange(marks[i], marks[i + 1]),
        cells[i],
    )
}

/// Seeding, slot by slot, row after row. `draws` holds all draws in the order in which
/// they were made; those for the slot `i` are the draws from `marks[i]` up to
/// `marks[i + 1]`.
pub open spec fn is_seeding<S: Scalar>(
    width: usize,
    probability: S,
    draws: Seq<S>,
    marks: Seq<int>,
    cells: Seq<Option<Cell<S>>>,
) -> bool {
    &&& marks.len() == cells.len() + 1
    &&& marks[0] == 0
    &&& marks[cells.len() as int] == draws.len()
    &&& forall|i: int|
        0 <= i < cells.len() ==> #[trigger] is_seeding_turn(
            width,
            probability,
            draws,
            marks,
            cells,
            i,
        )
}

/// The agents of a simulation: a grid of slots, each empty or holding one agent.
#[derive(Clone)]
pub struct CellMap<S> {
    pub cells: Vec<Option<Cell<S>>>,
    width: usize,
    height: usize,
    sensor_config: SensorConfig<S>,
}

impl<S> View for CellMap<S> {
    type V = Seq<Option<Cell<S>>>;

    /// The slots, row after row.
    closed spec fn view(&self) -> Seq<Option<Cell<S>>> {
        self.cells@
    }
}

impl<S: Scalar> CellMap<S> {
    /// The sensor properties that the grid was made with.
    pub closed spec fn spec_sensor_config(&self) -> SensorConfig<S> {
        self.sensor_config
    }

    /// The grid is not empty, and `cells` has one entry for each slot.
    pub open spec fn well_formed(&self) -> bool {
        grid_well_formed(self.spec_width(), self.spec_height(), self@.len())
    }

    /// The number of agents on the grid.
    pub open spec fn spec_live_cells(&self) -> nat {
        live_count(self@)
    }

    /// Tells whether the grid is well formed. It is as long as only the functions of
    /// this type have written to it.
    pub fn is_well_formed(&self) -> (ok: bool)
        ensures
            ok == self.well_formed(),
    {
        grid_fits(self.width, self.height, self.cells.len())
    }

    /// A grid of the given size with no agent on it.
    pub fn new(width: usize, height: usize, sensor_config: SensorConfig<S>) -> (map: Self)
        requires
            is_grid_size(width, height),
        ensures
            map.well_formed(),
            map.spec_width() == width,
            map.spec_height() == height,
            map.spec_sensor_config() == sensor_config,
            forall|i: int| 0 <= i < map@.len() ==> map@[i] is None,
    {
        let mut cells: Vec<Option<Cell<S>>> = Vec::new();
        let len = width * height;
        let mut index: usize = 0;
        while index < len
            invariant
                index <= len,
                cells.len() == index,
                forall|i: int| 0 <= i < index ==> cells@[i] is None,
            decreases len - index,
        {
            cells.push(None);
            index += 1;
        }
        Self { cells, width, height, sensor_config }
    }

    /// A grid of the given size, seeded at random. For each slot, row after row, one
    /// draw from `random_fn` decides whether an agent is placed on it: it is where the
    /// draw is below `probability`. For each agent that is placed a second draw gives
    /// its heading.
    pub fn new_random<F: FnMut() -> S>(
        width: usize,
        height: usize,
        sensor_config: SensorConfig<S>,
        random_fn: &mut F,
        probability: S,
    ) -> (map: Self)
        requires
            is_grid_size(width, height),
            call_requires(*old(random_fn), ()),
        ensures
            map.well_formed(),
            map.spec_width() == width,
            map.spec_height() == height,
            map.spec_sensor_config() == sensor_config,
            *final(random_fn) == *old(random_fn),
            exists|draws: Seq<S>, marks: Seq<int>|
                {
                    &&& is_drawn(*old(random_fn), draws)
                    &&& #[trigger] is_seeding(width, probability, draws, marks, map@)
                },
    {
        let mut cells: Vec<Option<Cell<S>>> = Vec::new();
        let ghost mut draws: Seq<S> = Seq::empty();
        let ghost mut marks: Seq<int> = seq![0int];
        let mut y: usize = 0;
        while y < height
            invariant
                width > 0,
                width * height <= usize::MAX,
                y <= height,
                *random_fn == *old(random_fn),
                call_requires(*random_fn, ()),
                cells.len() == width * y,
                is_drawn(*old(random_fn), draws),
                is_seeding(width, probability, draws, marks, cells@),
            decreases height - y,
        {
            let mut x: usize = 0;
            while x < width
                invariant
                    width > 0,
                    width * height <= usize::MAX,
                    y < height,
                    x <= width,
                    *random_fn == *old(random_fn),
                    call_requires(*random_fn, ()),
                    cells.len() == width * y + x,
                    is_drawn(*old(random_fn), draws),
                    is_seeding(width, probability, draws, marks, cells@),
                decreases width - x,
            {
                let ghost index = cells.len() as int;
                let ghost seeded = cells@;
                let ghost used: Seq<S>;
                proof {
                    assert(index % (width as int) == x && index / (width as int) == y)
                        by (nonlinear_arith)
                        requires
                            index == width * y + x,
                            0 <= x < width,
                            0 <= y,
                    ;
                    assert(grid_coords(width, index) == Point { x, y });
                }
                let placement = random_fn();
                if placement.less_than(probability) {
                    let position = Point { x: S::from_usize(x), y: S::from_usize(y) };
                    let turn = random_fn();
                    let direction = heading(turn);
                    cells.push(Some(Cell { position, direction }));
                    proof {
                        used = seq![placement, turn];
                    }
                } else {
                    cells.push(None);
                    proof {
                        used = seq![placement];
                    }
                }
                proof {
                    let longer = draws + used;
                    let marked = marks.push(longer.len() as int);
                    assert(longer.subrange(marks[index], longer.len() as int) =~= used);
                    assert forall|i: int| 0 <= i < index implies #[trigger] is_seeding_turn(
                        width,
                        probability,
                        longer,
                        marked,
                        cells@,
                        i,
                    ) by {
                        assert(is_seeding_turn(width, probability, draws, marks, seeded, i));
                        assert(longer.subrange(marks[i], marks[i + 1]) =~= draws.subrange(
                            marks[i],
                            marks[i + 1],
                        ));
                    }
                    assert(is_seeding_turn(width, probability, longer, marked, cells@, index));
                    draws = longer;
                    marks = marked;
                }
                x += 1;
            }
            proof {
                assert(width * y + width == width * (y + 1)) by (nonlinear_arith);
            }
            y += 1;
        }
        Self { cells, width, height, sensor_config }
    }

    /// Puts `cell` on `slot`, in place of whatever the slot held. A slot outside the
    /// grid changes nothing.
    pub fn put_cell(&mut self, slot: Option<Point<usize>>, cell: Cell<S>)
        ensures
            final(self)@ == with_cell(
                old(self)@,
                old(self).spec_width(),
                old(self).spec_height(),
                slot,
                cell,
            ),
            final(self).spec_width() == old(self).spec_width(),
            final(self).spec_height() == old(self).spec_height(),
            final(self).spec_sensor_config() == old(self).spec_sensor_config(),
    {
        if let Some(point) = slot {
            if let Some(index) = point.get_index(self.width, self.height) {
                if index < self.cells.len() {
                    self.cells[index] = Some(cell);
                }
            }
        }
    }

    /// The row-major indices of the slots that hold an agent, in rising order.
    pub fn occupied(&self) -> (slots: Vec<usize>)
        ensures
            slots@ == occupied_slots(self@),
    {
        let mut slots: Vec<usize> = Vec::new();
        let mut index: usize = 0;
        while index < self.cells.len()
            invariant
                index <= self.cells.len(),
                slots@ == occupied_slots(self.cells@.take(index as int)),
            decreases self.cells.len() - index,
        {
            proof {
                assert(self.cells@.take(index + 1).drop_last() =~= self.cells@.take(index as int));
            }
            if self.cells[index].is_some() {
                slots.push(index);
            }
            index += 1;
        }
        proof {
            assert(self.cells@.take(index as int) =~= self.cells@);
        }
        slots
    }

    /// The index of the slot `destination`, if an agent may move there: if it is a slot
    /// of the grid and holds no agent.
    pub fn free_index(&self, destination: Option<Point<usize>>) -> (target: Option<usize>)
        ensures
            target == free_target(self@, self.spec_width(), self.spec_height(), destination),
    {
        match destination {
            Some(point) => match point.get_index(self.width, self.height) {
                Some(index) => if index < self.cells.len() && self.cells[index].is_none() {
                    Some(index)
                } else {
                    None
                },
                None => None,
            },
            None => None,
        }
    }

    /// Writes `held` to the slot with the row-major index `index`, in place of what
    /// the slot held.
    pub fn set_slot(&mut self, index: usize, held: Option<Cell<S>>)
        requires
            index < old(self)@.len(),
        ensures
            final(self)@ == old(self)@.update(index as int, held),
            final(self).spec_width() == old(self).spec_width(),
            final(self).spec_height() == old(self).spec_height(),
            final(self).spec_sensor_config() == old(self).spec_sensor_config(),
    {
        self.cells[index] = held;
    }

    /// Adds an agent with the given position and heading. It is put on the slot that
    /// its position rounds to, in place of whatever the slot held; a position that
    /// rounds to no slot of the grid adds nothing.
    pub fn add_cell(&mut self, position: Point<S>, direction: S)
        ensures
            exists|slot: Option<Point<usize>>|
                {
                    &&& #[trigger] position.is_discrete(slot)
                    &&& final(self)@ == with_cell(
                        old(self)@,
                        old(self).spec_width(),
                        old(self).spec_height(),
                        slot,
                        Cell { position, direction },
                    )
                },
            final(self).spec_width() == old(self).spec_width(),
            final(self).spec_height() == old(self).spec_height(),
            final(self).spec_sensor_config() == old(self).spec_sensor_config(),
    {
        let slot = position.to_discrete();
        self.put_cell(slot, Cell { position, direction });
    }

    /// The agent on the slot `position`, if the slot lies on the grid and holds one.
    pub fn get_cell(&self, position: Point<usize>) -> (cell: Option<&Cell<S>>)
        ensures
            match cell {
                Some(c) => grid_value(
                    self.spec_width(),
                    self.spec_height(),
                    self@,
                    position.x,
                    position.y,
                ) == Some(Some(*c)),
                None => match grid_value(
                    self.spec_width(),
                    self.spec_height(),
                    self@,
                    position.x,
                    position.y,
                ) {
                    Some(held) => held is None,
                    None => true,
                },
            },
    {
        match self.get_value(position.x, position.y) {
            Some(held) => held.as_ref(),
            None => None,
        }
    }

    /// The number of agents on the grid.
    pub fn live_cells(&self) -> (count: usize)
        ensures
            count == self.spec_live_cells(),
    {
        let mut count: usize = 0;
        let mut index: usize = 0;
        while index < self.cells.len()
            invariant
                index <= self.cells.len(),
                count == live_count(self.cells@.take(index as int)),
                count <= index,
            decreases self.cells.len() - index,
        {
            proof {
                assert(self.cells@.take(index + 1).drop_last() =~= self.cells@.take(index as int));
            }
            if self.cells[index].is_some() {
                count += 1;
            }
            index += 1;
        }
        proof {
            assert(self.cells@.take(index as int) =~= self.cells@);
        }
        count
    }

    /// The grid as pixels, row after row: white where an agent stands, black elsewhere.
    pub fn render(&self) -> (pixels: Vec<u8>)
        ensures
            pixels@ == cell_pixels(self@),
    {
        let mut pixels: Vec<u8> = Vec::new();
        let mut index: usize = 0;
        while index < self.cells.len()
            invariant
                index <= self.cells.len(),
                pixels@.len() == 4 * index,
                forall|k: int|
                    0 <= k < pixels@.len() ==> #[trigger] pixels@[k] == cell_pixels(self.cells@)[k],
            decreases self.cells.len() - index,
        {
            let shade: u8 = if self.cells[index].is_some() {
                255
            } else {
                0
            };
            pixels.push(shade);
            pixels.push(shade);
            pixels.push(shade);
            pixels.push(255);
            index += 1;
        }
        assert(pixels@ =~= cell_pixels(self.cells@));
        pixels
    }
}

impl<S: Scalar> Plane<Option<Cell<S>>> for CellMap<S> {
    closed spec fn spec_width(&self) -> usize {
        self.width
    }

    closed spec fn spec_height(&self) -> usize {
        self.height
    }

    open spec fn spec_data(&self) -> Seq<Option<Cell<S>>> {
        self@
    }

    fn width(&self) -> usize {
        self.width
    }

    fn height(&self) -> usize {
        self.height
    }

    fn data(&self) -> &Vec<Option<Cell<S>>> {
        &self.cells
    }
}

} // verus!
