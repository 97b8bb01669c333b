//! The simulation: agents move and deposit, sense and turn, and the trail diffuses.
//!
//! What a phase does depends on results that come from outside the engine: the draws
//! from the random source and the results of the scalar operations. The relations of
//! this module say what a phase may leave behind for the draws that it took; the
//! functions of [`Simulation`] promise that what they leave is such a result.

use vstd::prelude::*;
use crate::cell::free_target;
use crate::cell::heading;
use crate::cell::is_heading;
use crate::cell::lemma_live_count_update;
use crate::cell::lemma_occupied_slots;
use crate::cell::live_count;
use crate::cell::occupied_slots;
use crate::cell::Cell;
use crate::cell::CellMap;
use crate::config::SimulationConfig;
use crate::conservation::lemma_moved_agent_keeps_others;
use crate::diffusion::diffuse_trail;
use crate::diffusion::diffused;
use crate::plane::Plane;
use crate::point::Point;
use crate::scalar::is_drawn;
use crate::scalar::is_whole;
use crate::scalar::Scalar;
use crate::schedule::drawn_order;
use crate::schedule::is_pick;
use crate::schedule::left_after;
use crate::schedule::pick;
use crate::steering::is_sensed;
use crate::steering::is_sensed_by;
use crate::steering::is_toss;
use crate::steering::is_turned;
use crate::steering::read_sensor;
use crate::steering::steer;
use crate::steering::toss;
use crate::steering::turn;
use crate::steering::Steering;
use crate::trail_map::TrailMap;

verus! {

/// The side to which an agent turns.
#[allow(non_camel_case_types)]
#[derive(Clone, Copy, Debug, PartialEq, Eq)]
pub enum Direction {
    LEFT,
    RIGHT,
}

/// What a simulation holds on its two grids at one moment: the slots of the agents and
/// the levels of the trail, both row after row.
pub ghost struct Stage<S> {
    pub cells: Seq<Option<Cell<S>>>,
    pub trail: Seq<u8>,
}

/// `cells_after` is `cells` after the agent on `slot`, which could not move, was given
/// a new heading: a heading of `draw`.
pub open spec fn is_turned_away<S: Scalar>(
    cells: Seq<Option<Cell<S>>>,
    slot: usize,
    draw: S,
    cells_after: Seq<Option<Cell<S>>>,
) -> bool {
    exists|fresh: S|
        {
            &&& #[trigger] is_heading(draw, fresh)
            &&& cells_after == cells.update(
                slot as int,
                Some(Cell { position: cells[slot as int]->0.position, direction: fresh }),
            )
        }
}

/// The agent on `slot` takes its chance to move in this way: `distance` is the
/// configured step, `moved` is the agent after a step of that length along its heading,
/// and `destination` is the slot that its new position rounds to. If that is a slot of
/// the grid and empty, the agent leaves its slot for that one, with its new position
/// and its old heading, and the configured level is written to the trail there; no
/// draw is made. If not, the agent stays where it was and is given a heading of one
/// draw, and the trail stays as it is.
pub open spec fn is_moved_agent_by<S: Scalar>(
    config: SimulationConfig<S>,
    before: Stage<S>,
    slot: usize,
    draws: Seq<S>,
    distance: S,
    moved: Cell<S>,
    destination: Option<Point<usize>>,
    after: Stage<S>,
) -> bool {
    &&& is_whole(config.step_size, distance)
    &&& before.cells[slot as int]->0.is_step(distance, moved)
    &&& moved.position.is_discrete(destination)
    &&& match free_target(before.cells, config.width, config.height, destination) {
        Some(target) => {
            &&& draws.len() == 0
            &&& after.cells == before.cells.update(slot as int, None).update(
                target as int,
                Some(moved),
            )
            &&& after.trail == before.trail.update(target as int, config.deposition)
        },
        None => {
            &&& draws.len() == 1
            &&& is_turned_away(before.cells, slot, draws[0], after.cells)
            &&& after.trail == before.trail
        },
    }
}

/// What the motor phase does with the agent on `slot`, and the draws that this takes:
/// the agent steps and deposits, or it stays and turns away.
pub open spec fn is_moved_agent<S: Scalar>(
    config: SimulationConfig<S>,
    before: Stage<S>,
    slot: usize,
    draws: Seq<S>,
    after: Stage<S>,
) -> bool {
    &&& slot < before.cells.len()
    &&& before.cells[slot as int] is Some
    &&& exists|distance: S, moved: Cell<S>, destination: Option<Point<usize>>|
        is_moved_agent_by(config, before, slot, draws, distance, moved, destination, after)
}

/// The `k`-th chance to move of a motor phase over `count` agents. The draw at
/// `marks[k]` picks the position `picks[k]` in what is left of the list of agents, the
/// agent on the slot `order[k]` that is taken there gets its chance to move, from the
/// grids `stages[k]` to the grids `stages[k + 1]`, and this takes the draws after the
/// pick up to `marks[k + 1]`.
pub open spec fn is_motor_turn<S: Scalar>(
    config: SimulationConfig<S>,
    count: nat,
    draws: Seq<S>,
    picks: Seq<usize>,
    marks: Seq<int>,
    order: Seq<usize>,
    stages: Seq<Stage<S>>,
    k: int,
) -> bool {
    &&& 0 <= marks[k] < marks[k + 1] <= draws.len()
    &&& is_pick(draws[marks[k]], (count - k) as usize, picks[k])
    &&& is_moved_agent(
        config,
        stages[k],
        order[k],
        draws.subrange(marks[k] + 1, marks[k + 1]),
        stages[k + 1],
    )
}

/// The motor phase, draw by draw. The slots that hold an agent when the phase begins
/// are listed in rising order. As often as there are agents, a draw picks a position
/// in what is left of that list, and the agent on the slot that is taken there gets
/// its chance to move on the grids as the agents before it have left them. `draws`
/// holds all draws of the phase in the order in which they were made, `marks` the
/// place of each pick among them, and `stages` the grids before the first agent and
/// after each.
pub open spec fn is_motor_phase<S: Scalar>(
    config: SimulationConfig<S>,
    before: Stage<S>,
    draws: Seq<S>,
    picks: Seq<usize>,
    marks: Seq<int>,
    stages: Seq<Stage<S>>,
    after: Stage<S>,
) -> bool {
    let agents = occupied_slots(before.cells);
    &&& picks.len() == agents.len()
    &&& marks.len() == agents.len() + 1
    &&& stages.len() == agents.len() + 1
    &&& marks[0] == 0
    &&& marks[agents.len() as int] == draws.len()
    &&& stages[0] == before
    &&& stages[agents.len() as int] == after
    &&& forall|k: int|
        0 <= k < agents.len() ==> #[trigger] is_motor_turn(
            config,
            agents.len(),
            draws,
            picks,
            marks,
            drawn_order(agents, picks),
            stages,
            k,
        )
}

/// `after` is what a motor phase that takes the draws `draws` may leave of `before`.
pub open spec fn is_motor<S: Scalar>(
    config: SimulationConfig<S>,
    before: Stage<S>,
    draws: Seq<S>,
    after: Stage<S>,
) -> bool {
    exists|picks: Seq<usize>, marks: Seq<int>, stages: Seq<Stage<S>>|
        is_motor_phase(config, before, draws, picks, marks, stages, after)
}

/// What the sensor phase makes of one slot, and the draws that this takes: an empty
/// slot stays empty, and an agent stays on its slot, having sensed and steered.
pub open spec fn is_sensed_slot<S: Scalar>(
    config: SimulationConfig<S>,
    trail: Seq<u8>,
    before: Option<Cell<S>>,
    draws: Seq<S>,
    after: Option<Cell<S>>,
) -> bool {
    match before {
        Some(cell) => after is Some && is_sensed(config, trail, cell, draws, after->0),
        None => after is None && draws.len() == 0,
    }
}

/// What the sensor phase makes of the slot `i`: the slot becomes what the phase makes
/// of it, and this takes the draws from `marks[i]` up to `marks[i + 1]`.
pub open spec fn is_sensor_turn<S: Scalar>(
    config: SimulationConfig<S>,
    before: Stage<S>,
    draws: Seq<S>,
    marks: Seq<int>,
    cells_after: Seq<Option<Cell<S>>>,
    i: int,
) -> bool {
    &&& 0 <= marks[i] <= marks[i + 1] <= draws.len()
    &&& is_sensed_slot(
        config,
        before.trail,
        before.cells[i],
        draws.subrange(marks[i], marks[i + 1]),
        cells_after[i],
    )
}

/// The sensor phase, slot by slot: the trail stays as it is, and each slot, in the
/// order of the slots, becomes what the phase makes of it. `draws` holds all draws of
/// the phase in the order in which they were made; those for the slot `i` are the
/// draws from `marks[i]` up to `marks[i + 1]`.
pub open spec fn is_sensor_phase<S: Scalar>(
    config: SimulationConfig<S>,
    before: Stage<S>,
    draws: Seq<S>,
    marks: Seq<int>,
    after: Stage<S>,
) -> bool {
    &&& after.trail == before.trail
    &&& after.cells.len() == before.cells.len()
    &&& marks.len() == before.cells.len() + 1
    &&& marks[0] == 0
    &&& marks[before.cells.len() as int] == draws.len()
    &&& forall|i: int|
        0 <= i < before.cells.len() ==> #[trigger] is_sensor_turn(
            config,
            before,
            draws,
            marks,
            after.cells,
            i,
        )
}

/// `after` is what a sensor phase that takes the draws `draws` may leave of `before`.
pub open spec fn is_sensor<S: Scalar>(
    config: SimulationConfig<S>,
    before: Stage<S>,
    draws: Seq<S>,
    after: Stage<S>,
) -> bool {
    exists|marks: Seq<int>| is_sensor_phase(config, before, draws, marks, after)
}

/// `after` is what the diffusion phase leaves of `before`: the same agents, and the
/// trail after one pass of diffusion.
pub open spec fn is_diffusion<S>(config: SimulationConfig<S>, before: Stage<S>, after: Stage<S>)
    -> bool {
    &&& after.cells == before.cells
    &&& after.trail == diffused(before.trail, config.width as int, config.height as int)
}

/// One tick, phase by phase: a motor phase, which takes the first `cut` of the draws
/// and leaves `moved`; then a sensor phase, which takes the other draws and leaves
/// `sensed`; then the diffusion phase.
pub open spec fn is_tick_phases<S: Scalar>(
    config: SimulationConfig<S>,
    before: Stage<S>,
    draws: Seq<S>,
    cut: int,
    moved: Stage<S>,
    sensed: Stage<S>,
    after: Stage<S>,
) -> bool {
    &&& 0 <= cut <= draws.len()
    &&& is_motor(config, before, draws.take(cut), moved)
    &&& is_sensor(config, moved, draws.skip(cut), sensed)
    &&& is_diffusion(config, sensed, after)
}

/// `after` is what one tick that takes the draws `draws` may leave of `before`.
pub open spec fn is_tick<S: Scalar>(
    config: SimulationConfig<S>,
    before: Stage<S>,
    draws: Seq<S>,
    after: Stage<S>,
) -> bool {
    exists|cut: int, moved: Stage<S>, sensed: Stage<S>|
        is_tick_phases(config, before, draws, cut, moved, sensed, after)
}

/// The tick of a run that leads from `ticks[k]` to `ticks[k + 1]`; it takes the draws
/// from `marks[k]` up to `marks[k + 1]`.
pub open spec fn is_run_turn<S: Scalar>(
    config: SimulationConfig<S>,
    ticks: Seq<Stage<S>>,
    draws: Seq<S>,
    marks: Seq<int>,
    k: int,
) -> bool {
    &&& 0 <= marks[k] <= marks[k + 1] <= draws.len()
    &&& is_tick(config, ticks[k], draws.subrange(marks[k], marks[k + 1]), ticks[k + 1])
}

/// A run, tick by tick: each entry of `ticks` but the first is what one tick may leave
/// of the entry before it. `draws` holds all draws of the run in the order in which
/// they were made; the tick that leads to `ticks[k + 1]` takes the draws from
/// `marks[k]` up to `marks[k + 1]`.
pub open spec fn is_run<S: Scalar>(
    config: SimulationConfig<S>,
    ticks: Seq<Stage<S>>,
    draws: Seq<S>,
    marks: Seq<int>,
) -> bool {
    &&& ticks.len() > 0
    &&& marks.len() == ticks.len()
    &&& marks[0] == 0
    &&& marks[ticks.len() - 1] == draws.len()
    &&& forall|k: int|
        0 <= k < ticks.len() - 1 ==> #[trigger] is_run_turn(config, ticks, draws, marks, k)
}

/// The state of a simulation: the agents, the trail, the parameters and the random
/// source, a function that gives a scalar from 0 up to 1 at each call.
pub struct Simulation<S, R> {
    pub cell_map: CellMap<S>,
    pub trail_map: TrailMap,
    pub config: SimulationConfig<S>,
    pub rng: R,
}

impl<S: Scalar, R: FnMut() -> S> Simulation<S, R> {
    /// Both grids are well formed and of the size that the parameters give.
    pub open spec fn grids_fit(&self) -> bool {
        &&& self.cell_map.well_formed()
        &&& self.trail_map.well_formed()
        &&& self.cell_map.spec_width() == self.config.width
        &&& self.cell_map.spec_height() == self.config.height
        &&& self.trail_map.spec_width() == self.config.width
        &&& self.trail_map.spec_height() == self.config.height
    }

    /// The grids fit, and the random source can be called.
    pub open spec fn well_formed(&self) -> bool {
        &&& self.grids_fit()
        &&& call_requires(self.rng, ())
    }

    /// Tells whether both grids are well formed and of the size that the parameters
    /// give. They are as long as only the functions of this crate have written to them.
    pub fn is_consistent(&self) -> (ok: bool)
        ensures
            ok == self.grids_fit(),
    {
        self.cell_map.is_well_formed() && self.trail_map.is_well_formed()
            && self.cell_map.width() == self.config.width && self.cell_map.height()
            == self.config.height && self.trail_map.width() == self.config.width
            && self.trail_map.height() == self.config.height
    }

    /// What the two grids hold.
    pub open spec fn stage(&self) -> Stage<S> {
        Stage { cells: self.cell_map@, trail: self.trail_map@ }
    }

    /// A simulation over the given agents and trail.
    pub fn new(
        config: SimulationConfig<S>,
        cell_map: CellMap<S>,
        trail_map: TrailMap,
        rng: R,
    ) -> (simulation: Self)
        requires
            cell_map.well_formed(),
            trail_map.well_formed(),
            cell_map.spec_width() == config.width,
            cell_map.spec_height() == config.height,
            trail_map.spec_width() == config.width,
            trail_map.spec_height() == config.height,
            call_requires(rng, ()),
        ensures
            simulation.well_formed(),
            simulation.config == config,
            simulation.cell_map == cell_map,
            simulation.trail_map == trail_map,
            simulation.rng == rng,
    {
        Self { cell_map, trail_map, config, rng }
    }

    /// Gives the agent on the slot with the row-major index `slot` its chance to move:
    /// it moves and deposits, or it stays and turns away.
    pub fn motor_agent(&mut self, slot: usize)
        requires
            old(self).well_formed(),
            slot < old(self).cell_map@.len(),
            old(self).cell_map@[slot as int] is Some,
        ensures
            final(self).well_formed(),
            final(self).config == old(self).config,
            final(self).rng == old(self).rng,
            final(self).cell_map.spec_sensor_config() == old(self).cell_map.spec_sensor_config(),
            exists|draws: Seq<S>|
                {
                    &&& is_drawn(old(self).rng, draws)
                    &&& #[trigger] is_moved_agent(
                        old(self).config,
                        old(self).stage(),
                        slot,
                        draws,
                        final(self).stage(),
                    )
                },
    {
        let held: Option<Cell<S>> = self.cell_map.data()[slot];
        if let Some(cell) = held {
            let distance = S::from_usize(self.config.step_size);
            let mut moved = cell;
            moved.step(distance);
            let destination = moved.position.to_discrete();
            let ghost cells = self.cell_map@;
            let ghost draws: Seq<S>;
            match self.cell_map.free_index(destination) {
                Some(target) => {
                    proof {
                        assert(cells.update(target as int, Some(moved)).update(slot as int, None)
                            =~= cells.update(slot as int, None).update(target as int, Some(moved)));
                        draws = Seq::empty();
                    }
                    self.trail_map.deposit(target, self.config.deposition);
                    self.cell_map.set_slot(target, Some(moved));
                    self.cell_map.set_slot(slot, None);
                },
                None => {
                    let draw = (self.rng)();
                    let fresh = heading(draw);
                    self.cell_map.set_slot(
                        slot,
                        Some(Cell { position: cell.position, direction: fresh }),
                    );
                    proof {
                        draws = seq![draw];
                        assert(is_heading(draws[0], fresh));
                    }
                },
            }
            assert(is_moved_agent_by(
                old(self).config,
                old(self).stage(),
                slot,
                draws,
                distance,
                moved,
                destination,
                self.stage(),
            ));
            assert(is_moved_agent(old(self).config, old(self).stage(), slot, draws, self.stage()));
        }
    }

    /// The motor phase: every agent that is on the grid when the phase begins gets one
    /// chance to move, in an order drawn from the random source. An agent moves onto a
    /// slot only if no agent is there at that moment, so an agent that was drawn
    /// before may be in its way or may have made way for it.
    pub fn motor(&mut self)
        requires
            old(self).well_formed(),
        ensures
            final(self).well_formed(),
            final(self).config == old(self).config,
            final(self).rng == old(self).rng,
            final(self).cell_map.spec_sensor_config() == old(self).cell_map.spec_sensor_config(),
            final(self).cell_map.spec_live_cells() == old(self).cell_map.spec_live_cells(),
            exists|draws: Seq<S>|
                {
                    &&& is_drawn(old(self).rng, draws)
                    &&& #[trigger] is_motor(
                        old(self).config,
                        old(self).stage(),
                        draws,
                        final(self).stage(),
                    )
                },
    {
        let mut remaining = self.cell_map.occupied();
        let ghost before = self.stage();
        let ghost agents = remaining@;
        let ghost mut draws: Seq<S> = Seq::empty();
        let ghost mut picks: Seq<usize> = Seq::empty();
        let ghost mut marks: Seq<int> = seq![0int];
        let ghost mut order: Seq<usize> = Seq::empty();
        let ghost mut stages: Seq<Stage<S>> = seq![before];
        proof {
            lemma_occupied_slots(before.cells);
        }
        while remaining.len() > 0
            invariant
                self.well_formed(),
                self.config == old(self).config,
                self.rng == old(self).rng,
                self.cell_map.spec_sensor_config() == old(self).cell_map.spec_sensor_config(),
                before == old(self).stage(),
                agents == occupied_slots(before.cells),
                live_count(self.cell_map@) == live_count(before.cells),
                self.cell_map@.len() == before.cells.len(),
                picks.len() + remaining.len() == agents.len(),
                order.len() == picks.len(),
                marks.len() == picks.len() + 1,
                stages.len() == picks.len() + 1,
                remaining@ == left_after(agents, picks),
                order == drawn_order(agents, picks),
                is_drawn(old(self).rng, draws),
                marks[0] == 0,
                marks[picks.len() as int] == draws.len(),
                stages[0] == before,
                stages[picks.len() as int] == self.stage(),
                forall|k: int|
                    0 <= k < picks.len() ==> #[trigger] is_motor_turn(
                        old(self).config,
                        agents.len(),
                        draws,
                        picks,
                        marks,
                        order,
                        stages,
                        k,
                    ),
                forall|i: int|
                    0 <= i < remaining.len() ==> {
                        &&& (#[trigger] remaining[i]) < self.cell_map@.len()
                        &&& self.cell_map@[remaining[i] as int] is Some
                    },
                forall|i: int, j: int|
                    0 <= i < j < remaining.len() ==> remaining[i] != remaining[j],
            decreases remaining.len(),
        {
            let ghost left = remaining@;
            let ghost stage = self.stage();
            let draw = (self.rng)();
            let position = pick(draw, remaining.len());
            let slot = remaining.swap_remove(position);
            self.motor_agent(slot);
            proof {
                let used = choose|used: Seq<S>|
                    {
                        &&& is_drawn(old(self).rng, used)
                        &&& #[trigger] is_moved_agent(
                            old(self).config,
                            stage,
                            slot,
                            used,
                            self.stage(),
                        )
                    };
                lemma_moved_agent_keeps_others(old(self).config, stage, slot, used, self.stage());
                assert(picks.push(position).drop_last() =~= picks);
                let done = picks.len() as int;
                let longer = draws.push(draw) + used;
                let marked = marks.push(longer.len() as int);
                assert(longer.subrange(marks[done] + 1, longer.len() as int) =~= used);
                assert forall|k: int| 0 <= k < done implies #[trigger] is_motor_turn(
                    old(self).config,
                    agents.len(),
                    longer,
                    picks.push(position),
                    marked,
                    order.push(slot),
                    stages.push(self.stage()),
                    k,
                ) by {
                    assert(is_motor_turn(
                        old(self).config,
                        agents.len(),
                        draws,
                        picks,
                        marks,
                        order,
                        stages,
                        k,
                    ));
                    assert(longer.subrange(marks[k] + 1, marks[k + 1]) =~= draws.subrange(
                        marks[k] + 1,
                        marks[k + 1],
                    ));
                }
                assert(is_motor_turn(
                    old(self).config,
                    agents.len(),
                    longer,
                    picks.push(position),
                    marked,
                    order.push(slot),
                    stages.push(self.stage()),
                    done,
                ));
                draws = longer;
                picks = picks.push(position);
                marks = marked;
                order = order.push(slot);
                stages = stages.push(self.stage());
                assert forall|i: int| 0 <= i < remaining.len() implies {
                    &&& (#[trigger] remaining[i]) < self.cell_map@.len()
                    &&& self.cell_map@[remaining[i] as int] is Some
                } by {
                    if i == position {
                        assert(remaining[i] == left[left.len() - 1]);
                    } else {
                        assert(remaining[i] == left[i]);
                    }
                }
            }
        }
        proof {
            assert(is_motor_phase(
                old(self).config,
                before,
                draws,
                picks,
                marks,
                stages,
                self.stage(),
            ));
            assert(is_motor(old(self).config, old(self).stage(), draws, self.stage()));
        }
    }

    /// Lets one agent sense the trail and steer. Nothing but the agent changes.
    pub fn sense(&mut self, cell: Cell<S>) -> (sensed: Cell<S>)
        requires
            old(self).well_formed(),
        ensures
            *final(self) == *old(self),
            exists|draws: Seq<S>|
                {
                    &&& is_drawn(old(self).rng, draws)
                    &&& #[trigger] is_sensed(
                        old(self).config,
                        old(self).trail_map@,
                        cell,
                        draws,
                        sensed,
                    )
                },
    {
        let offset = S::from_usize(self.config.sensor_config.offset_distance);
        let angle = self.config.sensor_config.angle;
        let left_angle = cell.direction.minus(angle);
        let right_angle = cell.direction.plus(angle);
        let forward = read_sensor(&self.trail_map, cell.position, cell.direction, offset);
        let right = read_sensor(&self.trail_map, cell.position, right_angle, offset);
        let left = read_sensor(&self.trail_map, cell.position, left_angle, offset);
        let ghost draws: Seq<S>;
        let sensed = match steer(forward, left, right) {
            Steering::Keep => {
                proof {
                    draws = Seq::empty();
                }
                cell
            },
            Steering::Turn(side) => {
                proof {
                    draws = Seq::empty();
                }
                Cell {
                    position: cell.position,
                    direction: turn(cell.direction, self.config.rotation_angle, side),
                }
            },
            Steering::Toss => {
                let draw = (self.rng)();
                let side = toss(draw);
                let turned = turn(cell.direction, self.config.rotation_angle, side);
                proof {
                    draws = seq![draw];
                    assert(is_toss(draws[0], side) && is_turned(
                        cell.direction,
                        self.config.rotation_angle,
                        side,
                        turned,
                    ));
                }
                Cell { position: cell.position, direction: turned }
            },
        };
        assert(is_sensed_by(
            old(self).config,
            old(self).trail_map@,
            cell,
            draws,
            offset,
            left_angle,
            right_angle,
            forward,
            left,
            right,
            sensed,
        ));
        assert(is_sensed(old(self).config, old(self).trail_map@, cell, draws, sensed));
        sensed
    }

    /// The sensor phase: every agent, in the order of the slots, senses the trail and
    /// steers. No agent leaves its slot, and the trail stays as it is.
    pub fn sensor(&mut self)
        requires
            old(self).well_formed(),
        ensures
            final(self).well_formed(),
            final(self).trail_map == old(self).trail_map,
            final(self).config == old(self).config,
            final(self).rng == old(self).rng,
            final(self).cell_map.spec_sensor_config() == old(self).cell_map.spec_sensor_config(),
            final(self).cell_map.spec_live_cells() == old(self).cell_map.spec_live_cells(),
            exists|draws: Seq<S>|
                {
                    &&& is_drawn(old(self).rng, draws)
                    &&& #[trigger] is_sensor(
                        old(self).config,
                        old(self).stage(),
                        draws,
                        final(self).stage(),
                    )
                },
    {
        let len = self.cell_map.data().len();
        let ghost mut draws: Seq<S> = Seq::empty();
        let ghost mut marks: Seq<int> = seq![0int];
        let mut index: usize = 0;
        while index < len
            invariant
                self.well_formed(),
                self.trail_map == old(self).trail_map,
                self.config == old(self).config,
                self.rng == old(self).rng,
                self.cell_map.spec_sensor_config() == old(self).cell_map.spec_sensor_config(),
                len == old(self).cell_map@.len(),
                self.cell_map@.len() == len,
                index <= len,
                live_count(self.cell_map@) == live_count(old(self).cell_map@),
                is_drawn(old(self).rng, draws),
                marks.len() == index + 1,
                marks[0] == 0,
                marks[index as int] == draws.len(),
                forall|i: int|
                    0 <= i < index ==> #[trigger] is_sensor_turn(
                        old(self).config,
                        old(self).stage(),
                        draws,
                        marks,
                        self.cell_map@,
                        i,
                    ),
                forall|i: int| index <= i < len ==> self.cell_map@[i] == old(self).cell_map@[i],
            decreases len - index,
        {
            let held: Option<Cell<S>> = self.cell_map.data()[index];
            let ghost cells = self.cell_map@;
            let ghost used: Seq<S>;
            if let Some(cell) = held {
                let sensed = self.sense(cell);
                proof {
                    used = choose|used: Seq<S>|
                        {
                            &&& is_drawn(old(self).rng, used)
                            &&& #[trigger] is_sensed(
                                old(self).config,
                                old(self).trail_map@,
                                cell,
                                used,
                                sensed,
                            )
                        };
                    lemma_live_count_update(self.cell_map@, index as int, Some(sensed));
                }
                self.cell_map.set_slot(index, Some(sensed));
            } else {
                proof {
                    used = Seq::empty();
                }
            }
            proof {
                let longer = draws + used;
                let marked = marks.push(longer.len() as int);
                assert(longer.subrange(marks[index as int], longer.len() as int) =~= used);
                assert forall|i: int| 0 <= i < index implies #[trigger] is_sensor_turn(
                    old(self).config,
                    old(self).stage(),
                    longer,
                    marked,
                    self.cell_map@,
                    i,
                ) by {
                    assert(is_sensor_turn(
                        old(self).config,
                        old(self).stage(),
                        draws,
                        marks,
                        cells,
                        i,
                    ));
                    assert(longer.subrange(marks[i], marks[i + 1]) =~= draws.subrange(
                        marks[i],
                        marks[i + 1],
                    ));
                }
                assert(is_sensor_turn(
                    old(self).config,
                    old(self).stage(),
                    longer,
                    marked,
                    self.cell_map@,
                    index as int,
                ));
                draws = longer;
                marks = marked;
            }
            index += 1;
        }
        proof {
            assert(is_sensor_phase(
                old(self).config,
                old(self).stage(),
                draws,
                marks,
                self.stage(),
            ));
            assert(is_sensor(old(self).config, old(self).stage(), draws, self.stage()));
        }
    }

    /// The diffusion phase: every slot of the trail takes the average of the 3 by 3
    /// window around it, as far as the window lies on the grid. All averages are taken
    /// over the trail as it was before the phase.
    pub fn diffuse(&mut self)
        requires
            old(self).well_formed(),
        ensures
            final(self).well_formed(),
            is_diffusion(old(self).config, old(self).stage(), final(self).stage()),
            final(self).cell_map == old(self).cell_map,
            final(self).config == old(self).config,
            final(self).rng == old(self).rng,
    {
        let data = diffuse_trail(&self.trail_map);
        self.trail_map.replace(data);
    }

    /// Advances the simulation by `n` ticks. A tick is the motor phase, then the sensor
    /// phase, then the diffusion phase, each over the whole grid.
    pub fn step(&mut self, n: usize)
        requires
            old(self).well_formed(),
        ensures
            final(self).well_formed(),
            final(self).config == old(self).config,
            final(self).rng == old(self).rng,
            final(self).cell_map.spec_sensor_config() == old(self).cell_map.spec_sensor_config(),
            final(self).cell_map.spec_live_cells() == old(self).cell_map.spec_live_cells(),
            n == 0 ==> final(self).stage() == old(self).stage(),
            exists|ticks: Seq<Stage<S>>, draws: Seq<S>, marks: Seq<int>|
                {
                    &&& ticks.len() == n + 1
                    &&& ticks[0] == old(self).stage()
                    &&& ticks[n as int] == final(self).stage()
                    &&& is_drawn(old(self).rng, draws)
                    &&& #[trigger] is_run(old(self).config, ticks, draws, marks)
                },
    {
        let ghost mut ticks: Seq<Stage<S>> = seq![self.stage()];
        let ghost mut draws: Seq<S> = Seq::empty();
        let ghost mut marks: Seq<int> = seq![0int];
        for done in 0..n
            invariant
                self.well_formed(),
                self.config == old(self).config,
                self.rng == old(self).rng,
                self.cell_map.spec_sensor_config() == old(self).cell_map.spec_sensor_config(),
                live_count(self.cell_map@) == live_count(old(self).cell_map@),
                ticks.len() == done + 1,
                ticks[0] == old(self).stage(),
                ticks[done as int] == self.stage(),
                is_drawn(old(self).rng, draws),
                is_run(old(self).config, ticks, draws, marks),
        {
            let ghost before = self.stage();
            self.motor();
            let ghost moved = self.stage();
            self.sensor();
            let ghost sensed = self.stage();
            self.diffuse();
            proof {
                let first = choose|first: Seq<S>|
                    {
                        &&& is_drawn(old(self).rng, first)
                        &&& #[trigger] is_motor(old(self).config, before, first, moved)
                    };
                let second = choose|second: Seq<S>|
                    {
                        &&& is_drawn(old(self).rng, second)
                        &&& #[trigger] is_sensor(old(self).config, moved, second, sensed)
                    };
                let used = first + second;
                assert(used.take(first.len() as int) =~= first);
                assert(used.skip(first.len() as int) =~= second);
                assert(is_tick_phases(
                    old(self).config,
                    before,
                    used,
                    first.len() as int,
                    moved,
                    sensed,
                    self.stage(),
                ));
                assert(is_tick(old(self).config, before, used, self.stage()));
                let longer = draws + used;
                let marked = marks.push(longer.len() as int);
                let ticked = ticks.push(self.stage());
                assert(longer.subrange(marks[done as int], longer.len() as int) =~= used);
                assert forall|k: int| 0 <= k < done implies #[trigger] is_run_turn(
                    old(self).config,
                    ticked,
                    longer,
                    marked,
                    k,
                ) by {
                    assert(is_run_turn(old(self).config, ticks, draws, marks, k));
                    assert(longer.subrange(marks[k], marks[k + 1]) =~= draws.subrange(
                        marks[k],
                        marks[k + 1],
                    ));
                }
                assert(is_run_turn(old(self).config, ticked, longer, marked, done as int));
                assert(is_run(old(self).config, ticked, longer, marked));
                ticks = ticks.push(self.stage());
                draws = longer;
                marks = marked;
            }
        }
    }
}

} // verus!
