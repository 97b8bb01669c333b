//! Agents are neither made nor lost: no phase changes how many slots hold an agent.

use vstd::prelude::*;
use crate::cell::free_target;
use crate::cell::is_heading;
use crate::cell::lemma_live_count_update;
use crate::cell::live_count;
use crate::cell::occupied_slots;
use crate::cell::Cell;
use crate::config::SimulationConfig;
use crate::point::Point;
use crate::scalar::is_product;
use crate::scalar::is_truncated;
use crate::scalar::is_whole;
use crate::scalar::Scalar;
use crate::schedule::drawn_order;
use crate::schedule::left_after;
use crate::schedule::lemma_drawn_once;
use crate::schedule::picks_fit;
use crate::schedule::spec_clamp_index;
use crate::simulation::is_motor;
use crate::simulation::is_motor_phase;
use crate::simulation::is_motor_turn;
use crate::simulation::is_moved_agent;
use crate::simulation::is_moved_agent_by;
use crate::simulation::is_run;
use crate::simulation::is_run_turn;
use crate::simulation::is_sensor;
use crate::simulation::is_sensor_phase;
use crate::simulation::is_sensor_turn;
use crate::simulation::is_tick;
use crate::simulation::is_tick_phases;
use crate::simulation::Stage;
use crate::steering::is_sensed;

verus! {

/// An agent that gets its chance to move is still there afterwards, on its old slot or
/// on the one that it moved to, and so is every other agent, where it was. The trail
/// changes on the slot that the agent moved to and nowhere else, and the level there is
/// the configured one.
pub proof fn lemma_moved_agent_keeps_others<S: Scalar>(
    config: SimulationConfig<S>,
    before: Stage<S>,
    slot: usize,
    draws: Seq<S>,
    after: Stage<S>,
)
    requires
        before.trail.len() == before.cells.len(),
        is_moved_agent(config, before, slot, draws, after),
    ensures
        after.cells.len() == before.cells.len(),
        after.trail.len() == before.trail.len(),
        live_count(after.cells) == live_count(before.cells),
        forall|i: int|
            0 <= i < before.cells.len() && i != slot && before.cells[i] is Some ==> after.cells[i]
                == before.cells[i],
        forall|i: int|
            0 <= i < before.trail.len() ==> {
                ||| after.trail[i] == before.trail[i]
                ||| after.trail[i] == config.deposition && before.cells[i] is None
                    && after.cells[i] is Some
            },
{
    let (distance, moved, destination) = choose|
        distance: S,
        moved: Cell<S>,
        destination: Option<Point<usize>>,
    | is_moved_agent_by(config, before, slot, draws, distance, moved, destination, after);
    match free_target(before.cells, config.width, config.height, destination) {
        Some(target) => {
            lemma_live_count_update(before.cells, slot as int, None);
            lemma_live_count_update(
                before.cells.update(slot as int, None),
                target as int,
                Some(moved),
            );
        },
        None => {
            let fresh = choose|fresh: S|
                {
                    &&& #[trigger] is_heading(draws[0], fresh)
                    &&& after.cells == before.cells.update(
                        slot as int,
                        Some(
                            Cell {
                                position: before.cells[slot as int]->0.position,
                                direction: fresh,
                            },
                        ),
                    )
                };
            lemma_live_count_update(
                before.cells,
                slot as int,
                Some(Cell { position: before.cells[slot as int]->0.position, direction: fresh }),
            );
        },
    }
}

/// During a motor phase the grids keep their size and the number of agents stays what
/// it was when the phase began: after each agent's chance to move, as many agents are
/// on the grid as before.
pub proof fn lemma_motor_stage_keeps_agents<S: Scalar>(
    config: SimulationConfig<S>,
    before: Stage<S>,
    draws: Seq<S>,
    picks: Seq<usize>,
    marks: Seq<int>,
    stages: Seq<Stage<S>>,
    after: Stage<S>,
    k: int,
)
    requires
        before.trail.len() == before.cells.len(),
        is_motor_phase(config, before, draws, picks, marks, stages, after),
        0 <= k <= occupied_slots(before.cells).len(),
    ensures
        stages[k].cells.len() == before.cells.len(),
        stages[k].trail.len() == before.trail.len(),
        live_count(stages[k].cells) == live_count(before.cells),
        forall|i: int|
            0 <= i < before.trail.len() ==> {
                ||| (#[trigger] stages[k].trail[i]) == before.trail[i]
                ||| stages[k].trail[i] == config.deposition
            },
    decreases k,
{
    if k > 0 {
        let agents = occupied_slots(before.cells);
        lemma_motor_stage_keeps_agents(config, before, draws, picks, marks, stages, after, k - 1);
        assert(is_motor_turn(
            config,
            agents.len(),
            draws,
            picks,
            marks,
            drawn_order(agents, picks),
            stages,
            k - 1,
        ));
        lemma_moved_agent_keeps_others(
            config,
            stages[k - 1],
            drawn_order(agents, picks)[k - 1],
            draws.subrange(marks[k - 1] + 1, marks[k - 1 + 1]),
            stages[k - 1 + 1],
        );
    }
}

/// The motor phase moves agents; it neither makes nor loses one. As many slots hold an
/// agent after the phase as before it. On the trail, a slot holds what it held or the
/// configured level: deposits do not add up.
pub proof fn lemma_motor_keeps_agents<S: Scalar>(
    config: SimulationConfig<S>,
    before: Stage<S>,
    draws: Seq<S>,
    after: Stage<S>,
)
    requires
        before.trail.len() == before.cells.len(),
        is_motor(config, before, draws, after),
    ensures
        after.cells.len() == before.cells.len(),
        after.trail.len() == before.trail.len(),
        live_count(after.cells) == live_count(before.cells),
        forall|i: int|
            0 <= i < before.trail.len() ==> {
                ||| (#[trigger] after.trail[i]) == before.trail[i]
                ||| after.trail[i] == config.deposition
            },
{
    let (picks, marks, stages) = choose|picks: Seq<usize>, marks: Seq<int>, stages: Seq<Stage<S>>|
        is_motor_phase(config, before, draws, picks, marks, stages, after);
    lemma_motor_stage_keeps_agents(
        config,
        before,
        draws,
        picks,
        marks,
        stages,
        after,
        occupied_slots(before.cells).len() as int,
    );
}

/// Two rows of slots that hold an agent on the same slots hold the same number of
/// agents.
pub proof fn lemma_live_count_of_same_slots<S>(a: Seq<Option<Cell<S>>>, b: Seq<Option<Cell<S>>>)
    requires
        a.len() == b.len(),
        forall|i: int| 0 <= i < a.len() ==> (a[i] is Some <==> b[i] is Some),
    ensures
        live_count(a) == live_count(b),
    decreases a.len(),
{
    if a.len() > 0 {
        lemma_live_count_of_same_slots(a.drop_last(), b.drop_last());
    }
}

/// An agent that senses and steers stays where it is.
pub proof fn lemma_sensed_keeps_position<S: Scalar>(
    config: SimulationConfig<S>,
    trail: Seq<u8>,
    cell: Cell<S>,
    draws: Seq<S>,
    sensed: Cell<S>,
)
    requires
        is_sensed(config, trail, cell, draws, sensed),
    ensures
        sensed.position == cell.position,
{
}

/// The sensor phase neither makes nor loses an agent, nor moves one.
pub proof fn lemma_sensor_keeps_agents<S: Scalar>(
    config: SimulationConfig<S>,
    before: Stage<S>,
    draws: Seq<S>,
    after: Stage<S>,
)
    requires
        is_sensor(config, before, draws, after),
    ensures
        after.cells.len() == before.cells.len(),
        after.trail == before.trail,
        forall|i: int|
            0 <= i < before.cells.len() ==> match #[trigger] before.cells[i] {
                Some(cell) => after.cells[i] is Some && after.cells[i]->0.position == cell.position,
                None => after.cells[i] is None,
            },
        live_count(after.cells) == live_count(before.cells),
{
    let marks = choose|marks: Seq<int>| is_sensor_phase(config, before, draws, marks, after);
    assert forall|i: int| 0 <= i < before.cells.len() implies match #[trigger] before.cells[i] {
        Some(cell) => after.cells[i] is Some && after.cells[i]->0.position == cell.position,
        None => after.cells[i] is None,
    } by {
        assert(is_sensor_turn(config, before, draws, marks, after.cells, i));
        if before.cells[i] is Some {
            lemma_sensed_keeps_position(
                config,
                before.trail,
                before.cells[i]->0,
                draws.subrange(marks[i], marks[i + 1]),
                after.cells[i]->0,
            );
        }
    }
    lemma_live_count_of_same_slots(before.cells, after.cells);
}

/// A tick neither makes nor loses an agent, and the grids keep their size.
pub proof fn lemma_tick_keeps_agents<S: Scalar>(
    config: SimulationConfig<S>,
    before: Stage<S>,
    draws: Seq<S>,
    after: Stage<S>,
)
    requires
        before.trail.len() == before.cells.len(),
        is_tick(config, before, draws, after),
    ensures
        after.cells.len() == before.cells.len(),
        after.trail.len() == before.trail.len(),
        live_count(after.cells) == live_count(before.cells),
{
    let (cut, moved, sensed) = choose|cut: int, moved: Stage<S>, sensed: Stage<S>|
        is_tick_phases(config, before, draws, cut, moved, sensed, after);
    lemma_motor_keeps_agents(config, before, draws.take(cut), moved);
    lemma_sensor_keeps_agents(config, moved, draws.skip(cut), sensed);
}

/// However many ticks a simulation runs, the number of agents on its grid stays what
/// it was at the start.
pub proof fn lemma_run_keeps_agents<S: Scalar>(
    config: SimulationConfig<S>,
    ticks: Seq<Stage<S>>,
    draws: Seq<S>,
    marks: Seq<int>,
    k: int,
)
    requires
        0 <= k < ticks.len(),
        ticks[0].trail.len() == ticks[0].cells.len(),
        is_run(config, ticks, draws, marks),
    ensures
        ticks[k].cells.len() == ticks[0].cells.len(),
        ticks[k].trail.len() == ticks[0].trail.len(),
        live_count(ticks[k].cells) == live_count(ticks[0].cells),
    decreases k,
{
    if k > 0 {
        lemma_run_keeps_agents(config, ticks, draws, marks, k - 1);
        assert(is_run_turn(config, ticks, draws, marks, k - 1));
        lemma_tick_keeps_agents(
            config,
            ticks[k - 1],
            draws.subrange(marks[k - 1], marks[k]),
            ticks[k],
        );
    }
}

/// Every agent that is on the grid when a motor phase begins gets one chance to move,
/// and no agent gets two: the slots in the order in which they are drawn are the slots
/// that held an agent, each once.
pub proof fn lemma_motor_draws_each_agent_once<S: Scalar>(
    config: SimulationConfig<S>,
    before: Stage<S>,
    draws: Seq<S>,
    picks: Seq<usize>,
    marks: Seq<int>,
    stages: Seq<Stage<S>>,
    after: Stage<S>,
)
    requires
        is_motor_phase(config, before, draws, picks, marks, stages, after),
    ensures
        drawn_order(occupied_slots(before.cells), picks).to_multiset() == occupied_slots(
            before.cells,
        ).to_multiset(),
{
    let agents = occupied_slots(before.cells);
    assert forall|k: int| 0 <= k < picks.len() implies (#[trigger] picks[k]) < agents.len() - k by {
        assert(is_motor_turn(
            config,
            agents.len(),
            draws,
            picks,
            marks,
            drawn_order(agents, picks),
            stages,
            k,
        ));
        let len = (agents.len() - k) as usize;
        let (count, scaled, whole) = choose|count: S, scaled: S, whole: i64|
            {
                &&& #[trigger] is_whole(len, count)
                &&& is_product(draws[marks[k]], count, scaled)
                &&& #[trigger] is_truncated(scaled, whole)
                &&& picks[k] == spec_clamp_index(whole, len)
            };
    }
    assert(picks_fit(agents.len(), picks));
    lemma_drawn_once(agents, picks);
    assert(left_after(agents, picks).len() == 0);
    left_after(agents, picks).to_multiset_ensures();
    assert(left_after(agents, picks).to_multiset().len() == 0);
    assert(drawn_order(agents, picks).to_multiset() =~= agents.to_multiset());
}

} // verus!
