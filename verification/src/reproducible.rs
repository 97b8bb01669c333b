//! A run is a function of where it starts and of the draws that it takes, as far as
//! the scalar operations are functions.
//!
//! The engine assumes nothing of the scalar operations, so two runs from the same
//! grids with the same draws may end differently if an operation gives two results
//! for the same arguments. The lemmas of this module show that this is the only way:
//! under [`functional`], the same start and the same draws give the same end.

use vstd::prelude::*;
use crate::cell::free_target;
use crate::cell::is_heading;
use crate::cell::occupied_slots;
use crate::cell::Cell;
use crate::config::SimulationConfig;
use crate::point::Point;
use crate::scalar::functional;
use crate::scalar::is_below;
use crate::scalar::is_difference;
use crate::scalar::is_product;
use crate::scalar::is_remainder;
use crate::scalar::is_sum;
use crate::scalar::is_truncated;
use crate::scalar::is_whole;
use crate::scalar::Scalar;
use crate::schedule::drawn_order;
use crate::schedule::is_pick;
use crate::schedule::lemma_drawn_order_prefix;
use crate::simulation::is_motor;
use crate::simulation::is_motor_phase;
use crate::simulation::is_motor_turn;
use crate::simulation::is_moved_agent;
use crate::simulation::is_moved_agent_by;
use crate::simulation::is_run;
use crate::simulation::is_run_turn;
use crate::simulation::is_sensed_slot;
use crate::simulation::is_sensor;
use crate::simulation::is_sensor_phase;
use crate::simulation::is_sensor_turn;
use crate::simulation::is_tick;
use crate::simulation::is_tick_phases;
use crate::simulation::Direction;
use crate::simulation::Stage;
use crate::steering::is_reading;
use crate::steering::is_sensed;
use crate::steering::is_sensed_by;
use crate::steering::is_steered;
use crate::steering::is_toss;
use crate::steering::is_turned;
use crate::steering::spec_steer;
use crate::steering::Steering;
use crate::trail_map::level_on;

verus! {

/// Two lists of draws agree as far as both reach: one of them begins with the other.
pub open spec fn agree<S>(a: Seq<S>, b: Seq<S>) -> bool {
    forall|i: int| 0 <= i < a.len() && i < b.len() ==> a[i] == b[i]
}

/// A draw has one heading.
pub proof fn lemma_one_heading<S: Scalar>(draw: S, a: S, b: S)
    requires
        functional::<S>(),
        is_heading(draw, a),
        is_heading(draw, b),
    ensures
        a == b,
{
    let full_a = choose|full: S| #[trigger] is_whole(360usize, full) && is_product(draw, full, a);
    let full_b = choose|full: S| #[trigger] is_whole(360usize, full) && is_product(draw, full, b);
    assert(full_a == full_b);
}

/// A draw picks one position in a list.
pub proof fn lemma_one_pick<S: Scalar>(draw: S, len: usize, a: usize, b: usize)
    requires
        functional::<S>(),
        is_pick(draw, len, a),
        is_pick(draw, len, b),
    ensures
        a == b,
{
    let (count_a, scaled_a, whole_a) = choose|count: S, scaled: S, whole: i64|
        {
            &&& #[trigger] is_whole(len, count)
            &&& is_product(draw, count, scaled)
            &&& #[trigger] is_truncated(scaled, whole)
            &&& a == crate::schedule::spec_clamp_index(whole, len)
        };
    let (count_b, scaled_b, whole_b) = choose|count: S, scaled: S, whole: i64|
        {
            &&& #[trigger] is_whole(len, count)
            &&& is_product(draw, count, scaled)
            &&& #[trigger] is_truncated(scaled, whole)
            &&& b == crate::schedule::spec_clamp_index(whole, len)
        };
    assert(count_a == count_b);
    assert(scaled_a == scaled_b);
    assert(whole_a == whole_b);
}

/// A draw chooses one side.
pub proof fn lemma_one_toss<S: Scalar>(draw: S, a: Direction, b: Direction)
    requires
        functional::<S>(),
        is_toss(draw, a),
        is_toss(draw, b),
    ensures
        a == b,
{
    let (one_a, twice_a) = choose|one: S, twice: S|
        {
            &&& #[trigger] is_whole(1usize, one)
            &&& #[trigger] is_sum(draw, draw, twice)
            &&& is_below(one, twice, a == Direction::LEFT)
        };
    let (one_b, twice_b) = choose|one: S, twice: S|
        {
            &&& #[trigger] is_whole(1usize, one)
            &&& #[trigger] is_sum(draw, draw, twice)
            &&& is_below(one, twice, b == Direction::LEFT)
        };
    assert(one_a == one_b);
    assert(twice_a == twice_b);
    assert((a == Direction::LEFT) == (b == Direction::LEFT));
}

/// A turn leads to one heading.
pub proof fn lemma_one_turn<S: Scalar>(heading: S, angle: S, side: Direction, a: S, b: S)
    requires
        functional::<S>(),
        is_turned(heading, angle, side, a),
        is_turned(heading, angle, side, b),
    ensures
        a == b,
{
    let (full_a, raw_a) = choose|full: S, raw: S|
        {
            &&& #[trigger] is_whole(360usize, full)
            &&& match side {
                Direction::LEFT => is_difference(heading, angle, raw),
                Direction::RIGHT => is_sum(heading, angle, raw),
            }
            &&& #[trigger] is_remainder(raw, full, a)
        };
    let (full_b, raw_b) = choose|full: S, raw: S|
        {
            &&& #[trigger] is_whole(360usize, full)
            &&& match side {
                Direction::LEFT => is_difference(heading, angle, raw),
                Direction::RIGHT => is_sum(heading, angle, raw),
            }
            &&& #[trigger] is_remainder(raw, full, b)
        };
    assert(full_a == full_b);
    assert(raw_a == raw_b);
}

/// A point rounds to one slot, or to none.
pub proof fn lemma_one_slot<S: Scalar>(
    point: Point<S>,
    a: Option<Point<usize>>,
    b: Option<Point<usize>>,
)
    requires
        functional::<S>(),
        point.is_discrete(a),
        point.is_discrete(b),
    ensures
        a == b,
{
    let rounded_a = choose|r: Point<i64>| #[trigger] point.is_rounded(r) && a == r.spec_slot();
    let rounded_b = choose|r: Point<i64>| #[trigger] point.is_rounded(r) && b == r.spec_slot();
    assert(rounded_a.x == rounded_b.x);
    assert(rounded_a.y == rounded_b.y);
}

/// A step leads to one place.
pub proof fn lemma_one_step<S: Scalar>(cell: Cell<S>, distance: S, a: Cell<S>, b: Cell<S>)
    requires
        functional::<S>(),
        cell.is_step(distance, a),
        cell.is_step(distance, b),
    ensures
        a == b,
{
    let (unit_a, delta_a) = choose|unit: Point<S>, delta: Point<S>|
        {
            &&& Point::is_direction(cell.direction, unit)
            &&& #[trigger] unit.is_scaled(distance, delta)
            &&& cell.position.is_sum(delta, a.position)
            &&& a.direction == cell.direction
        };
    let (unit_b, delta_b) = choose|unit: Point<S>, delta: Point<S>|
        {
            &&& Point::is_direction(cell.direction, unit)
            &&& #[trigger] unit.is_scaled(distance, delta)
            &&& cell.position.is_sum(delta, b.position)
            &&& b.direction == cell.direction
        };
    assert(unit_a.x == unit_b.x && unit_a.y == unit_b.y);
    assert(unit_a == unit_b);
    assert(delta_a.x == delta_b.x && delta_a.y == delta_b.y);
    assert(delta_a == delta_b);
    assert(a.position.x == b.position.x && a.position.y == b.position.y);
}

/// A sensor reads one level.
pub proof fn lemma_one_reading<S: Scalar>(
    trail: Seq<u8>,
    width: usize,
    height: usize,
    position: Point<S>,
    degrees: S,
    offset: S,
    a: u8,
    b: u8,
)
    requires
        functional::<S>(),
        is_reading(trail, width, height, position, degrees, offset, a),
        is_reading(trail, width, height, position, degrees, offset, b),
    ensures
        a == b,
{
    let (probe_a, slot_a) = choose|probe: Cell<S>, slot: Option<Point<usize>>|
        {
            &&& #[trigger] (Cell { position, direction: degrees }).is_step(offset, probe)
            &&& #[trigger] probe.position.is_discrete(slot)
            &&& a == level_on(trail, width, height, slot)
        };
    let (probe_b, slot_b) = choose|probe: Cell<S>, slot: Option<Point<usize>>|
        {
            &&& #[trigger] (Cell { position, direction: degrees }).is_step(offset, probe)
            &&& #[trigger] probe.position.is_discrete(slot)
            &&& b == level_on(trail, width, height, slot)
        };
    lemma_one_step(Cell { position, direction: degrees }, offset, probe_a, probe_b);
    lemma_one_slot(probe_a.position, slot_a, slot_b);
}

/// An agent steers in one way: with the same draws, as far as it takes any, it ends
/// with the same heading, and it takes the same draws.
pub proof fn lemma_steered_reproducible<S: Scalar>(
    config: SimulationConfig<S>,
    cell: Cell<S>,
    steering: Steering,
    draws_a: Seq<S>,
    draws_b: Seq<S>,
    steered_a: Cell<S>,
    steered_b: Cell<S>,
)
    requires
        functional::<S>(),
        agree(draws_a, draws_b),
        is_steered(config, cell, steering, draws_a, steered_a),
        is_steered(config, cell, steering, draws_b, steered_b),
    ensures
        draws_a == draws_b,
        steered_a == steered_b,
{
    match steering {
        Steering::Keep => {},
        Steering::Turn(side) => {
            lemma_one_turn(
                cell.direction,
                config.rotation_angle,
                side,
                steered_a.direction,
                steered_b.direction,
            );
        },
        Steering::Toss => {
            let side_a = choose|side: Direction|
                {
                    &&& #[trigger] is_toss(draws_a[0], side)
                    &&& is_turned(cell.direction, config.rotation_angle, side, steered_a.direction)
                };
            let side_b = choose|side: Direction|
                {
                    &&& #[trigger] is_toss(draws_b[0], side)
                    &&& is_turned(cell.direction, config.rotation_angle, side, steered_b.direction)
                };
            assert(draws_a[0] == draws_b[0]);
            lemma_one_toss(draws_a[0], side_a, side_b);
            lemma_one_turn(
                cell.direction,
                config.rotation_angle,
                side_a,
                steered_a.direction,
                steered_b.direction,
            );
        },
    }
    assert(draws_a =~= draws_b);
}

/// An agent senses and steers in one way.
pub proof fn lemma_sensed_reproducible<S: Scalar>(
    config: SimulationConfig<S>,
    trail: Seq<u8>,
    cell: Cell<S>,
    draws_a: Seq<S>,
    draws_b: Seq<S>,
    sensed_a: Cell<S>,
    sensed_b: Cell<S>,
)
    requires
        functional::<S>(),
        agree(draws_a, draws_b),
        is_sensed(config, trail, cell, draws_a, sensed_a),
        is_sensed(config, trail, cell, draws_b, sensed_b),
    ensures
        draws_a == draws_b,
        sensed_a == sensed_b,
{
    let (offset_a, left_angle_a, right_angle_a, forward_a, left_a, right_a) = choose|
        offset: S,
        left_angle: S,
        right_angle: S,
        forward: u8,
        left: u8,
        right: u8,
    |
        is_sensed_by(
            config,
            trail,
            cell,
            draws_a,
            offset,
            left_angle,
            right_angle,
            forward,
            left,
            right,
            sensed_a,
        );
    let (offset_b, left_angle_b, right_angle_b, forward_b, left_b, right_b) = choose|
        offset: S,
        left_angle: S,
        right_angle: S,
        forward: u8,
        left: u8,
        right: u8,
    |
        is_sensed_by(
            config,
            trail,
            cell,
            draws_b,
            offset,
            left_angle,
            right_angle,
            forward,
            left,
            right,
            sensed_b,
        );
    assert(offset_a == offset_b);
    assert(left_angle_a == left_angle_b);
    assert(right_angle_a == right_angle_b);
    lemma_one_reading(
        trail,
        config.width,
        config.height,
        cell.position,
        cell.direction,
        offset_a,
        forward_a,
        forward_b,
    );
    lemma_one_reading(
        trail,
        config.width,
        config.height,
        cell.position,
        left_angle_a,
        offset_a,
        left_a,
        left_b,
    );
    lemma_one_reading(
        trail,
        config.width,
        config.height,
        cell.position,
        right_angle_a,
        offset_a,
        right_a,
        right_b,
    );
    lemma_steered_reproducible(
        config,
        cell,
        spec_steer(forward_a, left_a, right_a),
        draws_a,
        draws_b,
        sensed_a,
        sensed_b,
    );
}

/// The sensor phase makes one thing of a slot.
pub proof fn lemma_sensed_slot_reproducible<S: Scalar>(
    config: SimulationConfig<S>,
    trail: Seq<u8>,
    before: Option<Cell<S>>,
    draws_a: Seq<S>,
    draws_b: Seq<S>,
    after_a: Option<Cell<S>>,
    after_b: Option<Cell<S>>,
)
    requires
        functional::<S>(),
        agree(draws_a, draws_b),
        is_sensed_slot(config, trail, before, draws_a, after_a),
        is_sensed_slot(config, trail, before, draws_b, after_b),
    ensures
        draws_a == draws_b,
        after_a == after_b,
{
    match before {
        Some(cell) => {
            lemma_sensed_reproducible(config, trail, cell, draws_a, draws_b, after_a->0, after_b->0);
        },
        None => {
            assert(draws_a =~= draws_b);
        },
    }
}

/// Two sensor phases over the same grids whose draws agree are alike up to each slot:
/// they have taken the same number of draws before the slot `i`, and have made the
/// same of every slot before it.
pub proof fn lemma_sensor_alike_up_to<S: Scalar>(
    config: SimulationConfig<S>,
    before: Stage<S>,
    draws_a: Seq<S>,
    marks_a: Seq<int>,
    after_a: Stage<S>,
    draws_b: Seq<S>,
    marks_b: Seq<int>,
    after_b: Stage<S>,
    i: int,
)
    requires
        functional::<S>(),
        agree(draws_a, draws_b),
        is_sensor_phase(config, before, draws_a, marks_a, after_a),
        is_sensor_phase(config, before, draws_b, marks_b, after_b),
        0 <= i <= before.cells.len(),
    ensures
        marks_a[i] == marks_b[i],
        forall|j: int| 0 <= j < i ==> after_a.cells[j] == after_b.cells[j],
    decreases i,
{
    if i > 0 {
        lemma_sensor_alike_up_to(
            config,
            before,
            draws_a,
            marks_a,
            after_a,
            draws_b,
            marks_b,
            after_b,
            i - 1,
        );
        assert(is_sensor_turn(config, before, draws_a, marks_a, after_a.cells, i - 1));
        assert(is_sensor_turn(config, before, draws_b, marks_b, after_b.cells, i - 1));
        let used_a = draws_a.subrange(marks_a[i - 1], marks_a[i - 1 + 1]);
        let used_b = draws_b.subrange(marks_b[i - 1], marks_b[i - 1 + 1]);
        assert(agree(used_a, used_b));
        lemma_sensed_slot_reproducible(
            config,
            before.trail,
            before.cells[i - 1],
            used_a,
            used_b,
            after_a.cells[i - 1],
            after_b.cells[i - 1],
        );
        assert(used_a.len() == used_b.len());
    }
}

/// The sensor phase is reproducible: from the same grids and with draws that agree, it
/// takes the same draws and leaves the same grids.
pub proof fn lemma_sensor_reproducible<S: Scalar>(
    config: SimulationConfig<S>,
    before: Stage<S>,
    draws_a: Seq<S>,
    draws_b: Seq<S>,
    after_a: Stage<S>,
    after_b: Stage<S>,
)
    requires
        functional::<S>(),
        agree(draws_a, draws_b),
        is_sensor(config, before, draws_a, after_a),
        is_sensor(config, before, draws_b, after_b),
    ensures
        draws_a == draws_b,
        after_a == after_b,
{
    let marks_a = choose|marks: Seq<int>| is_sensor_phase(config, before, draws_a, marks, after_a);
    let marks_b = choose|marks: Seq<int>| is_sensor_phase(config, before, draws_b, marks, after_b);
    lemma_sensor_alike_up_to(
        config,
        before,
        draws_a,
        marks_a,
        after_a,
        draws_b,
        marks_b,
        after_b,
        before.cells.len() as int,
    );
    assert(draws_a =~= draws_b);
    assert(after_a.cells =~= after_b.cells);
}

/// An agent takes its chance to move in one way.
pub proof fn lemma_moved_agent_reproducible<S: Scalar>(
    config: SimulationConfig<S>,
    before: Stage<S>,
    slot: usize,
    draws_a: Seq<S>,
    draws_b: Seq<S>,
    after_a: Stage<S>,
    after_b: Stage<S>,
)
    requires
        functional::<S>(),
        agree(draws_a, draws_b),
        is_moved_agent(config, before, slot, draws_a, after_a),
        is_moved_agent(config, before, slot, draws_b, after_b),
    ensures
        draws_a == draws_b,
        after_a == after_b,
{
    let cell = before.cells[slot as int]->0;
    let (distance_a, moved_a, destination_a) = choose|
        distance: S,
        moved: Cell<S>,
        destination: Option<Point<usize>>,
    | is_moved_agent_by(config, before, slot, draws_a, distance, moved, destination, after_a);
    let (distance_b, moved_b, destination_b) = choose|
        distance: S,
        moved: Cell<S>,
        destination: Option<Point<usize>>,
    | is_moved_agent_by(config, before, slot, draws_b, distance, moved, destination, after_b);
    assert(distance_a == distance_b);
    lemma_one_step(cell, distance_a, moved_a, moved_b);
    lemma_one_slot(moved_a.position, destination_a, destination_b);
    match free_target(before.cells, config.width, config.height, destination_a) {
        Some(target) => {},
        None => {
            assert(draws_a[0] == draws_b[0]);
            let fresh_a = choose|fresh: S|
                {
                    &&& #[trigger] is_heading(draws_a[0], fresh)
                    &&& after_a.cells == before.cells.update(
                        slot as int,
                        Some(Cell { position: cell.position, direction: fresh }),
                    )
                };
            let fresh_b = choose|fresh: S|
                {
                    &&& #[trigger] is_heading(draws_b[0], fresh)
                    &&& after_b.cells == before.cells.update(
                        slot as int,
                        Some(Cell { position: cell.position, direction: fresh }),
                    )
                };
            lemma_one_heading(draws_a[0], fresh_a, fresh_b);
        },
    }
    assert(draws_a =~= draws_b);
}

/// Two motor phases over the same grids whose draws agree are alike up to each chance
/// to move: before the `k`-th chance they have taken the same number of draws, have
/// made the same picks and have left the same grids.
pub proof fn lemma_motor_alike_up_to<S: Scalar>(
    config: SimulationConfig<S>,
    before: Stage<S>,
    draws_a: Seq<S>,
    picks_a: Seq<usize>,
    marks_a: Seq<int>,
    stages_a: Seq<Stage<S>>,
    after_a: Stage<S>,
    draws_b: Seq<S>,
    picks_b: Seq<usize>,
    marks_b: Seq<int>,
    stages_b: Seq<Stage<S>>,
    after_b: Stage<S>,
    k: int,
)
    requires
        functional::<S>(),
        agree(draws_a, draws_b),
        is_motor_phase(config, before, draws_a, picks_a, marks_a, stages_a, after_a),
        is_motor_phase(config, before, draws_b, picks_b, marks_b, stages_b, after_b),
        0 <= k <= occupied_slots(before.cells).len(),
    ensures
        marks_a[k] == marks_b[k],
        stages_a[k] == stages_b[k],
        picks_a.take(k) == picks_b.take(k),
    decreases k,
{
    if k == 0 {
        assert(picks_a.take(0) =~= picks_b.take(0));
    } else {
        let agents = occupied_slots(before.cells);
        lemma_motor_alike_up_to(
            config,
            before,
            draws_a,
            picks_a,
            marks_a,
            stages_a,
            after_a,
            draws_b,
            picks_b,
            marks_b,
            stages_b,
            after_b,
            k - 1,
        );
        assert(is_motor_turn(
            config,
            agents.len(),
            draws_a,
            picks_a,
            marks_a,
            drawn_order(agents, picks_a),
            stages_a,
            k - 1,
        ));
        assert(is_motor_turn(
            config,
            agents.len(),
            draws_b,
            picks_b,
            marks_b,
            drawn_order(agents, picks_b),
            stages_b,
            k - 1,
        ));
        let mark = marks_a[k - 1];
        assert(draws_a[mark] == draws_b[mark]);
        lemma_one_pick(
            draws_a[mark],
            (agents.len() - (k - 1)) as usize,
            picks_a[k - 1],
            picks_b[k - 1],
        );
        assert(picks_a.take(k) =~= picks_a.take(k - 1).push(picks_a[k - 1]));
        assert(picks_b.take(k) =~= picks_b.take(k - 1).push(picks_b[k - 1]));
        lemma_drawn_order_prefix(agents, picks_a, k - 1);
        lemma_drawn_order_prefix(agents, picks_b, k - 1);
        let used_a = draws_a.subrange(mark + 1, marks_a[k - 1 + 1]);
        let used_b = draws_b.subrange(mark + 1, marks_b[k - 1 + 1]);
        assert(agree(used_a, used_b));
        lemma_moved_agent_reproducible(
            config,
            stages_a[k - 1],
            drawn_order(agents, picks_a)[k - 1],
            used_a,
            used_b,
            stages_a[k - 1 + 1],
            stages_b[k - 1 + 1],
        );
        assert(used_a.len() == used_b.len());
    }
}

/// The motor phase is reproducible: from the same grids and with draws that agree, it
/// takes the same draws and leaves the same grids.
pub proof fn lemma_motor_reproducible<S: Scalar>(
    config: SimulationConfig<S>,
    before: Stage<S>,
    draws_a: Seq<S>,
    draws_b: Seq<S>,
    after_a: Stage<S>,
    after_b: Stage<S>,
)
    requires
        functional::<S>(),
        agree(draws_a, draws_b),
        is_motor(config, before, draws_a, after_a),
        is_motor(config, before, draws_b, after_b),
    ensures
        draws_a == draws_b,
        after_a == after_b,
{
    let (picks_a, marks_a, stages_a) = choose|
        picks: Seq<usize>,
        marks: Seq<int>,
        stages: Seq<Stage<S>>,
    | is_motor_phase(config, before, draws_a, picks, marks, stages, after_a);
    let (picks_b, marks_b, stages_b) = choose|
        picks: Seq<usize>,
        marks: Seq<int>,
        stages: Seq<Stage<S>>,
    | is_motor_phase(config, before, draws_b, picks, marks, stages, after_b);
    lemma_motor_alike_up_to(
        config,
        before,
        draws_a,
        picks_a,
        marks_a,
        stages_a,
        after_a,
        draws_b,
        picks_b,
        marks_b,
        stages_b,
        after_b,
        occupied_slots(before.cells).len() as int,
    );
    assert(draws_a =~= draws_b);
}

/// A tick is reproducible: from the same grids and with draws that agree, it takes the
/// same draws and leaves the same grids.
pub proof fn lemma_tick_reproducible<S: Scalar>(
    config: SimulationConfig<S>,
    before: Stage<S>,
    draws_a: Seq<S>,
    draws_b: Seq<S>,
    after_a: Stage<S>,
    after_b: Stage<S>,
)
    requires
        functional::<S>(),
        agree(draws_a, draws_b),
        is_tick(config, before, draws_a, after_a),
        is_tick(config, before, draws_b, after_b),
    ensures
        draws_a == draws_b,
        after_a == after_b,
{
    let (cut_a, moved_a, sensed_a) = choose|cut: int, moved: Stage<S>, sensed: Stage<S>|
        is_tick_phases(config, before, draws_a, cut, moved, sensed, after_a);
    let (cut_b, moved_b, sensed_b) = choose|cut: int, moved: Stage<S>, sensed: Stage<S>|
        is_tick_phases(config, before, draws_b, cut, moved, sensed, after_b);
    assert(agree(draws_a.take(cut_a), draws_b.take(cut_b)));
    lemma_motor_reproducible(
        config,
        before,
        draws_a.take(cut_a),
        draws_b.take(cut_b),
        moved_a,
        moved_b,
    );
    assert(draws_a.take(cut_a).len() == draws_b.take(cut_b).len());
    assert(cut_a == cut_b);
    assert(agree(draws_a.skip(cut_a), draws_b.skip(cut_b)));
    lemma_sensor_reproducible(
        config,
        moved_a,
        draws_a.skip(cut_a),
        draws_b.skip(cut_b),
        sensed_a,
        sensed_b,
    );
    assert(draws_a.skip(cut_a).len() == draws_b.skip(cut_b).len());
    assert(draws_a =~= draws_b);
}

/// Two runs from the same grids whose draws agree are alike up to each tick: before
/// the `k`-th tick they have taken the same number of draws and have left the same
/// grids.
pub proof fn lemma_run_alike_up_to<S: Scalar>(
    config: SimulationConfig<S>,
    ticks_a: Seq<Stage<S>>,
    draws_a: Seq<S>,
    marks_a: Seq<int>,
    ticks_b: Seq<Stage<S>>,
    draws_b: Seq<S>,
    marks_b: Seq<int>,
    k: int,
)
    requires
        functional::<S>(),
        agree(draws_a, draws_b),
        is_run(config, ticks_a, draws_a, marks_a),
        is_run(config, ticks_b, draws_b, marks_b),
        ticks_a[0] == ticks_b[0],
        0 <= k < ticks_a.len(),
        k < ticks_b.len(),
    ensures
        marks_a[k] == marks_b[k],
        ticks_a[k] == ticks_b[k],
    decreases k,
{
    if k > 0 {
        lemma_run_alike_up_to(config, ticks_a, draws_a, marks_a, ticks_b, draws_b, marks_b, k - 1);
        assert(is_run_turn(config, ticks_a, draws_a, marks_a, k - 1));
        assert(is_run_turn(config, ticks_b, draws_b, marks_b, k - 1));
        let used_a = draws_a.subrange(marks_a[k - 1], marks_a[k - 1 + 1]);
        let used_b = draws_b.subrange(marks_b[k - 1], marks_b[k - 1 + 1]);
        assert(agree(used_a, used_b));
        lemma_tick_reproducible(
            config,
            ticks_a[k - 1],
            used_a,
            used_b,
            ticks_a[k - 1 + 1],
            ticks_b[k - 1 + 1],
        );
        assert(used_a.len() == used_b.len());
    }
}

/// A run is reproducible. Two runs of as many ticks that begin with the same grids and
/// take their draws from the same list, one after another, take the same draws and
/// pass through the same grids, tick for tick, if the scalar operations are functions.
pub proof fn lemma_run_reproducible<S: Scalar>(
    config: SimulationConfig<S>,
    ticks_a: Seq<Stage<S>>,
    draws_a: Seq<S>,
    marks_a: Seq<int>,
    ticks_b: Seq<Stage<S>>,
    draws_b: Seq<S>,
    marks_b: Seq<int>,
)
    requires
        functional::<S>(),
        agree(draws_a, draws_b),
        is_run(config, ticks_a, draws_a, marks_a),
        is_run(config, ticks_b, draws_b, marks_b),
        ticks_a.len() == ticks_b.len(),
        ticks_a[0] == ticks_b[0],
    ensures
        draws_a == draws_b,
        ticks_a == ticks_b,
{
    assert forall|k: int| 0 <= k < ticks_a.len() implies ticks_a[k] == ticks_b[k] by {
        lemma_run_alike_up_to(config, ticks_a, draws_a, marks_a, ticks_b, draws_b, marks_b, k);
    }
    lemma_run_alike_up_to(
        config,
        ticks_a,
        draws_a,
        marks_a,
        ticks_b,
        draws_b,
        marks_b,
        ticks_a.len() - 1,
    );
    assert(draws_a =~= draws_b);
    assert(ticks_a =~= ticks_b);
}

} // verus!
