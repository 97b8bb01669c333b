//! How an agent senses the trail and steers.

use vstd::prelude::*;
use crate::cell::Cell;
use crate::config::SimulationConfig;
use crate::plane::Plane;
use crate::point::Point;
use crate::scalar::is_below;
use crate::scalar::is_difference;
use crate::scalar::is_remainder;
use crate::scalar::is_sum;
use crate::scalar::is_whole;
use crate::scalar::Scalar;
use crate::simulation::Direction;
use crate::trail_map::level_on;
use crate::trail_map::TrailMap;

verus! {

/// What the three sensors of an agent tell it to do.
#[derive(Clone, Copy, Debug, PartialEq, Eq)]
pub enum Steering {
    /// Keep the heading.
    Keep,
    /// Turn to a side chosen at random.
    Toss,
    /// Turn to the given side.
    Turn(Direction),
}

/// The rule by which an agent steers, for the levels that its sensors read ahead, to
/// the left and to the right. With the most trail ahead the agent keeps its heading;
/// with the least trail ahead it turns to a random side; else it turns to the side with
/// more trail, and keeps its heading where both sides read the same.
pub open spec fn spec_steer(forward: u8, left: u8, right: u8) -> Steering {
    if forward > left && forward > right {
        Steering::Keep
    } else if forward < left && forward < right {
        Steering::Toss
    } else if left < right {
        Steering::Turn(Direction::RIGHT)
    } else if right < left {
        Steering::Turn(Direction::LEFT)
    } else {
        Steering::Keep
    }
}

/// Decides how an agent steers from what its sensors read.
pub fn steer(forward: u8, left: u8, right: u8) -> (steering: Steering)
    ensures
        steering == spec_steer(forward, left, right),
{
    if forward > left && forward > right {
        Steering::Keep
    } else if forward < left && forward < right {
        Steering::Toss
    } else if left < right {
        Steering::Turn(Direction::RIGHT)
    } else if right < left {
        Steering::Turn(Direction::LEFT)
    } else {
        Steering::Keep
    }
}

/// `turned` is the heading `heading` turned by `angle` to `side`: a remainder modulo 360
/// of a difference (to the left) or a sum (to the right) of the two.
pub open spec fn is_turned<S: Scalar>(heading: S, angle: S, side: Direction, turned: S) -> bool {
    exists|full: S, raw: S|
        {
            &&& #[trigger] is_whole(360usize, full)
            &&& match side {
                Direction::LEFT => is_difference(heading, angle, raw),
                Direction::RIGHT => is_sum(heading, angle, raw),
            }
            &&& #[trigger] is_remainder(raw, full, turned)
        }
}

/// Turns a heading by `angle` degrees to `side`. The new heading is reduced modulo
/// 360, so that a turn below zero comes out below 360 again.
pub fn turn<S: Scalar>(heading: S, angle: S, side: Direction) -> (turned: S)
    ensures
        is_turned(heading, angle, side, turned),
{
    let full = S::from_usize(360);
    let raw = match side {
        Direction::LEFT => heading.minus(angle),
        Direction::RIGHT => heading.plus(angle),
    };
    let turned = raw.rem_euclid(full);
    assert(is_whole(360usize, full) && is_remainder(raw, full, turned));
    turned
}

/// `side` is the side that `draw` chooses: left if an answer to whether 1 is below a
/// sum of the draw with itself is yes (the draw is above one half), right if it is no.
pub open spec fn is_toss<S: Scalar>(draw: S, side: Direction) -> bool {
    exists|one: S, twice: S|
        {
            &&& #[trigger] is_whole(1usize, one)
            &&& #[trigger] is_sum(draw, draw, twice)
            &&& is_below(one, twice, side == Direction::LEFT)
        }
}

/// Chooses a side from a draw from the random source, a scalar from 0 up to 1: left
/// for a draw above one half, right otherwise.
pub fn toss<S: Scalar>(draw: S) -> (side: Direction)
    ensures
        is_toss(draw, side),
{
    let one = S::from_usize(1);
    let twice = draw.plus(draw);
    let side = if one.less_than(twice) {
        Direction::LEFT
    } else {
        Direction::RIGHT
    };
    assert(is_whole(1usize, one) && is_sum(draw, draw, twice) && is_below(
        one,
        twice,
        side == Direction::LEFT,
    ));
    side
}

/// `level` is what a sensor reads that sits `offset` away from `position` at the angle
/// `degrees`: the level of the trail on the slot that the sensor's point rounds to, and
/// 0 where that is no slot of the grid.
pub open spec fn is_reading<S: Scalar>(
    trail: Seq<u8>,
    width: usize,
    height: usize,
    position: Point<S>,
    degrees: S,
    offset: S,
    level: u8,
) -> bool {
    exists|probe: Cell<S>, slot: Option<Point<usize>>|
        {
            &&& #[trigger] (Cell { position, direction: degrees }).is_step(offset, probe)
            &&& #[trigger] probe.position.is_discrete(slot)
            &&& level == level_on(trail, width, height, slot)
        }
}

/// Reads the trail with a sensor that sits `offset` away from `position` at the angle
/// `degrees`.
pub fn read_sensor<S: Scalar>(trail: &TrailMap, position: Point<S>, degrees: S, offset: S) -> (level:
    u8)
    ensures
        is_reading(
            trail@,
            trail.spec_width(),
            trail.spec_height(),
            position,
            degrees,
            offset,
            level,
        ),
{
    let mut probe = Cell { position, direction: degrees };
    probe.step(offset);
    let slot = probe.position.to_discrete();
    assert((Cell { position, direction: degrees }).is_step(offset, probe)
        && probe.position.is_discrete(slot));
    trail.level_at(slot)
}

/// `steered` is the agent `cell` after it steered as `steering` tells, and `draws` are
/// the draws from the random source that this took. The position of the agent is the
/// same. Its heading is kept, or turned to the given side, both without a draw, or
/// turned to the side that one draw chose.
pub open spec fn is_steered<S: Scalar>(
    config: SimulationConfig<S>,
    cell: Cell<S>,
    steering: Steering,
    draws: Seq<S>,
    steered: Cell<S>,
) -> bool {
    match steering {
        Steering::Keep => draws.len() == 0 && steered == cell,
        Steering::Turn(side) => {
            &&& draws.len() == 0
            &&& steered.position == cell.position
            &&& is_turned(cell.direction, config.rotation_angle, side, steered.direction)
        },
        Steering::Toss => {
            &&& draws.len() == 1
            &&& steered.position == cell.position
            &&& exists|side: Direction|
                {
                    &&& #[trigger] is_toss(draws[0], side)
                    &&& is_turned(cell.direction, config.rotation_angle, side, steered.direction)
                }
        },
    }
}

/// The agent `cell` senses and steers in this way: its sensors sit `offset`, the
/// configured distance, away from it, along its heading and at the angles
/// `left_angle` and `right_angle`, the configured angle to the left and to the right
/// of its heading; they read `forward`, `left` and `right`; and the agent steers by
/// these readings.
pub open spec fn is_sensed_by<S: Scalar>(
    config: SimulationConfig<S>,
    trail: Seq<u8>,
    cell: Cell<S>,
    draws: Seq<S>,
    offset: S,
    left_angle: S,
    right_angle: S,
    forward: u8,
    left: u8,
    right: u8,
    sensed: Cell<S>,
) -> bool {
    &&& is_whole(config.sensor_config.offset_distance, offset)
    &&& is_difference(cell.direction, config.sensor_config.angle, left_angle)
    &&& is_sum(cell.direction, config.sensor_config.angle, right_angle)
    &&& is_reading(
        trail,
        config.width,
        config.height,
        cell.position,
        cell.direction,
        offset,
        forward,
    )
    &&& is_reading(trail, config.width, config.height, cell.position, left_angle, offset, left)
    &&& is_reading(trail, config.width, config.height, cell.position, right_angle, offset, right)
    &&& is_steered(config, cell, spec_steer(forward, left, right), draws, sensed)
}

/// `sensed` is the agent `cell` after it sensed the trail and steered, and `draws` are
/// the draws from the random source that this took.
pub open spec fn is_sensed<S: Scalar>(
    config: SimulationConfig<S>,
    trail: Seq<u8>,
    cell: Cell<S>,
    draws: Seq<S>,
    sensed: Cell<S>,
) -> bool {
    exists|offset: S, left_angle: S, right_angle: S, forward: u8, left: u8, right: u8|
        is_sensed_by(
            config,
            trail,
            cell,
            draws,
            offset,
            left_angle,
            right_angle,
            forward,
            left,
            right,
            sensed,
        )
}

/// An agent whose three sensors read the same level keeps its heading, and with it
/// all that it is; no draw is made for it.
pub proof fn lemma_equal_readings_keep_heading<S: Scalar>(
    config: SimulationConfig<S>,
    cell: Cell<S>,
    level: u8,
    draws: Seq<S>,
    steered: Cell<S>,
)
    requires
        is_steered(config, cell, spec_steer(level, level, level), draws, steered),
    ensures
        spec_steer(level, level, level) == Steering::Keep,
        steered == cell,
        draws.len() == 0,
{
}

/// On a trail without any chemical every sensor reads 0, wherever it sits, so every
/// agent keeps its heading.
pub proof fn lemma_blank_trail_keeps_heading<S: Scalar>(
    config: SimulationConfig<S>,
    trail: Seq<u8>,
    cell: Cell<S>,
    draws: Seq<S>,
    sensed: Cell<S>,
)
    requires
        forall|i: int| 0 <= i < trail.len() ==> trail[i] == 0,
        is_sensed(config, trail, cell, draws, sensed),
    ensures
        sensed == cell,
        draws.len() == 0,
{
    assert forall|slot: Option<Point<usize>>|
        #[trigger] level_on(trail, config.width, config.height, slot) == 0 by {}
}

} // verus!
