//! The parameters of a simulation.

use vstd::prelude::*;
use crate::scalar::is_whole;
use crate::scalar::Scalar;

verus! {

/// How an agent senses the trail.
#[derive(Clone, Copy)]
pub struct SensorConfig<S> {
    /// The size of the area that a sensor observes (in pixels)
    pub width: usize,
    /// The angle between neighbouring sensors (in degrees)
    pub angle: S,
    /// The distance between the agent and its sensors (in pixels)
    pub offset_distance: usize,
}

impl<S: Scalar> Default for SensorConfig<S> {
    /// Sensors of one pixel, 45 degrees apart, 9 pixels ahead of the agent.
    fn default() -> (config: Self)
        ensures
            config.width == 1,
            is_whole(45usize, config.angle),
            config.offset_distance == 9,
    {
        Self { width: 1, angle: S::from_usize(45), offset_distance: 9 }
    }
}

/// What stays fixed for the lifetime of a simulation.
pub struct SimulationConfig<S> {
    /// Sensor properties
    pub sensor_config: SensorConfig<S>,
    /// Distance an agent moves per tick (in pixels)
    pub step_size: usize,
    /// The trail level written where an agent arrives
    pub deposition: u8,
    /// Probability of a random change in direction (between 0 and 1); the engine does
    /// not consult it
    pub cd_prob: S,
    /// Sensitivity threshold; the engine does not consult it
    pub s_min: usize,
    /// Width of the environment
    pub width: usize,
    /// Height of the environment
    pub height: usize,
    /// How far an agent turns when its sensors tell it to (in degrees)
    pub rotation_angle: S,
}

impl<S: Scalar> Default for SimulationConfig<S> {
    /// A grid of 100 by 100 on which agents move one pixel per tick, deposit the full
    /// level 255 and turn by 45 degrees, with the default sensors.
    fn default() -> (config: Self)
        ensures
            config.sensor_config.width == 1,
            is_whole(45usize, config.sensor_config.angle),
            config.sensor_config.offset_distance == 9,
            config.step_size == 1,
            config.deposition == 255,
            is_whole(0usize, config.cd_prob),
            config.s_min == 50,
            config.width == 100,
            config.height == 100,
            is_whole(45usize, config.rotation_angle),
    {
        Self {
            sensor_config: SensorConfig::default(),
            step_size: 1,
            deposition: 255,
            cd_prob: S::from_usize(0),
            s_min: 50,
            width: 100,
            height: 100,
            rotation_angle: S::from_usize(45),
        }
    }
}

} // verus!
