//! A grid simulation of slime-mould-like agents that move, sense a trail and deposit on it.
//!
//! Agents live on a grid of slots, at most one on a slot, and on a second grid of the
//! same size lies the trail, one byte for each slot. A tick of the simulation is three
//! phases: in the motor phase every agent, in an order drawn at random, tries to step
//! along its heading and deposits on the trail where it arrives; in the sensor phase
//! every agent reads the trail ahead, to the left and to the right and turns towards
//! it; in the diffusion phase every slot of the trail takes the average of its
//! neighbourhood.
//!
//! The grids, the order of the phases, the rules by which agents move and steer, and
//! the diffusion are verified. The arithmetic of the continuous plane is not part of
//! the engine: positions, headings and draws are [`scalar::Scalar`]s, whose operations
//! the user supplies and of which nothing is assumed. The random source is any function
//! that gives a scalar at each call.
//!
//! - [`scalar`]: the numbers of the continuous plane, and names for their results
//! - [`point`]: points, continuous and discrete, and how one becomes the other
//! - [`plane`]: row-major addressing, shared by both grids
//! - [`trail_map`] and [`diffusion`]: the trail and how it spreads
//! - [`cell`]: the agents and their grid
//! - [`config`]: the parameters
//! - [`steering`]: what an agent does with what its sensors read
//! - [`schedule`]: the random order of the motor phase
//! - [`simulation`]: the phases and the tick
//! - [`conservation`]: no phase makes or loses an agent
//! - [`reproducible`]: the same draws give the same run

pub mod cell;
pub mod config;
pub mod conservation;
pub mod diffusion;
pub mod plane;
pub mod point;
pub mod reproducible;
pub mod scalar;
pub mod schedule;
pub mod simulation;
pub mod steering;
pub mod trail_map;
