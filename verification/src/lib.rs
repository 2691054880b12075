//! Authoritative grid-world simulation: a plot-partitioned map (with a
//! randomized depth-first maze as an alternative layout), per-player
//! motion state machines with a fixed movement cadence, cell lifecycles,
//! and the per-tick diff computation that drives client broadcasts.

pub mod api;
pub mod cell;
pub mod grid;
pub mod map_generator;
pub mod maze;
pub mod player;
pub mod tick;
pub mod world;
