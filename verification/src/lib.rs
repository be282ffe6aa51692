//! Sensor-track management and intercept guidance for a vehicle in a 2D
//! kinematic arena.
//!
//! All physical quantities are carried as fixed-point integers in
//! milli-units: positions and ranges in thousandths of a length unit,
//! velocities in milli-units per second, angles in milli-radians and times
//! in milli-seconds or whole ticks.  The host environment (which works in
//! floating point) converts at the boundary; everything inside this crate
//! is exact integer arithmetic with verified contracts.

pub mod config;
pub mod engagement;
pub mod controller;
pub mod gate;
pub mod guidance;
pub mod num;
pub mod solver;
pub mod track;
pub mod tracker;
pub mod vec2;
