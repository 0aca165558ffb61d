//! Range-table report generation for a point-mass ballistic simulation.
//!
//! The crate holds the report-generation core of a command-line range-table
//! program: the configuration surface that describes every physical input the
//! external trajectory simulator needs, and the adjustment/formatting engine
//! that turns simulated trajectory samples into sign-qualified, tolerance-aware
//! table rows in a plain or a bordered layout.
//!
//! Physical quantities are carried as fixed-point integers in their display
//! unit, so every comparison and every printed digit is exact. The trajectory
//! integrator itself and the command-line front end live outside this crate.

pub mod cli;
pub mod num;
pub mod printer;
