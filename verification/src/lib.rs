//! Verified decision core of a total-variation denoising sweep tool.
//!
//! The crate holds what such a tool decides and computes in exact arithmetic:
//! the checks on a sweep request, the order in which the units of a sweep are
//! dispatched and collected, the iteration control of the solver, the filter
//! and routing rules of the logger, and the discrete gradient and divergence
//! operators on grids of integer samples.
pub mod args;
pub mod duality;
pub mod grid;
pub mod logging;
pub mod matrix;
pub mod naming;
pub mod rgb;
pub mod solver;
pub mod sweep;
