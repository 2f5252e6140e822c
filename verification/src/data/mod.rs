//! The catalogue that a simulation runs on, and the handles into it.

pub mod compile;
pub mod compiled;
pub mod ids;
pub mod xml;
