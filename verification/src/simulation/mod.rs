//! The simulation engine: households, markets and the tick that drives them.

pub mod consumption;
pub mod economy;
pub mod engine;
pub mod household;
pub mod market;
pub mod order;
pub mod rng;
pub mod stock_market;
