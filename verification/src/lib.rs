//! A deterministic, tick-driven simulation of a small household economy.
//!
//! Households earn income, hold goods that decay, satisfy recurring needs and
//! buy what they lack on a goods market whose prices follow the pressure of
//! demand against supply. Every quantity is an [`amount::Amount`], a decimal
//! with six fractional digits whose arithmetic saturates, so that each step of
//! the simulation is an exact function of the state before it.

pub mod amount;
pub mod simulation;
pub mod data;
pub mod app;
pub mod config;
pub mod util;
