//! Figures that sum up the state of the economy.

use crate::amount::Amount;
use vstd::prelude::*;

verus! {

/// A summary of one moment of a simulation.
#[derive(Debug, Clone, Copy, PartialEq, Eq, Structural)]
pub struct EconomyMetrics {
    pub tick: u64,
    pub households: usize,
    pub total_cash: Amount,
    pub avg_utility: Amount,
}

impl Default for EconomyMetrics {
    /// The summary of an economy without households at tick zero.
    fn default() -> (metrics: EconomyMetrics)
        ensures
            metrics == (EconomyMetrics {
                tick: 0,
                households: 0,
                total_cash: Amount::zero(),
                avg_utility: Amount::zero(),
            }),
    {
        EconomyMetrics {
            tick: 0,
            households: 0,
            total_cash: Amount::zero(),
            avg_utility: Amount::zero(),
        }
    }
}

} // verus!
