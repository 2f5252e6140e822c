//! The short log of what a household consumed during one tick.

use smallvec::SmallVec;
use vstd::prelude::*;

verus! {

/// A log of consumed goods, held in a `SmallVec` that keeps its first eight
/// entries inline. What it holds is known only through `entries`.
#[verifier::external_body]
#[derive(Debug)]
pub struct ConsumptionLog {
    items: SmallVec<[(u32, i64); 8]>,
}

/// The entries of a log, oldest first: the id of a good and the quantity
/// consumed, in millionths.
pub uninterp spec fn entries(log: ConsumptionLog) -> Seq<(u32, i64)>;

impl View for ConsumptionLog {
    type V = Seq<(u32, i64)>;

    open spec fn view(&self) -> Seq<(u32, i64)> {
        entries(*self)
    }
}

/// `SmallVec::clone`: a log with the same entries in the same order.
#[verifier::external_body]
pub(crate) fn copy_log(log: &ConsumptionLog) -> (copy: ConsumptionLog)
    ensures
        entries(copy) == entries(*log),
{
    ConsumptionLog { items: log.items.clone() }
}

/// `SmallVec::new`: a log without entries.
#[verifier::external_body]
pub(crate) fn empty_log() -> (log: ConsumptionLog)
    ensures
        entries(log) == Seq::<(u32, i64)>::empty(),
{
    ConsumptionLog { items: SmallVec::new() }
}

/// `SmallVec::clear`: removes every entry.
#[verifier::external_body]
pub(crate) fn clear_log(log: &mut ConsumptionLog)
    ensures
        entries(*final(log)) == Seq::<(u32, i64)>::empty(),
{
    log.items.clear()
}

/// `SmallVec::push`: appends one entry behind the others.
#[verifier::external_body]
pub(crate) fn push_log(log: &mut ConsumptionLog, good: u32, micros: i64)
    ensures
        entries(*final(log)) == entries(*old(log)).push((good, micros)),
{
    log.items.push((good, micros))
}

/// `SmallVec::as_slice`: the entries in their order, copied into a vector.
#[verifier::external_body]
pub(crate) fn log_to_vec(log: &ConsumptionLog) -> (out: Vec<(u32, i64)>)
    ensures
        out@ == entries(*log),
{
    log.items.as_slice().to_vec()
}

} // verus!
