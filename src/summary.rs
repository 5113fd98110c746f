//! Ordering of the lines of a battery summary.
use vstd::prelude::*;
use crate::statement::{kbps_of, ExperimentInfo};

verus! {

/// What the lines of a battery summary are sorted by.
#[derive(Debug, PartialEq, Eq, Structural, Clone, Copy)]
pub enum SortOrder {
    /// The order in which the experiments ran.
    Time,
    /// Bit rate.
    Kbps,
    /// Packet size.
    PktSize,
    /// Delay between packets.
    PktRate,
}

pub open spec fn sort_key_spec(order: SortOrder, index: int, e: ExperimentInfo) -> int {
    match order {
        SortOrder::Kbps => kbps_of(e),
        SortOrder::Time => index,
        SortOrder::PktRate => e.packetdelay_us as int,
        SortOrder::PktSize => e.packetsize as int,
    }
}

/// The key of the experiment `e`, which ran as number `index`.
pub fn sort_key(order: SortOrder, index: usize, e: &ExperimentInfo) -> (k: u64)
    ensures
        k as int == sort_key_spec(order, index as int, *e),
{
    match order {
        SortOrder::Kbps => e.kbps() as u64,
        SortOrder::Time => index as u64,
        SortOrder::PktRate => e.packetdelay_us,
        SortOrder::PktSize => e.packetsize as u64,
    }
}

} // verus!
