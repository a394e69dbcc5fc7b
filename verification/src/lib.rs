//! Outbound message scheduling for a publish/subscribe transport link.
//!
//! Messages are classified into eight priority lanes, admission into a full
//! lane is gated by a congestion-control policy (drop after a bounded wait, or
//! block until the link is declared unusable), dequeued messages are coalesced
//! into size- and time-bounded batches, and live statistics (queue depth, drop
//! rate, queueing delay) are recorded per lane.

pub mod batching;
pub mod config;
pub mod lanes;
pub mod parameters;
pub mod qstats;
pub mod scheduler;

use vstd::prelude::*;

verus! {

/// The eight traffic classes, highest priority first.
///
/// Each class maps to exactly one lane; a smaller rank means a higher
/// priority.
#[derive(Clone, Copy, Debug, PartialEq, Eq, Structural)]
pub enum PriorityClass {
    Control,
    RealTime,
    InteractiveHigh,
    InteractiveLow,
    DataHigh,
    Data,
    DataLow,
    Background,
}

/// Number of priority classes (and so of lanes).
pub const NUM_CLASSES: usize = 8;

impl PriorityClass {
    /// Rank of the class: 0 for the highest priority, 7 for the lowest.
    pub open spec fn rank_spec(self) -> int {
        match self {
            PriorityClass::Control => 0,
            PriorityClass::RealTime => 1,
            PriorityClass::InteractiveHigh => 2,
            PriorityClass::InteractiveLow => 3,
            PriorityClass::DataHigh => 4,
            PriorityClass::Data => 5,
            PriorityClass::DataLow => 6,
            PriorityClass::Background => 7,
        }
    }

    /// Rank of the class as an array index; 0 is the highest priority.
    pub fn rank(self) -> (r: usize)
        ensures
            r == self.rank_spec(),
            r < NUM_CLASSES,
    {
        match self {
            PriorityClass::Control => 0,
            PriorityClass::RealTime => 1,
            PriorityClass::InteractiveHigh => 2,
            PriorityClass::InteractiveLow => 3,
            PriorityClass::DataHigh => 4,
            PriorityClass::Data => 5,
            PriorityClass::DataLow => 6,
            PriorityClass::Background => 7,
        }
    }

    /// The class of a given rank, inverse of `rank`.
    pub fn from_rank(r: usize) -> (c: PriorityClass)
        requires
            r < NUM_CLASSES,
        ensures
            c.rank_spec() == r,
    {
        if r == 0 {
            PriorityClass::Control
        } else if r == 1 {
            PriorityClass::RealTime
        } else if r == 2 {
            PriorityClass::InteractiveHigh
        } else if r == 3 {
            PriorityClass::InteractiveLow
        } else if r == 4 {
            PriorityClass::DataHigh
        } else if r == 5 {
            PriorityClass::Data
        } else if r == 6 {
            PriorityClass::DataLow
        } else {
            PriorityClass::Background
        }
    }
}

} // verus!
