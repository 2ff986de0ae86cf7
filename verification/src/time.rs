//! Points in time, as carried in the library's records.
use vstd::prelude::*;

verus! {

/// A point in time since the Unix epoch, to the nanosecond.
#[derive(Debug, Clone, Copy, PartialEq, Eq, Structural)]
pub struct Timestamp {
    pub secs: u64,
    pub nanos: u32,
}

} // verus!
