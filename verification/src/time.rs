//! Points in time as plain values.

use vstd::prelude::*;

verus! {

/// A point in UTC: whole seconds since the Unix epoch, and nanoseconds past them.
#[derive(Clone, Copy, Debug, PartialEq, Eq, Hash, Structural)]
pub struct Timestamp {
    /// Whole seconds since the epoch; negative before it.
    pub secs: i64,
    /// Nanoseconds past the whole second.
    pub nanos: u32,
}

} // verus!
