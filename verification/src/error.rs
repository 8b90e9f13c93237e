//! Errors of the accumulation core.

use vstd::prelude::*;

verus! {

/// Why an accumulation or a pose lookup failed. Every failure is fatal for
/// the whole call: there is no partial result and no retry.
#[derive(Clone, Copy, Debug, PartialEq, Eq, Structural)]
pub enum AccumError {
    /// No sweep in the accumulation window belongs to the query's session,
    /// so there is nothing to concatenate.
    EmptyWindow,
    /// No pose row carries the queried timestamp.
    PoseNotFound { timestamp_ns: u64 },
    /// More than one pose row carries the queried timestamp, so the pose at
    /// that instant is ambiguous.
    AmbiguousPose { timestamp_ns: u64 },
}

} // verus!
