//! Pose lookup by exact timestamp.
//!
//! A session's pose table has one row per recorded instant. The resolver
//! finds the single row whose timestamp equals the query; zero matches and
//! ambiguous (multiple) matches are typed errors that carry the offending
//! timestamp.

use vstd::prelude::*;

use crate::error::AccumError;

verus! {

/// Row of the unique pose whose timestamp is exactly `timestamp_ns`.
///
/// Returns `Ok(i)` exactly when row `i` is the one and only match,
/// `PoseNotFound` exactly when no row matches, and `AmbiguousPose` exactly
/// when two or more rows match.
pub fn resolve_pose_row(timestamps: &Vec<u64>, timestamp_ns: u64) -> (r: Result<
    usize,
    AccumError,
>)
    ensures
        match r {
            Ok(i) => i < timestamps@.len() && timestamps@[i as int] == timestamp_ns && forall|
                j: int,
            | 0 <= j < timestamps@.len() && j != i ==> timestamps@[j] != timestamp_ns,
            Err(e) => match e {
                AccumError::PoseNotFound { timestamp_ns: t } => t == timestamp_ns && forall|
                    j: int,
                | 0 <= j < timestamps@.len() ==> timestamps@[j] != timestamp_ns,
                AccumError::AmbiguousPose { timestamp_ns: t } => t == timestamp_ns && exists|
                    j1: int,
                    j2: int,
                |
                    0 <= j1 < j2 < timestamps@.len() && timestamps@[j1] == timestamp_ns
                        && timestamps@[j2] == timestamp_ns,
                AccumError::EmptyWindow => false,
            },
        },
{
    let mut i: usize = 0;
    let mut found: Option<usize> = None;
    while i < timestamps.len()
        invariant
            i <= timestamps@.len(),
            match found {
                Some(k) => k < i && timestamps@[k as int] == timestamp_ns && forall|j: int|
                    0 <= j < i && j != k ==> timestamps@[j] != timestamp_ns,
                None => forall|j: int| 0 <= j < i ==> timestamps@[j] != timestamp_ns,
            },
        decreases timestamps@.len() - i,
    {
        if timestamps[i] == timestamp_ns {
            match found {
                Some(k) => {
                    proof {
                        assert(0 <= k < i < timestamps@.len() && timestamps@[k as int]
                            == timestamp_ns && timestamps@[i as int] == timestamp_ns);
                    }
                    return Err(AccumError::AmbiguousPose { timestamp_ns });
                },
                None => {
                    found = Some(i);
                },
            }
        }
        i = i + 1;
    }
    match found {
        Some(k) => Ok(k),
        None => Err(AccumError::PoseNotFound { timestamp_ns }),
    }
}

} // verus!
