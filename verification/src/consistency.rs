//! Read and write consistency levels.
use vstd::prelude::*;

use std::time::Duration;

use crate::errors::ConsistencyError;

verus! {

/// Default minimum replica count for majority consistency.
pub const DEFAULT_MAJORITY_MIN_CAP: usize = 0;

/// How many replicas a read consults before answering.
#[derive(Debug, Clone, Copy, PartialEq, Eq)]
pub enum ReadConsistency {
    /// Read only the local replica.
    Local,
    /// Read from an exact number of replicas, including the local one.
    From { replicas: usize, timeout: Duration },
    /// Read from a majority of replicas, never fewer than `min_cap`.
    Majority { timeout: Duration, min_cap: usize },
    /// Read from a majority plus `additional` replicas, never fewer than `min_cap`.
    MajorityPlus { timeout: Duration, additional: usize, min_cap: usize },
    /// Read from every replica.
    All { timeout: Duration },
}

/// How many replicas a write must reach before it succeeds.
#[derive(Debug, Clone, Copy, PartialEq, Eq)]
pub enum WriteConsistency {
    /// Write only the local replica.
    Local,
    /// Write to an exact number of replicas, including the local one.
    To { replicas: usize, timeout: Duration },
    /// Write to a majority of replicas, never fewer than `min_cap`.
    Majority { timeout: Duration, min_cap: usize },
    /// Write to a majority plus `additional` replicas, never fewer than `min_cap`.
    MajorityPlus { timeout: Duration, additional: usize, min_cap: usize },
    /// Write to every replica.
    All { timeout: Duration },
}

/// Rejects distributed consistency over fewer than two replicas.
pub fn ensure_multi_replica(replicas: usize) -> (r: Result<(), ConsistencyError>)
    ensures
        r is Ok <==> replicas >= 2,
        r matches Err(e) ==> e == (ConsistencyError::ReplicaCountTooSmall { requested: replicas }),
{
    if replicas >= 2 {
        Ok(())
    } else {
        Err(ConsistencyError::ReplicaCountTooSmall { requested: replicas })
    }
}

impl ReadConsistency {
    /// Local-only reads.
    pub fn local() -> (r: Self)
        ensures
            r == ReadConsistency::Local,
    {
        ReadConsistency::Local
    }

    /// Reads from exactly `replicas` replicas; fewer than two is rejected.
    pub fn from(replicas: usize, timeout: Duration) -> (r: Result<Self, ConsistencyError>)
        ensures
            replicas >= 2 ==> r == Ok::<Self, ConsistencyError>(
                ReadConsistency::From { replicas, timeout },
            ),
            replicas < 2 ==> r == Err::<Self, ConsistencyError>(
                ConsistencyError::ReplicaCountTooSmall { requested: replicas },
            ),
    {
        match ensure_multi_replica(replicas) {
            Ok(()) => Ok(ReadConsistency::From { replicas, timeout }),
            Err(e) => Err(e),
        }
    }

    /// Majority reads with the default minimum.
    pub fn majority(timeout: Duration) -> (r: Self)
        ensures
            r == (ReadConsistency::Majority { timeout, min_cap: DEFAULT_MAJORITY_MIN_CAP }),
    {
        ReadConsistency::Majority { timeout, min_cap: DEFAULT_MAJORITY_MIN_CAP }
    }

    /// Majority reads with a minimum replica count.
    pub fn majority_with_min_cap(timeout: Duration, min_cap: usize) -> (r: Self)
        ensures
            r == (ReadConsistency::Majority { timeout, min_cap }),
    {
        ReadConsistency::Majority { timeout, min_cap }
    }

    /// Majority-plus reads with the default minimum.
    pub fn majority_plus(timeout: Duration, additional: usize) -> (r: Self)
        ensures
            r == (ReadConsistency::MajorityPlus {
                timeout,
                additional,
                min_cap: DEFAULT_MAJORITY_MIN_CAP,
            }),
    {
        ReadConsistency::MajorityPlus { timeout, additional, min_cap: DEFAULT_MAJORITY_MIN_CAP }
    }

    /// Majority-plus reads with a minimum replica count.
    pub fn majority_plus_with_min_cap(timeout: Duration, additional: usize, min_cap: usize) -> (r:
        Self)
        ensures
            r == (ReadConsistency::MajorityPlus { timeout, additional, min_cap }),
    {
        ReadConsistency::MajorityPlus { timeout, additional, min_cap }
    }

    /// Reads from every replica.
    pub fn all(timeout: Duration) -> (r: Self)
        ensures
            r == (ReadConsistency::All { timeout }),
    {
        ReadConsistency::All { timeout }
    }

    /// Whether the read can be answered locally given the remote replica count.
    pub fn is_local(&self, remote_replica_count: usize) -> (r: bool)
        ensures
            r == (*self is Local || (remote_replica_count == 0 && (*self is Majority
                || *self is MajorityPlus || *self is All))),
    {
        match self {
            ReadConsistency::Local => true,
            ReadConsistency::From { .. } => false,
            _ => remote_replica_count == 0,
        }
    }

    /// The read timeout; none for local reads.
    pub fn timeout(&self) -> (r: Option<Duration>)
        ensures
            r == match *self {
                ReadConsistency::Local => None,
                ReadConsistency::From { timeout, .. } => Some(timeout),
                ReadConsistency::Majority { timeout, .. } => Some(timeout),
                ReadConsistency::MajorityPlus { timeout, .. } => Some(timeout),
                ReadConsistency::All { timeout } => Some(timeout),
            },
    {
        match self {
            ReadConsistency::Local => None,
            ReadConsistency::From { timeout, .. } => Some(*timeout),
            ReadConsistency::Majority { timeout, .. } => Some(*timeout),
            ReadConsistency::MajorityPlus { timeout, .. } => Some(*timeout),
            ReadConsistency::All { timeout } => Some(*timeout),
        }
    }
}

impl WriteConsistency {
    /// Local-only writes.
    pub fn local() -> (r: Self)
        ensures
            r == WriteConsistency::Local,
    {
        WriteConsistency::Local
    }

    /// Writes to exactly `replicas` replicas; fewer than two is rejected.
    pub fn to(replicas: usize, timeout: Duration) -> (r: Result<Self, ConsistencyError>)
        ensures
            replicas >= 2 ==> r == Ok::<Self, ConsistencyError>(
                WriteConsistency::To { replicas, timeout },
            ),
            replicas < 2 ==> r == Err::<Self, ConsistencyError>(
                ConsistencyError::ReplicaCountTooSmall { requested: replicas },
            ),
    {
        match ensure_multi_replica(replicas) {
            Ok(()) => Ok(WriteConsistency::To { replicas, timeout }),
            Err(e) => Err(e),
        }
    }

    /// Majority writes with the default minimum.
    pub fn majority(timeout: Duration) -> (r: Self)
        ensures
            r == (WriteConsistency::Majority { timeout, min_cap: DEFAULT_MAJORITY_MIN_CAP }),
    {
        WriteConsistency::Majority { timeout, min_cap: DEFAULT_MAJORITY_MIN_CAP }
    }

    /// Majority writes with a minimum replica count.
    pub fn majority_with_min_cap(timeout: Duration, min_cap: usize) -> (r: Self)
        ensures
            r == (WriteConsistency::Majority { timeout, min_cap }),
    {
        WriteConsistency::Majority { timeout, min_cap }
    }

    /// Majority-plus writes with the default minimum.
    pub fn majority_plus(timeout: Duration, additional: usize) -> (r: Self)
        ensures
            r == (WriteConsistency::MajorityPlus {
                timeout,
                additional,
                min_cap: DEFAULT_MAJORITY_MIN_CAP,
            }),
    {
        WriteConsistency::MajorityPlus { timeout, additional, min_cap: DEFAULT_MAJORITY_MIN_CAP }
    }

    /// Majority-plus writes with a minimum replica count.
    pub fn majority_plus_with_min_cap(timeout: Duration, additional: usize, min_cap: usize) -> (r:
        Self)
        ensures
            r == (WriteConsistency::MajorityPlus { timeout, additional, min_cap }),
    {
        WriteConsistency::MajorityPlus { timeout, additional, min_cap }
    }

    /// Writes to every replica.
    pub fn all(timeout: Duration) -> (r: Self)
        ensures
            r == (WriteConsistency::All { timeout }),
    {
        WriteConsistency::All { timeout }
    }

    /// Whether the write completes locally given the remote replica count.
    pub fn is_local(&self, remote_replica_count: usize) -> (r: bool)
        ensures
            r == (*self is Local || (remote_replica_count == 0 && (*self is Majority
                || *self is MajorityPlus || *self is All))),
    {
        match self {
            WriteConsistency::Local => true,
            WriteConsistency::To { .. } => false,
            _ => remote_replica_count == 0,
        }
    }

    /// The write timeout; none for local writes.
    pub fn timeout(&self) -> (r: Option<Duration>)
        ensures
            r == match *self {
                WriteConsistency::Local => None,
                WriteConsistency::To { timeout, .. } => Some(timeout),
                WriteConsistency::Majority { timeout, .. } => Some(timeout),
                WriteConsistency::MajorityPlus { timeout, .. } => Some(timeout),
                WriteConsistency::All { timeout } => Some(timeout),
            },
    {
        match self {
            WriteConsistency::Local => None,
            WriteConsistency::To { timeout, .. } => Some(*timeout),
            WriteConsistency::Majority { timeout, .. } => Some(*timeout),
            WriteConsistency::MajorityPlus { timeout, .. } => Some(*timeout),
            WriteConsistency::All { timeout } => Some(*timeout),
        }
    }
}

} // verus!
