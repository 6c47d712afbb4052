//! Error taxonomy and write outcomes of the store interface.
//!
//! The classes mirror the labels a replicated transactional store attaches
//! to failed operations: a transient conflict invalidates the transaction's
//! snapshot and the whole transaction must be redone; an ambiguous commit
//! result means the commit's durability outcome is unknown and only the
//! commit call may be re-issued; everything else is surfaced unchanged.
use vstd::prelude::*;

verus! {

/// Classified failure of a store operation.
#[derive(Clone, Copy, Debug, PartialEq, Eq, Structural)]
pub enum StoreError {
    /// The transaction's snapshot was invalidated by a concurrent writer;
    /// the entire transaction is safe to retry from scratch.
    TransientConflict,
    /// The commit's durability outcome is unknown (for example, a dropped
    /// acknowledgment); retrying the commit call alone is safe.
    AmbiguousCommitResult,
    /// A permanent store-side failure; never retried, surfaced unchanged.
    PermanentStoreError,
    /// Programmer error, such as beginning a transaction on a session whose
    /// transaction is still open, or committing without one.
    ProtocolMisuse,
}

/// Counts reported by a conditional update: how many records matched the
/// filter and how many were modified.
#[derive(Clone, Copy, Debug, PartialEq, Eq, Structural)]
pub struct UpdateOutcome {
    pub matched_count: u64,
    pub modified_count: u64,
}

impl UpdateOutcome {
    /// Outcome of a conditional update whose precondition held: one record
    /// matched, one record modified.
    pub open spec fn applied() -> UpdateOutcome {
        UpdateOutcome { matched_count: 1, modified_count: 1 }
    }

    /// Outcome of a conditional update that matched nothing: no record
    /// matched, no record modified, no side effects at all.
    pub open spec fn no_match() -> UpdateOutcome {
        UpdateOutcome { matched_count: 0, modified_count: 0 }
    }
}

/// Governs whether reads inside a transaction see only committed,
/// majority-acknowledged data.
#[derive(Clone, Copy, Debug, PartialEq, Eq, Structural)]
pub enum IsolationLevel {
    Snapshot,
    MajorityRead,
}

/// Governs how many replicas must acknowledge a write or commit before it
/// is considered durable.
#[derive(Clone, Copy, Debug, PartialEq, Eq, Structural)]
pub enum DurabilityLevel {
    Majority,
    Any,
}

/// Configuration a transaction is started with.
#[derive(Clone, Copy, Debug, PartialEq, Eq, Structural)]
pub struct TxOptions {
    pub isolation: IsolationLevel,
    pub durability: DurabilityLevel,
}

impl TxOptions {
    /// The configuration the retry driver starts every transaction with:
    /// majority reads and majority-acknowledged writes.
    pub fn majority() -> (r: TxOptions)
        ensures
            r == (TxOptions { isolation: IsolationLevel::MajorityRead, durability: DurabilityLevel::Majority }),
    {
        TxOptions { isolation: IsolationLevel::MajorityRead, durability: DurabilityLevel::Majority }
    }
}

} // verus!
