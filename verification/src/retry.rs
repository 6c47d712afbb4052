//! Retry policy and the decision functions of the two retry loops.
//!
//! The transaction retry driver is a loop around external store calls.  The
//! loop's decisions are pure functions of the classified outcome of each
//! call, so they live here with exact contracts; the code that performs the
//! store calls feeds the classified outcome in and performs the action the
//! decision names.  The driver fully absorbs transient conflicts and
//! ambiguous commit results; every other failure propagates unchanged.
use vstd::prelude::*;
use crate::outcome::StoreError;

verus! {

/// Delay between retries of a whole transaction.
#[derive(Clone, Copy, Debug, PartialEq, Eq, Structural)]
pub enum BackoffPolicy {
    NoDelay,
    FixedDelayMillis(u64),
}

/// Attempt-limit and backoff configuration of the transaction retry driver.
/// `max_retries` bounds how often a transiently failed transaction is
/// restarted; `None` means the driver never gives up on transient conflicts.
#[derive(Clone, Copy, Debug, PartialEq, Eq, Structural)]
pub struct RetryPolicy {
    pub max_retries: Option<u32>,
    pub backoff: BackoffPolicy,
}

pub open spec fn spec_allows_retry(policy: RetryPolicy, retries_done: u32) -> bool {
    match policy.max_retries {
        Option::None => true,
        Option::Some(n) => retries_done < n,
    }
}

pub open spec fn spec_delay_millis(policy: RetryPolicy) -> u64 {
    match policy.backoff {
        BackoffPolicy::NoDelay => 0,
        BackoffPolicy::FixedDelayMillis(d) => d,
    }
}

impl RetryPolicy {
    /// A policy that restarts transiently failed transactions forever,
    /// without delay: the behaviour of a hardwired retry loop.
    pub fn unbounded() -> (r: RetryPolicy)
        ensures
            r == (RetryPolicy { max_retries: Option::None, backoff: BackoffPolicy::NoDelay }),
    {
        RetryPolicy { max_retries: None, backoff: BackoffPolicy::NoDelay }
    }

    /// Whether the driver may restart the transaction once more after
    /// `retries_done` restarts have already happened.
    pub fn allows_retry(&self, retries_done: u32) -> (r: bool)
        ensures
            r == spec_allows_retry(*self, retries_done),
    {
        match self.max_retries {
            None => true,
            Some(n) => retries_done < n,
        }
    }

    /// How long to wait before the next restart.
    pub fn delay_millis(&self) -> (r: u64)
        ensures
            r == spec_delay_millis(*self),
    {
        match self.backoff {
            BackoffPolicy::NoDelay => 0,
            BackoffPolicy::FixedDelayMillis(d) => d,
        }
    }
}

/// What the driver does after running the caller-supplied unit of work.
#[derive(Clone, Copy, Debug, PartialEq, Eq, Structural)]
pub enum UnitDecision {
    /// The unit of work succeeded; move on to committing the transaction.
    ProceedToCommit,
    /// The snapshot was invalidated; restart the whole transaction.
    RestartTransaction,
    /// A non-retryable failure; abort and surface it to the caller.
    Propagate,
}

/// Decision after the unit of work: transient conflicts restart the whole
/// transaction, success proceeds to commit, everything else propagates.
pub fn decide_unit_outcome(r: &Result<(), StoreError>) -> (d: UnitDecision)
    ensures
        d == UnitDecision::ProceedToCommit <==> r is Ok,
        d == UnitDecision::RestartTransaction <==> r == Err::<(), StoreError>(StoreError::TransientConflict),
        d == UnitDecision::Propagate <==> (r is Err && r != Err::<(), StoreError>(StoreError::TransientConflict)),
{
    match r {
        Ok(_) => UnitDecision::ProceedToCommit,
        Err(StoreError::TransientConflict) => UnitDecision::RestartTransaction,
        Err(_) => UnitDecision::Propagate,
    }
}

/// What the driver does after a commit attempt.
#[derive(Clone, Copy, Debug, PartialEq, Eq, Structural)]
pub enum CommitDecision {
    /// The commit is durable; the transaction is done.
    Done,
    /// The commit's outcome is unknown; re-issue the commit call alone,
    /// never the transaction's writes.
    RetryCommit,
    /// The snapshot was invalidated at commit time; restart the whole
    /// transaction.
    RestartTransaction,
    /// A non-retryable failure; surface it to the caller.
    Propagate,
}

/// Decision after a commit attempt: an ambiguous commit result retries the
/// commit call only, a transient conflict restarts the whole transaction,
/// success ends the loop, everything else propagates.
pub fn decide_commit_outcome(r: &Result<(), StoreError>) -> (d: CommitDecision)
    ensures
        d == CommitDecision::Done <==> r is Ok,
        d == CommitDecision::RetryCommit <==> r == Err::<(), StoreError>(StoreError::AmbiguousCommitResult),
        d == CommitDecision::RestartTransaction <==> r == Err::<(), StoreError>(StoreError::TransientConflict),
        d == CommitDecision::Propagate <==> (r is Err && r != Err::<(), StoreError>(StoreError::AmbiguousCommitResult)
            && r != Err::<(), StoreError>(StoreError::TransientConflict)),
{
    match r {
        Ok(_) => CommitDecision::Done,
        Err(StoreError::AmbiguousCommitResult) => CommitDecision::RetryCommit,
        Err(StoreError::TransientConflict) => CommitDecision::RestartTransaction,
        Err(_) => CommitDecision::Propagate,
    }
}

} // verus!
