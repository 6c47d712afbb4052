use txcoord::outcome::{DurabilityLevel, IsolationLevel, StoreError, TxOptions};
use txcoord::retry::{
    decide_commit_outcome, decide_unit_outcome, BackoffPolicy, CommitDecision, RetryPolicy,
    UnitDecision,
};
use txcoord::s;

#[test]
fn s_copies_the_text() {
    assert_eq!(s("user_1"), String::from("user_1"));
    assert_eq!(s(""), String::new());
}

#[test]
fn majority_options() {
    let opts = TxOptions::majority();
    assert_eq!(opts.isolation, IsolationLevel::MajorityRead);
    assert_eq!(opts.durability, DurabilityLevel::Majority);
}

#[test]
fn unit_outcome_decisions() {
    assert_eq!(decide_unit_outcome(&Ok(())), UnitDecision::ProceedToCommit);
    assert_eq!(
        decide_unit_outcome(&Err(StoreError::TransientConflict)),
        UnitDecision::RestartTransaction
    );
    assert_eq!(
        decide_unit_outcome(&Err(StoreError::AmbiguousCommitResult)),
        UnitDecision::Propagate
    );
    assert_eq!(decide_unit_outcome(&Err(StoreError::PermanentStoreError)), UnitDecision::Propagate);
    assert_eq!(decide_unit_outcome(&Err(StoreError::ProtocolMisuse)), UnitDecision::Propagate);
}

#[test]
fn commit_outcome_decisions() {
    assert_eq!(decide_commit_outcome(&Ok(())), CommitDecision::Done);
    assert_eq!(
        decide_commit_outcome(&Err(StoreError::AmbiguousCommitResult)),
        CommitDecision::RetryCommit
    );
    assert_eq!(
        decide_commit_outcome(&Err(StoreError::TransientConflict)),
        CommitDecision::RestartTransaction
    );
    assert_eq!(
        decide_commit_outcome(&Err(StoreError::PermanentStoreError)),
        CommitDecision::Propagate
    );
    assert_eq!(decide_commit_outcome(&Err(StoreError::ProtocolMisuse)), CommitDecision::Propagate);
}

#[test]
fn unbounded_policy_always_allows_retry() {
    let policy = RetryPolicy::unbounded();
    assert!(policy.allows_retry(0));
    assert!(policy.allows_retry(1_000_000));
    assert_eq!(policy.delay_millis(), 0);
}

#[test]
fn bounded_policy_stops_at_the_limit() {
    let policy = RetryPolicy { max_retries: Some(2), backoff: BackoffPolicy::FixedDelayMillis(250) };
    assert!(policy.allows_retry(0));
    assert!(policy.allows_retry(1));
    assert!(!policy.allows_retry(2));
    assert!(!policy.allows_retry(3));
    assert_eq!(policy.delay_millis(), 250);
}
