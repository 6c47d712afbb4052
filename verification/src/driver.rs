//! The transaction retry driver, run against the modelled store.
//!
//! Two loops make the driver: the outer loop restarts the whole transaction
//! on a transient conflict, the inner loop re-issues the commit call — and
//! only the commit call — while its outcome is ambiguous.  The environment
//! is deterministic here, so both loops take their external events as
//! explicit schedules: `lost_acks[i]` says whether the acknowledgment of
//! the i-th commit attempt is dropped, and `attempts` bounds the restarts,
//! as a retry policy's attempt limit does.
use vstd::prelude::*;
use crate::model::{
    apply_op, apply_ops, begin_view, book_after_ops, commit_view, has_book, has_user,
    lemma_apply_ops_pair, lemma_locked_by_other_same, locked_by_other, lookup_book, lookup_user,
    session_book, session_user, stage, user_after_ops, Coll, KeyView, OpView, SessionPhase,
    SessionView,
};
use crate::outcome::{DurabilityLevel, IsolationLevel, StoreError, TxOptions};
use crate::records::ReviewView;
use crate::retry::{decide_commit_outcome, CommitDecision};
use crate::store::Store;

verus! {

/// Commit the session's transaction, re-issuing the commit call while its
/// outcome is ambiguous.  Whatever the pattern of lost acknowledgments, the
/// transaction's writes are applied exactly once, and the driver reports
/// success whenever there was a transaction to commit — also when an
/// earlier, ambiguously acknowledged attempt had already committed it.
pub fn commit_with_retry(store: &mut Store, sid: usize, lost_acks: &Vec<bool>) -> (r: Result<(), StoreError>)
    requires
        old(store).wf(),
        sid < old(store)@.sessions.len(),
    ensures
        final(store).wf(),
        final(store)@.sessions.len() == old(store)@.sessions.len(),
        final(store)@ == commit_view(old(store)@, sid as int),
        ({
            let phase = old(store)@.sessions[sid as int].phase;
            if phase == SessionPhase::InTransaction || phase == SessionPhase::Committed {
                r == Ok::<(), StoreError>(())
            } else {
                r == Err::<(), StoreError>(StoreError::ProtocolMisuse)
            }
        }),
{
    let n = lost_acks.len();
    for i in 0..n
        invariant
            n == lost_acks.len(),
            sid < store@.sessions.len(),
            store.wf(),
            store@.sessions.len() == old(store)@.sessions.len(),
            store@ == if i == 0 {
                old(store)@
            } else {
                commit_view(old(store)@, sid as int)
            },
            i > 0 ==> (old(store)@.sessions[sid as int].phase == SessionPhase::InTransaction
                || old(store)@.sessions[sid as int].phase == SessionPhase::Committed),
    {
        let ack = !lost_acks[i];
        let outcome = store.commit(sid, ack);
        match decide_commit_outcome(&outcome) {
            CommitDecision::Done => {
                return Ok(());
            },
            CommitDecision::RetryCommit => {},
            _ => {
                return outcome;
            },
        }
    }
    store.commit(sid, true)
}

/// One cross-record unit of work under the retry driver: append a review by
/// `user_id` to the book and the book's id to the user, in one transaction,
/// restarting the whole transaction on a transient conflict up to
/// `attempts` times.
///
/// When neither record is locked by another session's open transaction the
/// driver succeeds, and afterwards both updates are committed — never just
/// one of them.  When a lock makes the writes conflict, the driver gives up
/// after its attempts with `TransientConflict`, the committed collections
/// are untouched, and the session is left aborted.
#[verifier::loop_isolation(false)]
pub fn add_review_transaction(
    store: &mut Store,
    sid: usize,
    user_id: &String,
    book_id: &String,
    text: &String,
    attempts: u32,
    lost_acks: &Vec<bool>,
) -> (r: Result<(), StoreError>)
    requires
        old(store).wf(),
        sid < old(store)@.sessions.len(),
        attempts >= 1,
    ensures
        final(store).wf(),
        final(store)@.sessions.len() == old(store)@.sessions.len(),
        ({
            let pre = old(store)@;
            let bk = (KeyView { coll: Coll::Books, id: book_id@ });
            let uk = (KeyView { coll: Coll::Users, id: user_id@ });
            let op1 = (OpView::PushReview {
                book_id: book_id@,
                review: (ReviewView { user_id: user_id@, text: text@ }),
            });
            let op2 = (OpView::PushReviewedBookId { user_id: user_id@, book_id: book_id@ });
            let opts = (TxOptions {
                isolation: IsolationLevel::MajorityRead,
                durability: DurabilityLevel::Majority,
            });
            if pre.sessions[sid as int].phase == SessionPhase::InTransaction {
                r == Err::<(), StoreError>(StoreError::ProtocolMisuse) && final(store)@ == pre
            } else if !locked_by_other(pre, sid as int, bk) && !locked_by_other(pre, sid as int, uk) {
                &&& r == Ok::<(), StoreError>(())
                &&& final(store)@.committed == apply_ops(pre.committed, seq![op1, op2])
                &&& final(store)@.sessions == pre.sessions.update(
                    sid as int,
                    SessionView { phase: SessionPhase::Committed, opts: opts, staged: Seq::empty() },
                )
            } else {
                &&& r == Err::<(), StoreError>(StoreError::TransientConflict)
                &&& final(store)@.committed == pre.committed
                &&& final(store)@.sessions == pre.sessions.update(
                    sid as int,
                    SessionView { phase: SessionPhase::Aborted, opts: opts, staged: Seq::empty() },
                )
            }
        }),
{
    let ghost pre = old(store)@;
    let ghost sidi = sid as int;
    let ghost bk = KeyView { coll: Coll::Books, id: book_id@ };
    let ghost uk = KeyView { coll: Coll::Users, id: user_id@ };
    let ghost op1 = OpView::PushReview {
        book_id: book_id@,
        review: ReviewView { user_id: user_id@, text: text@ },
    };
    let ghost op2 = OpView::PushReviewedBookId { user_id: user_id@, book_id: book_id@ };
    let ghost opts = TxOptions {
        isolation: IsolationLevel::MajorityRead,
        durability: DurabilityLevel::Majority,
    };
    let ghost aborted_sessions = pre.sessions.update(
        sidi,
        SessionView { phase: SessionPhase::Aborted, opts: opts, staged: Seq::empty() },
    );
    if store.session_phase(sid) == SessionPhase::InTransaction {
        return Err(StoreError::ProtocolMisuse);
    }
    let mut tries_left = attempts;
    loop
        invariant
            store.wf(),
            pre == old(store)@,
            sidi == sid as int,
            store@.sessions.len() == pre.sessions.len(),
            sid < store@.sessions.len(),
            store@.committed == pre.committed,
            store@.sessions[sidi].phase != SessionPhase::InTransaction,
            forall|j: int| 0 <= j < pre.sessions.len() && j != sidi
                ==> #[trigger] store@.sessions[j] == pre.sessions[j],
            tries_left >= 1,
        decreases tries_left,
    {
        let ghost s0 = store@;
        let _begun = store.begin_transaction(sid, TxOptions::majority());
        let ghost s1 = store@;
        proof {
            assert(s1 == begin_view(s0, sidi, opts));
            lemma_locked_by_other_same(s1, pre, sidi, bk);
            lemma_locked_by_other_same(s1, pre, sidi, uk);
        }
        let r1 = store.push_review(sid, book_id, user_id, text);
        match r1 {
            Err(_) => {
                // The book is locked by another session's open transaction:
                // this attempt is over; discard it and maybe try again.
                store.abort(sid);
                if tries_left == 1 {
                    proof {
                        assert(store@.sessions =~~= aborted_sessions);
                    }
                    return Err(StoreError::TransientConflict);
                }
                tries_left = tries_left - 1;
            },
            Ok(_) => {
                let ghost s2 = store@;
                proof {
                    lemma_locked_by_other_same(s2, pre, sidi, uk);
                }
                let r2 = store.push_reviewed_book_id(sid, user_id, book_id);
                match r2 {
                    Err(_) => {
                        // The user is locked by another session's open
                        // transaction.
                        store.abort(sid);
                        if tries_left == 1 {
                            proof {
                                assert(store@.sessions =~~= aborted_sessions);
                            }
                            return Err(StoreError::TransientConflict);
                        }
                        tries_left = tries_left - 1;
                    },
                    Ok(_) => {
                        let ghost s3 = store@;
                        let ghost staged = s3.sessions[sidi].staged;
                        let rc = commit_with_retry(store, sid, lost_acks);
                        proof {
                            let c = pre.committed;
                            lemma_apply_ops_pair(c, op1, op2);
                            assert(s1.sessions[sidi].staged =~= Seq::<OpView>::empty());
                            let lb = lookup_book(c.books, book_id@);
                            assert(book_after_ops(lb, book_id@, s1.sessions[sidi].staged) == lb);
                            let lu = lookup_user(c.users, user_id@);
                            if session_book(s1, sidi, book_id@) is Some {
                                assert(s2 == stage(s1, sidi, op1));
                                assert(s2.sessions[sidi].staged =~= seq![op1]);
                                assert(user_after_ops(lu, user_id@, Seq::<OpView>::empty()) == lu);
                                assert(seq![op1].drop_last() =~= Seq::<OpView>::empty());
                                assert(user_after_ops(lu, user_id@, seq![op1]) == lu);
                                if session_user(s2, sidi, user_id@) is Some {
                                    assert(s3 == stage(s2, sidi, op2));
                                    assert(staged =~= seq![op1, op2]);
                                } else {
                                    assert(s3 == s2);
                                    assert(staged =~= seq![op1]);
                                    assert(lu is None);
                                    assert(!has_user(c.users, user_id@));
                                    assert(apply_op(c, op1).users == c.users);
                                    assert(apply_op(apply_op(c, op1), op2) == apply_op(c, op1));
                                }
                            } else {
                                assert(s2 == s1);
                                assert(lb is None);
                                assert(!has_book(c.books, book_id@));
                                assert(apply_op(c, op1) == c);
                                assert(user_after_ops(lu, user_id@, Seq::<OpView>::empty()) == lu);
                                if session_user(s2, sidi, user_id@) is Some {
                                    assert(s3 == stage(s2, sidi, op2));
                                    assert(staged =~= seq![op2]);
                                    lemma_apply_ops_pair(c, op2, op2);
                                    assert(apply_ops(c, staged) == apply_op(c, op2));
                                } else {
                                    assert(s3 == s2);
                                    assert(staged =~= Seq::<OpView>::empty());
                                    assert(lu is None);
                                    assert(!has_user(c.users, user_id@));
                                    assert(apply_op(apply_op(c, op1), op2) == c);
                                }
                            }
                            assert(store@.committed == apply_ops(c, staged));
                            assert(store@.committed == apply_ops(c, seq![op1, op2]));
                            assert(store@.sessions =~~= pre.sessions.update(
                                sidi,
                                SessionView {
                                    phase: SessionPhase::Committed,
                                    opts: opts,
                                    staged: Seq::empty(),
                                },
                            ));
                        }
                        return rc;
                    },
                }
            },
        }
    }
}

} // verus!
