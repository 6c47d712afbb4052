//! The guarantees the coordinator rests on, proved once and for all over
//! the store model: isolation of staged writes, nullity of aborts,
//! atomicity of cross-record transactions, monotonicity of the optimistic
//! version counter, and idempotence of commit retries.
use vstd::prelude::*;
use crate::model::{
    abort_view, apply_op, apply_ops, book_after_ops, book_at, commit_view, committed_book,
    committed_user, committed_vbook, cond_update_data, cond_update_matches, data_wf, has_book,
    has_user, has_vbook, lemma_apply_ops_pair, lemma_lookup_book_update, lemma_lookup_user_update,
    lemma_lookup_vbook_update, lookup_book, lookup_user, lookup_vbook, session_book, session_user,
    session_vbook, stage, stage_all, store_wf, user_after_ops, user_at, valid_sid, vbook_at,
    vbook_after_ops, with_review, with_reviewed_book, OpView, SessionPhase, StoreView,
};
use crate::records::{ReviewView, VersionedBookView};

verus! {

/// Snapshot isolation: while a transaction's write is merely staged on one
/// session, no read through any other session — and no committed read —
/// reflects it.  The whole store, as every other session observes it, is
/// exactly as before the write.
pub proof fn lemma_snapshot_isolation(s: StoreView, sid1: int, op: OpView, sid2: int, id: Seq<char>)
    requires
        valid_sid(s, sid1),
        valid_sid(s, sid2),
        sid1 != sid2,
    ensures
        stage(s, sid1, op).committed == s.committed,
        committed_book(stage(s, sid1, op), id) == committed_book(s, id),
        committed_user(stage(s, sid1, op), id) == committed_user(s, id),
        committed_vbook(stage(s, sid1, op), id) == committed_vbook(s, id),
        session_book(stage(s, sid1, op), sid2, id) == session_book(s, sid2, id),
        session_user(stage(s, sid1, op), sid2, id) == session_user(s, sid2, id),
        session_vbook(stage(s, sid1, op), sid2, id) == session_vbook(s, sid2, id),
{
    assert(stage(s, sid1, op).sessions[sid2] == s.sessions[sid2]);
}

/// Staging writes never touches the committed collections nor any other
/// session, however many writes are staged.
pub proof fn lemma_stage_all_frame(s: StoreView, sid: int, ops: Seq<OpView>)
    requires
        valid_sid(s, sid),
    ensures
        stage_all(s, sid, ops).committed == s.committed,
        stage_all(s, sid, ops).sessions.len() == s.sessions.len(),
        forall|j: int| 0 <= j < s.sessions.len() && j != sid
            ==> #[trigger] stage_all(s, sid, ops).sessions[j] == s.sessions[j],
        stage_all(s, sid, ops).sessions[sid].phase == s.sessions[sid].phase,
    decreases ops.len(),
{
    if ops.len() > 0 {
        lemma_stage_all_frame(s, sid, ops.drop_last());
    }
}

/// Abort nullification: a transaction may stage any writes it likes; after
/// its abort the committed collections equal what they were before the
/// writes were staged, and every read — through any session, or committed —
/// is as if the writes had never happened.  Before the abort the same reads
/// were already unaffected, by [`lemma_stage_all_frame`].
pub proof fn lemma_abort_nullification(s: StoreView, sid: int, ops: Seq<OpView>, sid2: int, id: Seq<char>)
    requires
        valid_sid(s, sid),
        valid_sid(s, sid2),
        sid2 != sid,
        s.sessions[sid].phase == SessionPhase::InTransaction,
    ensures
        abort_view(stage_all(s, sid, ops), sid).committed == s.committed,
        committed_book(abort_view(stage_all(s, sid, ops), sid), id) == committed_book(s, id),
        committed_user(abort_view(stage_all(s, sid, ops), sid), id) == committed_user(s, id),
        committed_vbook(abort_view(stage_all(s, sid, ops), sid), id) == committed_vbook(s, id),
        session_book(abort_view(stage_all(s, sid, ops), sid), sid2, id) == session_book(s, sid2, id),
        session_user(abort_view(stage_all(s, sid, ops), sid), sid2, id) == session_user(s, sid2, id),
        session_vbook(abort_view(stage_all(s, sid, ops), sid), sid2, id) == session_vbook(s, sid2, id),
        // even the aborting session itself is back to reading committed data
        session_book(abort_view(stage_all(s, sid, ops), sid), sid, id) == committed_book(s, id),
        session_user(abort_view(stage_all(s, sid, ops), sid), sid, id) == committed_user(s, id),
        session_vbook(abort_view(stage_all(s, sid, ops), sid), sid, id) == committed_vbook(s, id),
{
    lemma_stage_all_frame(s, sid, ops);
    let staged = stage_all(s, sid, ops);
    let post = abort_view(staged, sid);
    assert(post.sessions[sid2] == s.sessions[sid2]);
    assert(post.sessions[sid].staged =~= Seq::<OpView>::empty());
    assert(book_after_ops(lookup_book(post.committed.books, id), id, post.sessions[sid].staged)
        == lookup_book(post.committed.books, id));
    assert(user_after_ops(lookup_user(post.committed.users, id), id, post.sessions[sid].staged)
        == lookup_user(post.committed.users, id));
    assert(vbook_after_ops(lookup_vbook(post.committed.vbooks, id), id, post.sessions[sid].staged)
        == lookup_vbook(post.committed.vbooks, id));
}

/// Atomic cross-record update: a transaction that stages the review-pair —
/// append a review to the book, append the book id to the user — commits
/// both effects in one step.  Beforehand a session without staged writes
/// observes neither update; after the commit the committed state holds
/// both.  No state in between exists.
pub proof fn lemma_atomic_cross_record(s: StoreView, sid: int, book_id: Seq<char>, user_id: Seq<char>, text: Seq<char>)
    requires
        valid_sid(s, sid),
        store_wf(s),
        s.sessions[sid].phase == SessionPhase::InTransaction,
        s.sessions[sid].staged == seq![
            (OpView::PushReview { book_id: book_id, review: (ReviewView { user_id: user_id, text: text }) }),
            (OpView::PushReviewedBookId { user_id: user_id, book_id: book_id }),
        ],
        has_book(s.committed.books, book_id),
        has_user(s.committed.users, user_id),
    ensures
        // before the commit: any session with nothing staged reads the
        // records exactly as committed, with neither update
        forall|sid2: int| valid_sid(s, sid2) && (#[trigger] s.sessions[sid2]).staged.len() == 0
            ==> session_book(s, sid2, book_id) == committed_book(s, book_id)
                && session_user(s, sid2, user_id) == committed_user(s, user_id),
        // after the commit: both updates, in one step
        ({
            let post = commit_view(s, sid);
            let b0 = lookup_book(s.committed.books, book_id);
            let u0 = lookup_user(s.committed.users, user_id);
            &&& committed_book(post, book_id)
                == Some(with_review(b0->Some_0, ReviewView { user_id: user_id, text: text }))
            &&& committed_user(post, user_id) == Some(with_reviewed_book(u0->Some_0, book_id))
        }),
{
    let op1 = OpView::PushReview { book_id: book_id, review: ReviewView { user_id: user_id, text: text } };
    let op2 = OpView::PushReviewedBookId { user_id: user_id, book_id: book_id };
    let c = s.committed;
    lemma_apply_ops_pair(c, op1, op2);
    let i = book_at(c.books, book_id);
    assert(0 <= i < c.books.len() && c.books[i].id == book_id);
    let b1 = with_review(c.books[i], ReviewView { user_id: user_id, text: text });
    lemma_lookup_book_update(c.books, i, b1);
    let c1 = apply_op(c, op1);
    assert(c1.users == c.users);
    let j = user_at(c1.users, user_id);
    assert(0 <= j < c1.users.len() && c1.users[j].id == user_id);
    let u1 = with_reviewed_book(c1.users[j], book_id);
    lemma_lookup_user_update(c1.users, j, u1);
    let c2 = apply_op(c1, op2);
    assert(c2.books == c1.books);
    assert(commit_view(s, sid).committed == apply_ops(c, s.sessions[sid].staged));
    assert(s.sessions[sid].staged =~= seq![op1, op2]);
    assert forall|sid2: int| valid_sid(s, sid2) && (#[trigger] s.sessions[sid2]).staged.len() == 0
        implies session_book(s, sid2, book_id) == committed_book(s, book_id)
            && session_user(s, sid2, user_id) == committed_user(s, user_id) by {
        assert(s.sessions[sid2].staged =~= Seq::<OpView>::empty());
    }
}

/// Optimistic lock monotonicity: a conditional update whose expected
/// version matches advances the stored version by exactly 1 and replaces
/// the name, touching no other record; one presenting a stale version has
/// no effect at all — the whole committed state is unchanged.
pub proof fn lemma_optimistic_lock_monotonic(d: crate::model::DataView, id: Seq<char>, expected: u64, name: Seq<char>)
    requires
        data_wf(d),
        expected < u64::MAX,
    ensures
        cond_update_matches(d.vbooks, id, expected) ==> ({
            let post = cond_update_data(d, id, expected, name);
            &&& lookup_vbook(d.vbooks, id) is Some
            &&& lookup_vbook(d.vbooks, id)->Some_0.version == expected
            &&& lookup_vbook(post.vbooks, id)
                == Some(VersionedBookView { id: id, name: name, version: (expected + 1) as u64 })
            &&& lookup_vbook(post.vbooks, id)->Some_0.version
                == lookup_vbook(d.vbooks, id)->Some_0.version + 1
            &&& forall|id2: Seq<char>| id2 != id
                ==> #[trigger] lookup_vbook(post.vbooks, id2) == lookup_vbook(d.vbooks, id2)
            &&& post.users == d.users
            &&& post.books == d.books
        }),
        !cond_update_matches(d.vbooks, id, expected)
            ==> cond_update_data(d, id, expected, name) == d,
{
    if cond_update_matches(d.vbooks, id, expected) {
        let i = vbook_at(d.vbooks, id);
        assert(0 <= i < d.vbooks.len() && d.vbooks[i].id == id);
        lemma_lookup_vbook_update(d.vbooks, i,
            VersionedBookView { id: id, name: name, version: (expected + 1) as u64 });
    }
}

/// Commit retry idempotence: committing is idempotent at the store level,
/// so re-issuing a commit whose first outcome was ambiguous never applies
/// the transaction's writes a second time — the state after two commits is
/// the state after one, and a commit on an already committed session
/// changes nothing.
pub proof fn lemma_commit_retry_idempotent(s: StoreView, sid: int)
    requires
        valid_sid(s, sid),
    ensures
        commit_view(commit_view(s, sid), sid) == commit_view(s, sid),
        s.sessions[sid].phase == SessionPhase::Committed ==> commit_view(s, sid) == s,
{
    if s.sessions[sid].phase == SessionPhase::InTransaction {
        assert(commit_view(s, sid).sessions[sid].phase == SessionPhase::Committed);
    }
}

/// Aborting is idempotent, and safe after a failed commit attempt: a second
/// abort — or one after the session already left its transaction — changes
/// nothing.
pub proof fn lemma_abort_idempotent(s: StoreView, sid: int)
    requires
        valid_sid(s, sid),
    ensures
        abort_view(abort_view(s, sid), sid) == abort_view(s, sid),
        abort_view(commit_view(s, sid), sid) == commit_view(s, sid),
{
}

} // verus!
