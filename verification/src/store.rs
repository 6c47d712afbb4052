//! Executable model of the session-scoped store interface the coordinator
//! drives: collections of records, sessions, transactions with staged
//! writes, commit and abort, and the optimistic conditional update.
//!
//! Every method is specified against the transition functions of
//! [`crate::model`]; the conflict-resolution drivers and the race scenarios
//! are verified on top of these contracts.
use vstd::prelude::*;
use vstd::pervasive::VecAdditionalExecFns;
use crate::model::{
    abort_view, apply_op, apply_ops, begin_view, book_after_ops, book_at, book_ids_unique,
    book_matches_authors, book_step, commit_view, committed_book, committed_user,
    committed_vbook, cond_update_data, cond_update_matches, data_wf, first_book_matching,
    has_book, has_user, has_vbook, lemma_apply_op_wf,
    lemma_book_at_is, lemma_lookup_book_push, lemma_lookup_user_push, lemma_lookup_vbook_push,
    lemma_user_at_is, lemma_vbook_at_is, locked_by_other, lookup_book, lookup_user, lookup_vbook,
    op_key, session_book, session_locks_key, session_user, session_vbook, stage, store_wf,
    user_after_ops, user_at, user_ids_unique, user_step, vbook_after_ops, vbook_at,
    vbook_ids_unique, vbook_step, Coll, DataView, KeyView, OpView, SessionPhase, SessionView,
    StoreView,
};
use crate::outcome::{StoreError, TxOptions, UpdateOutcome};
use crate::records::{Book, BookView, Review, ReviewView, User, UserView, VersionedBook, VersionedBookView};

verus! {

/// One write staged inside an open transaction.
#[derive(Debug)]
pub enum WriteOp {
    PushReview { book_id: String, review: Review },
    PushReviewedBookId { user_id: String, book_id: String },
    SetUserName { user_id: String, name: String },
    InsertBook { book: Book },
    SetVersionedBook { book_id: String, name: String, new_version: u64 },
}

impl View for WriteOp {
    type V = OpView;

    open spec fn view(&self) -> OpView {
        match self {
            WriteOp::PushReview { book_id, review } => OpView::PushReview {
                book_id: book_id@,
                review: review@,
            },
            WriteOp::PushReviewedBookId { user_id, book_id } => OpView::PushReviewedBookId {
                user_id: user_id@,
                book_id: book_id@,
            },
            WriteOp::SetUserName { user_id, name } => OpView::SetUserName {
                user_id: user_id@,
                name: name@,
            },
            WriteOp::InsertBook { book } => OpView::InsertBook { book: book@ },
            WriteOp::SetVersionedBook { book_id, name, new_version } => OpView::SetVersionedBook {
                book_id: book_id@,
                name: name@,
                new_version: *new_version,
            },
        }
    }
}

impl DeepView for WriteOp {
    type V = OpView;

    open spec fn deep_view(&self) -> OpView {
        self.view()
    }
}

impl Clone for WriteOp {
    fn clone(&self) -> (r: Self)
        ensures
            r@ == self@,
    {
        match self {
            WriteOp::PushReview { book_id, review } => WriteOp::PushReview {
                book_id: book_id.clone(),
                review: review.clone(),
            },
            WriteOp::PushReviewedBookId { user_id, book_id } => WriteOp::PushReviewedBookId {
                user_id: user_id.clone(),
                book_id: book_id.clone(),
            },
            WriteOp::SetUserName { user_id, name } => WriteOp::SetUserName {
                user_id: user_id.clone(),
                name: name.clone(),
            },
            WriteOp::InsertBook { book } => WriteOp::InsertBook { book: book.clone() },
            WriteOp::SetVersionedBook { book_id, name, new_version } => WriteOp::SetVersionedBook {
                book_id: book_id.clone(),
                name: name.clone(),
                new_version: *new_version,
            },
        }
    }
}

/// One logical unit of work against the store.  A session observes its own
/// staged writes and otherwise only committed data.
#[derive(Debug)]
pub struct Session {
    phase: SessionPhase,
    opts: TxOptions,
    staged: Vec<WriteOp>,
}

impl View for Session {
    type V = SessionView;

    closed spec fn view(&self) -> SessionView {
        SessionView { phase: self.phase, opts: self.opts, staged: self.staged.deep_view() }
    }
}

impl DeepView for Session {
    type V = SessionView;

    open spec fn deep_view(&self) -> SessionView {
        self.view()
    }
}

impl Clone for Session {
    fn clone(&self) -> (r: Self)
        ensures
            r@ == self@,
    {
        let staged = self.staged.clone();
        proof {
            assert(staged.deep_view() =~= self.staged.deep_view());
        }
        Session { phase: self.phase, opts: self.opts, staged }
    }
}

/// The view of an optional record handed out by a read.
pub open spec fn user_opt_view(r: Option<User>) -> Option<UserView> {
    match r {
        Some(u) => Some(u@),
        None => None,
    }
}

pub open spec fn book_opt_view(r: Option<Book>) -> Option<BookView> {
    match r {
        Some(b) => Some(b@),
        None => None,
    }
}

pub open spec fn vbook_opt_view(r: Option<VersionedBook>) -> Option<VersionedBookView> {
    match r {
        Some(v) => Some(v@),
        None => None,
    }
}

/// The store: three committed collections and every session opened on it.
/// It stands for the replicated document store the coordinator drives; all
/// mutual exclusion the coordinator relies on is delegated to it.
#[derive(Debug)]
pub struct Store {
    users: Vec<User>,
    books: Vec<Book>,
    vbooks: Vec<VersionedBook>,
    sessions: Vec<Session>,
}

impl View for Store {
    type V = StoreView;

    closed spec fn view(&self) -> StoreView {
        StoreView {
            committed: DataView {
                users: self.users.deep_view(),
                books: self.books.deep_view(),
                vbooks: self.vbooks.deep_view(),
            },
            sessions: self.sessions.deep_view(),
        }
    }
}

// ---------------------------------------------------------------------------
// Private search helpers.
// ---------------------------------------------------------------------------

fn find_user_index(users: &Vec<User>, id: &String) -> (r: Option<usize>)
    ensures
        match r {
            Some(i) => i < users.len() && users.deep_view()[i as int].id == id@,
            None => !has_user(users.deep_view(), id@),
        },
{
    let n = users.len();
    for i in 0..n
        invariant
            n == users.len(),
            forall|j: int| 0 <= j < i ==> (#[trigger] users.deep_view()[j]).id != id@,
    {
        if users[i].id == *id {
            return Some(i);
        }
    }
    None
}

fn find_book_index(books: &Vec<Book>, id: &String) -> (r: Option<usize>)
    ensures
        match r {
            Some(i) => i < books.len() && books.deep_view()[i as int].id == id@,
            None => !has_book(books.deep_view(), id@),
        },
{
    let n = books.len();
    for i in 0..n
        invariant
            n == books.len(),
            forall|j: int| 0 <= j < i ==> (#[trigger] books.deep_view()[j]).id != id@,
    {
        if books[i].id == *id {
            return Some(i);
        }
    }
    None
}

fn find_vbook_index(vbooks: &Vec<VersionedBook>, id: &String) -> (r: Option<usize>)
    ensures
        match r {
            Some(i) => i < vbooks.len() && vbooks.deep_view()[i as int].id == id@,
            None => !has_vbook(vbooks.deep_view(), id@),
        },
{
    let n = vbooks.len();
    for i in 0..n
        invariant
            n == vbooks.len(),
            forall|j: int| 0 <= j < i ==> (#[trigger] vbooks.deep_view()[j]).id != id@,
    {
        if vbooks[i].id == *id {
            return Some(i);
        }
    }
    None
}

/// Whether this staged write targets the given record.
fn op_touches(op: &WriteOp, coll: Coll, id: &String) -> (r: bool)
    ensures
        r == (op_key(op@) == (KeyView { coll: coll, id: id@ })),
{
    match op {
        WriteOp::PushReview { book_id, .. } => coll == Coll::Books && *book_id == *id,
        WriteOp::PushReviewedBookId { user_id, .. } => coll == Coll::Users && *user_id == *id,
        WriteOp::SetUserName { user_id, .. } => coll == Coll::Users && *user_id == *id,
        WriteOp::InsertBook { book } => coll == Coll::Books && book.id == *id,
        WriteOp::SetVersionedBook { book_id, .. } => coll == Coll::VersionedBooks && *book_id == *id,
    }
}

/// Whether this session's open transaction holds the lock on the record.
fn session_locks(sess: &Session, coll: Coll, id: &String) -> (r: bool)
    ensures
        r == session_locks_key(sess@, KeyView { coll: coll, id: id@ }),
{
    if sess.phase != SessionPhase::InTransaction {
        return false;
    }
    let n = sess.staged.len();
    for i in 0..n
        invariant
            n == sess.staged.len(),
            sess.phase == SessionPhase::InTransaction,
            forall|j: int| 0 <= j < i ==> op_key(#[trigger] sess.staged.deep_view()[j])
                != (KeyView { coll: coll, id: id@ }),
    {
        if op_touches(&sess.staged[i], coll, id) {
            proof {
                assert(sess@.staged[i as int] == sess.staged.deep_view()[i as int]);
                assert(op_key(sess@.staged[i as int]) == (KeyView { coll: coll, id: id@ }));
            }
            return true;
        }
    }
    false
}

impl Store {
    /// Committed ids are unique within each collection and staged writes
    /// exist only inside open transactions.
    pub open spec fn wf(&self) -> bool {
        store_wf(self@)
    }

    /// An empty store: no records, no sessions.
    pub fn new() -> (s: Store)
        ensures
            s.wf(),
            s@.committed.users == Seq::<UserView>::empty(),
            s@.committed.books == Seq::<BookView>::empty(),
            s@.committed.vbooks == Seq::<VersionedBookView>::empty(),
            s@.sessions == Seq::<SessionView>::empty(),
    {
        let s = Store { users: Vec::new(), books: Vec::new(), vbooks: Vec::new(), sessions: Vec::new() };
        proof {
            assert(s@.committed.users =~= Seq::<UserView>::empty());
            assert(s@.committed.books =~= Seq::<BookView>::empty());
            assert(s@.committed.vbooks =~= Seq::<VersionedBookView>::empty());
            assert(s@.sessions =~= Seq::<SessionView>::empty());
        }
        s
    }

    /// The session's current transaction phase.
    pub fn session_phase(&self, sid: usize) -> (r: SessionPhase)
        requires
            sid < self@.sessions.len(),
        ensures
            r == self@.sessions[sid as int].phase,
    {
        self.sessions[sid].phase
    }

    /// Whether a session other than `sid` has a staged write to the record:
    /// writing it now would race an open transaction.
    fn is_locked_by_other(&self, sid: usize, coll: Coll, id: &String) -> (r: bool)
        ensures
            r == locked_by_other(self@, sid as int, KeyView { coll: coll, id: id@ }),
    {
        let n = self.sessions.len();
        for j in 0..n
            invariant
                n == self.sessions.len(),
                forall|k: int| 0 <= k < j && k != sid ==> !session_locks_key(
                    #[trigger] self.sessions.deep_view()[k],
                    KeyView { coll: coll, id: id@ },
                ),
        {
            if j != sid {
                if session_locks(&self.sessions[j], coll, id) {
                    proof {
                        assert(self@.sessions[j as int] == self.sessions.deep_view()[j as int]);
                        assert(session_locks_key(self@.sessions[j as int],
                            KeyView { coll: coll, id: id@ }));
                    }
                    return true;
                }
            }
        }
        false
    }

    /// Allocate a new logical unit-of-work handle.  Independent sessions
    /// observe mutually isolated state until commit.
    pub fn open_session(&mut self) -> (sid: usize)
        requires
            old(self).wf(),
        ensures
            final(self).wf(),
            sid == old(self)@.sessions.len(),
            final(self)@.committed == old(self)@.committed,
            final(self)@.sessions == old(self)@.sessions.push(
                SessionView {
                    phase: SessionPhase::Idle,
                    opts: (TxOptions {
                        isolation: crate::outcome::IsolationLevel::MajorityRead,
                        durability: crate::outcome::DurabilityLevel::Majority,
                    }),
                    staged: Seq::empty(),
                },
            ),
    {
        let sid = self.sessions.len();
        self.sessions.push(Session {
            phase: SessionPhase::Idle,
            opts: TxOptions::majority(),
            staged: Vec::new(),
        });
        proof {
            assert(self@.sessions =~~= old(self)@.sessions.push(
                SessionView {
                    phase: SessionPhase::Idle,
                    opts: (TxOptions {
                        isolation: crate::outcome::IsolationLevel::MajorityRead,
                        durability: crate::outcome::DurabilityLevel::Majority,
                    }),
                    staged: Seq::empty(),
                },
            ));
        }
        sid
    }

    /// Start a transaction on the session with the given isolation and
    /// durability configuration.  Fails with `ProtocolMisuse` if and only
    /// if a transaction is already open on this session.
    pub fn begin_transaction(&mut self, sid: usize, opts: TxOptions) -> (r: Result<(), StoreError>)
        requires
            old(self).wf(),
            sid < old(self)@.sessions.len(),
        ensures
            final(self).wf(),
            final(self)@.sessions.len() == old(self)@.sessions.len(),
            if old(self)@.sessions[sid as int].phase == SessionPhase::InTransaction {
                r == Err::<(), StoreError>(StoreError::ProtocolMisuse) && final(self)@ == old(self)@
            } else {
                r == Ok::<(), StoreError>(()) && final(self)@ == begin_view(old(self)@, sid as int, opts)
            },
    {
        if self.sessions[sid].phase == SessionPhase::InTransaction {
            return Err(StoreError::ProtocolMisuse);
        }
        self.sessions.set(sid, Session { phase: SessionPhase::InTransaction, opts, staged: Vec::new() });
        proof {
            assert(self@ =~~= begin_view(old(self)@, sid as int, opts));
        }
        Ok(())
    }

    /// Discard the session's staged writes.  No session ever observes any
    /// effect of them, before or after the abort.  Idempotent, and safe to
    /// call after a failed commit attempt: without an open transaction this
    /// does nothing.
    pub fn abort(&mut self, sid: usize)
        requires
            old(self).wf(),
            sid < old(self)@.sessions.len(),
        ensures
            final(self).wf(),
            final(self)@ == abort_view(old(self)@, sid as int),
    {
        if self.sessions[sid].phase == SessionPhase::InTransaction {
            let opts = self.sessions[sid].opts;
            self.sessions.set(sid, Session { phase: SessionPhase::Aborted, opts, staged: Vec::new() });
            proof {
                assert(self@ =~~= abort_view(old(self)@, sid as int));
            }
        } else {
            proof {
                assert(self@ =~~= abort_view(old(self)@, sid as int));
            }
        }
    }

    /// Apply one staged write to the committed collections.
    fn apply_one(&mut self, op: &WriteOp)
        requires
            data_wf(old(self)@.committed),
        ensures
            data_wf(final(self)@.committed),
            final(self)@.committed == apply_op(old(self)@.committed, op@),
            final(self)@.sessions == old(self)@.sessions,
    {
        proof {
            lemma_apply_op_wf(old(self)@.committed, op@);
        }
        match op {
            WriteOp::PushReview { book_id, review } => {
                match find_book_index(&self.books, book_id) {
                    Some(i) => {
                        let mut b = self.books[i].clone();
                        b.reviews.push(review.clone());
                        proof {
                            lemma_book_at_is(old(self)@.committed.books, book_id@, i as int);
                            assert(b@.reviews =~= old(self)@.committed.books[i as int].reviews.push(review@));
                        }
                        self.books.set(i, b);
                        proof {
                            assert(self@.committed =~~= apply_op(old(self)@.committed, op@));
                        }
                    },
                    None => {
                        proof {
                            assert(self@.committed =~~= apply_op(old(self)@.committed, op@));
                        }
                    },
                }
            },
            WriteOp::PushReviewedBookId { user_id, book_id } => {
                match find_user_index(&self.users, user_id) {
                    Some(i) => {
                        let mut u = self.users[i].clone();
                        u.reviewed_book_ids.push(book_id.clone());
                        proof {
                            lemma_user_at_is(old(self)@.committed.users, user_id@, i as int);
                            assert(u@.reviewed_book_ids =~= old(self)@.committed.users[i as int]
                                .reviewed_book_ids.push(book_id@));
                        }
                        self.users.set(i, u);
                        proof {
                            assert(self@.committed =~~= apply_op(old(self)@.committed, op@));
                        }
                    },
                    None => {
                        proof {
                            assert(self@.committed =~~= apply_op(old(self)@.committed, op@));
                        }
                    },
                }
            },
            WriteOp::SetUserName { user_id, name } => {
                match find_user_index(&self.users, user_id) {
                    Some(i) => {
                        let mut u = self.users[i].clone();
                        u.name = name.clone();
                        proof {
                            lemma_user_at_is(old(self)@.committed.users, user_id@, i as int);
                        }
                        self.users.set(i, u);
                        proof {
                            assert(self@.committed =~~= apply_op(old(self)@.committed, op@));
                        }
                    },
                    None => {
                        proof {
                            assert(self@.committed =~~= apply_op(old(self)@.committed, op@));
                        }
                    },
                }
            },
            WriteOp::InsertBook { book } => {
                match find_book_index(&self.books, &book.id) {
                    Some(_) => {
                        proof {
                            assert(has_book(old(self)@.committed.books, book@.id));
                            assert(self@.committed =~~= apply_op(old(self)@.committed, op@));
                        }
                    },
                    None => {
                        self.books.push(book.clone());
                        proof {
                            assert(self@.committed =~~= apply_op(old(self)@.committed, op@));
                        }
                    },
                }
            },
            WriteOp::SetVersionedBook { book_id, name, new_version } => {
                match find_vbook_index(&self.vbooks, book_id) {
                    Some(i) => {
                        let nb = VersionedBook {
                            id: book_id.clone(),
                            name: name.clone(),
                            version: *new_version,
                        };
                        proof {
                            lemma_vbook_at_is(old(self)@.committed.vbooks, book_id@, i as int);
                        }
                        self.vbooks.set(i, nb);
                        proof {
                            assert(self@.committed =~~= apply_op(old(self)@.committed, op@));
                        }
                    },
                    None => {
                        proof {
                            assert(self@.committed =~~= apply_op(old(self)@.committed, op@));
                        }
                    },
                }
            },
        }
    }

    /// Finalize the session's transaction: every staged write becomes
    /// visible to every session in one atomic step.  `ack_delivered` models
    /// whether the store's acknowledgment reaches the caller: when it is
    /// lost the writes are still applied exactly once and the caller sees
    /// `AmbiguousCommitResult`.  Committing again after that is safe: on an
    /// already committed session this call applies nothing a second time.
    /// Without a transaction to commit (never begun, or aborted) it fails
    /// with `ProtocolMisuse`.
    pub fn commit(&mut self, sid: usize, ack_delivered: bool) -> (r: Result<(), StoreError>)
        requires
            old(self).wf(),
            sid < old(self)@.sessions.len(),
        ensures
            final(self).wf(),
            final(self)@.sessions.len() == old(self)@.sessions.len(),
            final(self)@ == commit_view(old(self)@, sid as int),
            ({
                let phase = old(self)@.sessions[sid as int].phase;
                if phase == SessionPhase::InTransaction || phase == SessionPhase::Committed {
                    r == if ack_delivered {
                        Ok::<(), StoreError>(())
                    } else {
                        Err::<(), StoreError>(StoreError::AmbiguousCommitResult)
                    }
                } else {
                    r == Err::<(), StoreError>(StoreError::ProtocolMisuse)
                }
            }),
    {
        match self.sessions[sid].phase {
            SessionPhase::Idle | SessionPhase::Aborted => {
                proof {
                    assert(self@ =~~= commit_view(old(self)@, sid as int));
                }
                Err(StoreError::ProtocolMisuse)
            },
            SessionPhase::Committed => {
                proof {
                    assert(self@ =~~= commit_view(old(self)@, sid as int));
                }
                if ack_delivered {
                    Ok(())
                } else {
                    Err(StoreError::AmbiguousCommitResult)
                }
            },
            SessionPhase::InTransaction => {
                let staged = self.sessions[sid].staged.clone();
                let opts = self.sessions[sid].opts;
                proof {
                    assert(staged.deep_view() =~= old(self)@.sessions[sid as int].staged);
                }
                self.sessions.set(sid, Session {
                    phase: SessionPhase::Committed,
                    opts,
                    staged: Vec::new(),
                });
                let ghost target_sessions = old(self)@.sessions.update(
                    sid as int,
                    SessionView {
                        phase: SessionPhase::Committed,
                        opts: old(self)@.sessions[sid as int].opts,
                        staged: Seq::empty(),
                    },
                );
                proof {
                    assert(self@.sessions =~~= target_sessions);
                }
                let ghost pre = old(self)@.committed;
                let ghost ops = staged.deep_view();
                let n = staged.len();
                for i in 0..n
                    invariant
                        n == staged.len(),
                        ops == staged.deep_view(),
                        data_wf(self@.committed),
                        self@.committed == apply_ops(pre, ops.take(i as int)),
                        self@.sessions == target_sessions,
                {
                    self.apply_one(&staged[i]);
                    proof {
                        assert(ops.take(i + 1).drop_last() =~= ops.take(i as int));
                        assert(ops.take(i + 1).last() == ops[i as int]);
                    }
                }
                proof {
                    assert(ops.take(n as int) =~= ops);
                    assert(self@ =~~= commit_view(old(self)@, sid as int));
                }
                if ack_delivered {
                    Ok(())
                } else {
                    Err(StoreError::AmbiguousCommitResult)
                }
            },
        }
    }

    /// Stage one write on the session's open transaction.
    fn stage_op(&mut self, sid: usize, op: WriteOp)
        requires
            old(self).wf(),
            sid < old(self)@.sessions.len(),
            old(self)@.sessions[sid as int].phase == SessionPhase::InTransaction,
        ensures
            final(self).wf(),
            final(self)@ == stage(old(self)@, sid as int, op@),
    {
        let mut sess = self.sessions[sid].clone();
        sess.staged.push(op);
        self.sessions.set(sid, sess);
        proof {
            assert(self@ =~~= stage(old(self)@, sid as int, op@));
        }
    }

    /// Stage appending a review to a book inside the session's open
    /// transaction.  Reports how many records matched the book id under the
    /// session's view; a write racing another session's open transaction on
    /// the same book fails with `TransientConflict`, and a write without an
    /// open transaction with `ProtocolMisuse`.  Nothing becomes visible to
    /// any other session before commit.
    pub fn push_review(&mut self, sid: usize, book_id: &String, reviewer_id: &String, text: &String)
        -> (r: Result<UpdateOutcome, StoreError>)
        requires
            old(self).wf(),
            sid < old(self)@.sessions.len(),
        ensures
            final(self).wf(),
            final(self)@.sessions.len() == old(self)@.sessions.len(),
            ({
                let pre = old(self)@;
                let op = (OpView::PushReview {
                    book_id: book_id@,
                    review: (ReviewView { user_id: reviewer_id@, text: text@ }),
                });
                if pre.sessions[sid as int].phase != SessionPhase::InTransaction {
                    r == Err::<UpdateOutcome, StoreError>(StoreError::ProtocolMisuse)
                        && final(self)@ == pre
                } else if locked_by_other(pre, sid as int, op_key(op)) {
                    r == Err::<UpdateOutcome, StoreError>(StoreError::TransientConflict)
                        && final(self)@ == pre
                } else if session_book(pre, sid as int, book_id@) is Some {
                    r == Ok::<UpdateOutcome, StoreError>(UpdateOutcome::applied())
                        && final(self)@ == stage(pre, sid as int, op)
                } else {
                    r == Ok::<UpdateOutcome, StoreError>(UpdateOutcome::no_match())
                        && final(self)@ == pre
                }
            }),
    {
        if self.sessions[sid].phase != SessionPhase::InTransaction {
            return Err(StoreError::ProtocolMisuse);
        }
        if self.is_locked_by_other(sid, Coll::Books, book_id) {
            return Err(StoreError::TransientConflict);
        }
        let cur = self.find_book_in_session(sid, book_id);
        if cur.is_some() {
            let op = WriteOp::PushReview {
                book_id: book_id.clone(),
                review: Review { user_id: reviewer_id.clone(), text: text.clone() },
            };
            self.stage_op(sid, op);
            Ok(UpdateOutcome { matched_count: 1, modified_count: 1 })
        } else {
            Ok(UpdateOutcome { matched_count: 0, modified_count: 0 })
        }
    }

    /// Stage appending a book id to a user's reviewed-book list inside the
    /// session's open transaction.  Same conflict and protocol behaviour as
    /// [`Store::push_review`].
    pub fn push_reviewed_book_id(&mut self, sid: usize, user_id: &String, book_id: &String)
        -> (r: Result<UpdateOutcome, StoreError>)
        requires
            old(self).wf(),
            sid < old(self)@.sessions.len(),
        ensures
            final(self).wf(),
            final(self)@.sessions.len() == old(self)@.sessions.len(),
            ({
                let pre = old(self)@;
                let op = (OpView::PushReviewedBookId { user_id: user_id@, book_id: book_id@ });
                if pre.sessions[sid as int].phase != SessionPhase::InTransaction {
                    r == Err::<UpdateOutcome, StoreError>(StoreError::ProtocolMisuse)
                        && final(self)@ == pre
                } else if locked_by_other(pre, sid as int, op_key(op)) {
                    r == Err::<UpdateOutcome, StoreError>(StoreError::TransientConflict)
                        && final(self)@ == pre
                } else if session_user(pre, sid as int, user_id@) is Some {
                    r == Ok::<UpdateOutcome, StoreError>(UpdateOutcome::applied())
                        && final(self)@ == stage(pre, sid as int, op)
                } else {
                    r == Ok::<UpdateOutcome, StoreError>(UpdateOutcome::no_match())
                        && final(self)@ == pre
                }
            }),
    {
        if self.sessions[sid].phase != SessionPhase::InTransaction {
            return Err(StoreError::ProtocolMisuse);
        }
        if self.is_locked_by_other(sid, Coll::Users, user_id) {
            return Err(StoreError::TransientConflict);
        }
        let cur = self.find_user_in_session(sid, user_id);
        if cur.is_some() {
            let op = WriteOp::PushReviewedBookId {
                user_id: user_id.clone(),
                book_id: book_id.clone(),
            };
            self.stage_op(sid, op);
            Ok(UpdateOutcome { matched_count: 1, modified_count: 1 })
        } else {
            Ok(UpdateOutcome { matched_count: 0, modified_count: 0 })
        }
    }

    /// Stage overwriting a user's name inside the session's open
    /// transaction.  Same conflict and protocol behaviour as
    /// [`Store::push_review`].
    pub fn set_user_name(&mut self, sid: usize, user_id: &String, name: &String)
        -> (r: Result<UpdateOutcome, StoreError>)
        requires
            old(self).wf(),
            sid < old(self)@.sessions.len(),
        ensures
            final(self).wf(),
            final(self)@.sessions.len() == old(self)@.sessions.len(),
            ({
                let pre = old(self)@;
                let op = (OpView::SetUserName { user_id: user_id@, name: name@ });
                if pre.sessions[sid as int].phase != SessionPhase::InTransaction {
                    r == Err::<UpdateOutcome, StoreError>(StoreError::ProtocolMisuse)
                        && final(self)@ == pre
                } else if locked_by_other(pre, sid as int, op_key(op)) {
                    r == Err::<UpdateOutcome, StoreError>(StoreError::TransientConflict)
                        && final(self)@ == pre
                } else if session_user(pre, sid as int, user_id@) is Some {
                    r == Ok::<UpdateOutcome, StoreError>(UpdateOutcome::applied())
                        && final(self)@ == stage(pre, sid as int, op)
                } else {
                    r == Ok::<UpdateOutcome, StoreError>(UpdateOutcome::no_match())
                        && final(self)@ == pre
                }
            }),
    {
        if self.sessions[sid].phase != SessionPhase::InTransaction {
            return Err(StoreError::ProtocolMisuse);
        }
        if self.is_locked_by_other(sid, Coll::Users, user_id) {
            return Err(StoreError::TransientConflict);
        }
        let cur = self.find_user_in_session(sid, user_id);
        if cur.is_some() {
            let op = WriteOp::SetUserName { user_id: user_id.clone(), name: name.clone() };
            self.stage_op(sid, op);
            Ok(UpdateOutcome { matched_count: 1, modified_count: 1 })
        } else {
            Ok(UpdateOutcome { matched_count: 0, modified_count: 0 })
        }
    }

    /// Stage inserting a new book inside the session's open transaction.
    /// An id already visible to the session is a permanent error: ids are
    /// unique within a collection.
    pub fn insert_book_in_session(&mut self, sid: usize, book: Book) -> (r: Result<(), StoreError>)
        requires
            old(self).wf(),
            sid < old(self)@.sessions.len(),
        ensures
            final(self).wf(),
            final(self)@.sessions.len() == old(self)@.sessions.len(),
            ({
                let pre = old(self)@;
                let op = (OpView::InsertBook { book: book@ });
                if pre.sessions[sid as int].phase != SessionPhase::InTransaction {
                    r == Err::<(), StoreError>(StoreError::ProtocolMisuse) && final(self)@ == pre
                } else if locked_by_other(pre, sid as int, op_key(op)) {
                    r == Err::<(), StoreError>(StoreError::TransientConflict) && final(self)@ == pre
                } else if session_book(pre, sid as int, book@.id) is Some {
                    r == Err::<(), StoreError>(StoreError::PermanentStoreError) && final(self)@ == pre
                } else {
                    r == Ok::<(), StoreError>(()) && final(self)@ == stage(pre, sid as int, op)
                }
            }),
    {
        if self.sessions[sid].phase != SessionPhase::InTransaction {
            return Err(StoreError::ProtocolMisuse);
        }
        if self.is_locked_by_other(sid, Coll::Books, &book.id) {
            return Err(StoreError::TransientConflict);
        }
        let cur = self.find_book_in_session(sid, &book.id);
        if cur.is_some() {
            return Err(StoreError::PermanentStoreError);
        }
        self.stage_op(sid, WriteOp::InsertBook { book });
        Ok(())
    }

    /// The optimistic conditional update: atomically match the book on
    /// `id == book_id && version == expected_version` and, on a match, set
    /// the name and advance the version by exactly 1.  A lost race is not
    /// an error: it reports zero matched and zero modified records, with
    /// the stored record unchanged, and the caller owns the retry decision.
    /// Inside an open transaction the check runs against the session's view
    /// and the update is staged; without one the update is immediate.  A
    /// book locked by another session's open transaction fails with
    /// `TransientConflict`, as a store converting a blocked or timed-out
    /// write into a retryable error reports it.
    pub fn conditional_update(&mut self, sid: usize, book_id: &String, expected_version: u64, new_name: &String)
        -> (r: Result<UpdateOutcome, StoreError>)
        requires
            old(self).wf(),
            sid < old(self)@.sessions.len(),
            expected_version < u64::MAX,
        ensures
            final(self).wf(),
            final(self)@.sessions.len() == old(self)@.sessions.len(),
            ({
                let pre = old(self)@;
                let k = (KeyView { coll: Coll::VersionedBooks, id: book_id@ });
                if locked_by_other(pre, sid as int, k) {
                    r == Err::<UpdateOutcome, StoreError>(StoreError::TransientConflict)
                        && final(self)@ == pre
                } else if pre.sessions[sid as int].phase == SessionPhase::InTransaction {
                    match session_vbook(pre, sid as int, book_id@) {
                        Some(v) => if v.version == expected_version {
                            r == Ok::<UpdateOutcome, StoreError>(UpdateOutcome::applied())
                                && final(self)@ == stage(pre, sid as int, (OpView::SetVersionedBook {
                                    book_id: book_id@,
                                    name: new_name@,
                                    new_version: (expected_version + 1) as u64,
                                }))
                        } else {
                            r == Ok::<UpdateOutcome, StoreError>(UpdateOutcome::no_match())
                                && final(self)@ == pre
                        },
                        None => r == Ok::<UpdateOutcome, StoreError>(UpdateOutcome::no_match())
                            && final(self)@ == pre,
                    }
                } else {
                    &&& final(self)@.committed == cond_update_data(pre.committed, book_id@, expected_version, new_name@)
                    &&& final(self)@.sessions == pre.sessions
                    &&& r == Ok::<UpdateOutcome, StoreError>(
                        if cond_update_matches(pre.committed.vbooks, book_id@, expected_version) {
                            UpdateOutcome::applied()
                        } else {
                            UpdateOutcome::no_match()
                        })
                }
            }),
    {
        if self.is_locked_by_other(sid, Coll::VersionedBooks, book_id) {
            return Err(StoreError::TransientConflict);
        }
        if self.sessions[sid].phase == SessionPhase::InTransaction {
            let cur = self.find_versioned_book_in_session(sid, book_id);
            match cur {
                Some(v) => {
                    if v.version == expected_version {
                        let op = WriteOp::SetVersionedBook {
                            book_id: book_id.clone(),
                            name: new_name.clone(),
                            new_version: expected_version + 1,
                        };
                        self.stage_op(sid, op);
                        Ok(UpdateOutcome { matched_count: 1, modified_count: 1 })
                    } else {
                        Ok(UpdateOutcome { matched_count: 0, modified_count: 0 })
                    }
                },
                None => Ok(UpdateOutcome { matched_count: 0, modified_count: 0 }),
            }
        } else {
            match find_vbook_index(&self.vbooks, book_id) {
                Some(i) => {
                    proof {
                        lemma_vbook_at_is(self@.committed.vbooks, book_id@, i as int);
                    }
                    if self.vbooks[i].version == expected_version {
                        let nb = VersionedBook {
                            id: book_id.clone(),
                            name: new_name.clone(),
                            version: expected_version + 1,
                        };
                        proof {
                            crate::model::lemma_lookup_vbook_update(
                                self@.committed.vbooks, i as int, nb@);
                        }
                        self.vbooks.set(i, nb);
                        proof {
                            assert(self@.committed =~~= cond_update_data(
                                old(self)@.committed, book_id@, expected_version, new_name@));
                        }
                        Ok(UpdateOutcome { matched_count: 1, modified_count: 1 })
                    } else {
                        Ok(UpdateOutcome { matched_count: 0, modified_count: 0 })
                    }
                },
                None => Ok(UpdateOutcome { matched_count: 0, modified_count: 0 }),
            }
        }
    }

    /// Read the committed user record: what any session without staged
    /// writes to it observes.  Hands out a fresh copy; the store keeps the
    /// persisted one.
    pub fn find_user(&self, id: &String) -> (r: Option<User>)
        requires
            self.wf(),
        ensures
            user_opt_view(r) == committed_user(self@, id@),
    {
        match find_user_index(&self.users, id) {
            Some(i) => {
                proof {
                    lemma_user_at_is(self@.committed.users, id@, i as int);
                }
                Some(self.users[i].clone())
            },
            None => None,
        }
    }

    /// Read the committed book record; see [`Store::find_user`].
    pub fn find_book(&self, id: &String) -> (r: Option<Book>)
        requires
            self.wf(),
        ensures
            book_opt_view(r) == committed_book(self@, id@),
    {
        match find_book_index(&self.books, id) {
            Some(i) => {
                proof {
                    lemma_book_at_is(self@.committed.books, id@, i as int);
                }
                Some(self.books[i].clone())
            },
            None => None,
        }
    }

    /// Read the committed versioned book record; see [`Store::find_user`].
    pub fn find_versioned_book(&self, id: &String) -> (r: Option<VersionedBook>)
        requires
            self.wf(),
        ensures
            vbook_opt_view(r) == committed_vbook(self@, id@),
    {
        match find_vbook_index(&self.vbooks, id) {
            Some(i) => {
                proof {
                    lemma_vbook_at_is(self@.committed.vbooks, id@, i as int);
                }
                Some(self.vbooks[i].clone())
            },
            None => None,
        }
    }

    /// Read a user through the session: the committed record with the
    /// session's own staged writes folded on top.
    pub fn find_user_in_session(&self, sid: usize, id: &String) -> (r: Option<User>)
        requires
            self.wf(),
            sid < self@.sessions.len(),
        ensures
            user_opt_view(r) == session_user(self@, sid as int, id@),
    {
        let mut cur = self.find_user(id);
        let sess = &self.sessions[sid];
        proof {
            assert(self@.sessions[sid as int] == sess@);
        }
        let n = sess.staged.len();
        for i in 0..n
            invariant
                n == sess.staged.len(),
                self@.sessions[sid as int] == sess@,
                user_opt_view(cur) == user_after_ops(
                    lookup_user(self@.committed.users, id@), id@, sess@.staged.take(i as int)),
        {
            cur = apply_user_step(cur, id, &sess.staged[i]);
            proof {
                assert(sess@.staged[i as int] == sess.staged.deep_view()[i as int]);
                assert(sess@.staged.take(i + 1).drop_last() =~= sess@.staged.take(i as int));
                assert(sess@.staged.take(i + 1).last() == sess@.staged[i as int]);
            }
        }
        proof {
            assert(sess@.staged.take(n as int) =~= sess@.staged);
        }
        cur
    }

    /// Read a book through the session; see [`Store::find_user_in_session`].
    pub fn find_book_in_session(&self, sid: usize, id: &String) -> (r: Option<Book>)
        requires
            self.wf(),
            sid < self@.sessions.len(),
        ensures
            book_opt_view(r) == session_book(self@, sid as int, id@),
    {
        let mut cur = self.find_book(id);
        let sess = &self.sessions[sid];
        proof {
            assert(self@.sessions[sid as int] == sess@);
        }
        let n = sess.staged.len();
        for i in 0..n
            invariant
                n == sess.staged.len(),
                self@.sessions[sid as int] == sess@,
                book_opt_view(cur) == book_after_ops(
                    lookup_book(self@.committed.books, id@), id@, sess@.staged.take(i as int)),
        {
            cur = apply_book_step(cur, id, &sess.staged[i]);
            proof {
                assert(sess@.staged[i as int] == sess.staged.deep_view()[i as int]);
                assert(sess@.staged.take(i + 1).drop_last() =~= sess@.staged.take(i as int));
                assert(sess@.staged.take(i + 1).last() == sess@.staged[i as int]);
            }
        }
        proof {
            assert(sess@.staged.take(n as int) =~= sess@.staged);
        }
        cur
    }

    /// Read a versioned book through the session; see
    /// [`Store::find_user_in_session`].
    pub fn find_versioned_book_in_session(&self, sid: usize, id: &String) -> (r: Option<VersionedBook>)
        requires
            self.wf(),
            sid < self@.sessions.len(),
        ensures
            vbook_opt_view(r) == session_vbook(self@, sid as int, id@),
    {
        let mut cur = self.find_versioned_book(id);
        let sess = &self.sessions[sid];
        proof {
            assert(self@.sessions[sid as int] == sess@);
        }
        let n = sess.staged.len();
        for i in 0..n
            invariant
                n == sess.staged.len(),
                self@.sessions[sid as int] == sess@,
                vbook_opt_view(cur) == vbook_after_ops(
                    lookup_vbook(self@.committed.vbooks, id@), id@, sess@.staged.take(i as int)),
        {
            cur = apply_vbook_step(cur, id, &sess.staged[i]);
            proof {
                assert(sess@.staged[i as int] == sess.staged.deep_view()[i as int]);
                assert(sess@.staged.take(i + 1).drop_last() =~= sess@.staged.take(i as int));
                assert(sess@.staged.take(i + 1).last() == sess@.staged[i as int]);
            }
        }
        proof {
            assert(sess@.staged.take(n as int) =~= sess@.staged);
        }
        cur
    }
}

impl Store {
    /// Insert a user straight into the committed collection, outside any
    /// transaction: the seeding step.  A taken id is a permanent error.
    pub fn insert_user(&mut self, user: User) -> (r: Result<(), StoreError>)
        requires
            old(self).wf(),
        ensures
            final(self).wf(),
            final(self)@.sessions == old(self)@.sessions,
            final(self)@.committed.books == old(self)@.committed.books,
            final(self)@.committed.vbooks == old(self)@.committed.vbooks,
            if has_user(old(self)@.committed.users, user@.id) {
                r == Err::<(), StoreError>(StoreError::PermanentStoreError)
                    && final(self)@.committed.users == old(self)@.committed.users
            } else {
                r == Ok::<(), StoreError>(())
                    && final(self)@.committed.users == old(self)@.committed.users.push(user@)
            },
    {
        match find_user_index(&self.users, &user.id) {
            Some(_) => {
                proof {
                    assert(has_user(self@.committed.users, user@.id));
                }
                Err(StoreError::PermanentStoreError)
            },
            None => {
                proof {
                    lemma_lookup_user_push(self@.committed.users, user@);
                }
                self.users.push(user);
                proof {
                    assert(self@.committed.users =~= old(self)@.committed.users.push(user@));
                }
                Ok(())
            },
        }
    }

    /// Insert a book straight into the committed collection; see
    /// [`Store::insert_user`].
    pub fn insert_book(&mut self, book: Book) -> (r: Result<(), StoreError>)
        requires
            old(self).wf(),
        ensures
            final(self).wf(),
            final(self)@.sessions == old(self)@.sessions,
            final(self)@.committed.users == old(self)@.committed.users,
            final(self)@.committed.vbooks == old(self)@.committed.vbooks,
            if has_book(old(self)@.committed.books, book@.id) {
                r == Err::<(), StoreError>(StoreError::PermanentStoreError)
                    && final(self)@.committed.books == old(self)@.committed.books
            } else {
                r == Ok::<(), StoreError>(())
                    && final(self)@.committed.books == old(self)@.committed.books.push(book@)
            },
    {
        match find_book_index(&self.books, &book.id) {
            Some(_) => {
                proof {
                    assert(has_book(self@.committed.books, book@.id));
                }
                Err(StoreError::PermanentStoreError)
            },
            None => {
                proof {
                    lemma_lookup_book_push(self@.committed.books, book@);
                }
                self.books.push(book);
                proof {
                    assert(self@.committed.books =~= old(self)@.committed.books.push(book@));
                }
                Ok(())
            },
        }
    }

    /// Insert a versioned book straight into the committed collection; see
    /// [`Store::insert_user`].
    pub fn insert_versioned_book(&mut self, vbook: VersionedBook) -> (r: Result<(), StoreError>)
        requires
            old(self).wf(),
        ensures
            final(self).wf(),
            final(self)@.sessions == old(self)@.sessions,
            final(self)@.committed.users == old(self)@.committed.users,
            final(self)@.committed.books == old(self)@.committed.books,
            if has_vbook(old(self)@.committed.vbooks, vbook@.id) {
                r == Err::<(), StoreError>(StoreError::PermanentStoreError)
                    && final(self)@.committed.vbooks == old(self)@.committed.vbooks
            } else {
                r == Ok::<(), StoreError>(())
                    && final(self)@.committed.vbooks == old(self)@.committed.vbooks.push(vbook@)
            },
    {
        match find_vbook_index(&self.vbooks, &vbook.id) {
            Some(_) => {
                proof {
                    assert(has_vbook(self@.committed.vbooks, vbook@.id));
                }
                Err(StoreError::PermanentStoreError)
            },
            None => {
                proof {
                    lemma_lookup_vbook_push(self@.committed.vbooks, vbook@);
                }
                self.vbooks.push(vbook);
                proof {
                    assert(self@.committed.vbooks =~= old(self)@.committed.vbooks.push(vbook@));
                }
                Ok(())
            },
        }
    }

    /// Tear the user collection down, as the cleanup between scenario runs.
    pub fn drop_users(&mut self)
        requires
            old(self).wf(),
        ensures
            final(self).wf(),
            final(self)@.sessions == old(self)@.sessions,
            final(self)@.committed.users == Seq::<UserView>::empty(),
            final(self)@.committed.books == old(self)@.committed.books,
            final(self)@.committed.vbooks == old(self)@.committed.vbooks,
    {
        self.users = Vec::new();
        proof {
            assert(self@.committed.users =~= Seq::<UserView>::empty());
        }
    }

    /// Tear the book collection down; see [`Store::drop_users`].
    pub fn drop_books(&mut self)
        requires
            old(self).wf(),
        ensures
            final(self).wf(),
            final(self)@.sessions == old(self)@.sessions,
            final(self)@.committed.books == Seq::<BookView>::empty(),
            final(self)@.committed.users == old(self)@.committed.users,
            final(self)@.committed.vbooks == old(self)@.committed.vbooks,
    {
        self.books = Vec::new();
        proof {
            assert(self@.committed.books =~= Seq::<BookView>::empty());
        }
    }

    /// Tear the versioned book collection down; see [`Store::drop_users`].
    pub fn drop_versioned_books(&mut self)
        requires
            old(self).wf(),
        ensures
            final(self).wf(),
            final(self)@.sessions == old(self)@.sessions,
            final(self)@.committed.vbooks == Seq::<VersionedBookView>::empty(),
            final(self)@.committed.users == old(self)@.committed.users,
            final(self)@.committed.books == old(self)@.committed.books,
    {
        self.vbooks = Vec::new();
        proof {
            assert(self@.committed.vbooks =~= Seq::<VersionedBookView>::empty());
        }
    }

    /// Replace the user collection by the given fixture records: drop, then
    /// insert each.  Succeeds if and only if the fixture ids are pairwise
    /// distinct, and then the committed collection holds exactly the
    /// fixture, in order.
    pub fn seed_users(&mut self, users: Vec<User>) -> (r: Result<(), StoreError>)
        requires
            old(self).wf(),
        ensures
            final(self).wf(),
            final(self)@.sessions == old(self)@.sessions,
            final(self)@.committed.books == old(self)@.committed.books,
            final(self)@.committed.vbooks == old(self)@.committed.vbooks,
            if user_ids_unique(users.deep_view()) {
                r == Ok::<(), StoreError>(())
                    && final(self)@.committed.users == users.deep_view()
            } else {
                r == Err::<(), StoreError>(StoreError::PermanentStoreError)
            },
    {
        self.drop_users();
        let ghost target = users.deep_view();
        let n = users.len();
        for i in 0..n
            invariant
                n == users.len(),
                target == users.deep_view(),
                self.wf(),
                self@.sessions == old(self)@.sessions,
                self@.committed.books == old(self)@.committed.books,
                self@.committed.vbooks == old(self)@.committed.vbooks,
                self@.committed.users == target.take(i as int),
                user_ids_unique(target.take(i as int)),
        {
            let u = users[i].clone();
            proof {
                assert(u@ == target[i as int]);
            }
            match self.insert_user(u) {
                Ok(_) => {
                    proof {
                        assert(target.take(i + 1) =~= target.take(i as int).push(target[i as int]));
                        lemma_lookup_user_push(target.take(i as int), target[i as int]);
                    }
                },
                Err(e) => {
                    proof {
                        let k = choose|k: int| 0 <= k < i && target.take(i as int)[k].id == target[i as int].id;
                        assert(target[k].id == target[i as int].id);
                        assert(!user_ids_unique(target));
                    }
                    return Err(e);
                },
            }
        }
        proof {
            assert(target.take(n as int) =~= target);
        }
        Ok(())
    }

    /// Replace the book collection by the given fixture records; see
    /// [`Store::seed_users`].
    pub fn seed_books(&mut self, books: Vec<Book>) -> (r: Result<(), StoreError>)
        requires
            old(self).wf(),
        ensures
            final(self).wf(),
            final(self)@.sessions == old(self)@.sessions,
            final(self)@.committed.users == old(self)@.committed.users,
            final(self)@.committed.vbooks == old(self)@.committed.vbooks,
            if book_ids_unique(books.deep_view()) {
                r == Ok::<(), StoreError>(())
                    && final(self)@.committed.books == books.deep_view()
            } else {
                r == Err::<(), StoreError>(StoreError::PermanentStoreError)
            },
    {
        self.drop_books();
        let ghost target = books.deep_view();
        let n = books.len();
        for i in 0..n
            invariant
                n == books.len(),
                target == books.deep_view(),
                self.wf(),
                self@.sessions == old(self)@.sessions,
                self@.committed.users == old(self)@.committed.users,
                self@.committed.vbooks == old(self)@.committed.vbooks,
                self@.committed.books == target.take(i as int),
                book_ids_unique(target.take(i as int)),
        {
            let b = books[i].clone();
            proof {
                assert(b@ == target[i as int]);
            }
            match self.insert_book(b) {
                Ok(_) => {
                    proof {
                        assert(target.take(i + 1) =~= target.take(i as int).push(target[i as int]));
                        lemma_lookup_book_push(target.take(i as int), target[i as int]);
                    }
                },
                Err(e) => {
                    proof {
                        let k = choose|k: int| 0 <= k < i && target.take(i as int)[k].id == target[i as int].id;
                        assert(target[k].id == target[i as int].id);
                        assert(!book_ids_unique(target));
                    }
                    return Err(e);
                },
            }
        }
        proof {
            assert(target.take(n as int) =~= target);
        }
        Ok(())
    }

    /// Replace the versioned book collection by the given fixture records;
    /// see [`Store::seed_users`].
    pub fn seed_versioned_books(&mut self, vbooks: Vec<VersionedBook>) -> (r: Result<(), StoreError>)
        requires
            old(self).wf(),
        ensures
            final(self).wf(),
            final(self)@.sessions == old(self)@.sessions,
            final(self)@.committed.users == old(self)@.committed.users,
            final(self)@.committed.books == old(self)@.committed.books,
            if vbook_ids_unique(vbooks.deep_view()) {
                r == Ok::<(), StoreError>(())
                    && final(self)@.committed.vbooks == vbooks.deep_view()
            } else {
                r == Err::<(), StoreError>(StoreError::PermanentStoreError)
            },
    {
        self.drop_versioned_books();
        let ghost target = vbooks.deep_view();
        let n = vbooks.len();
        for i in 0..n
            invariant
                n == vbooks.len(),
                target == vbooks.deep_view(),
                self.wf(),
                self@.sessions == old(self)@.sessions,
                self@.committed.users == old(self)@.committed.users,
                self@.committed.books == old(self)@.committed.books,
                self@.committed.vbooks == target.take(i as int),
                vbook_ids_unique(target.take(i as int)),
        {
            let v = vbooks[i].clone();
            proof {
                assert(v@ == target[i as int]);
            }
            match self.insert_versioned_book(v) {
                Ok(_) => {
                    proof {
                        assert(target.take(i + 1) =~= target.take(i as int).push(target[i as int]));
                        lemma_lookup_vbook_push(target.take(i as int), target[i as int]);
                    }
                },
                Err(e) => {
                    proof {
                        let k = choose|k: int| 0 <= k < i && target.take(i as int)[k].id == target[i as int].id;
                        assert(target[k].id == target[i as int].id);
                        assert(!vbook_ids_unique(target));
                    }
                    return Err(e);
                },
            }
        }
        proof {
            assert(target.take(n as int) =~= target);
        }
        Ok(())
    }
}

/// Whether the string is among the given ones.
fn string_vec_contains(v: &Vec<String>, x: &String) -> (r: bool)
    ensures
        r == v.deep_view().contains(x@),
{
    let n = v.len();
    for i in 0..n
        invariant
            n == v.len(),
            forall|j: int| 0 <= j < i ==> #[trigger] v.deep_view()[j] != x@,
    {
        if v[i] == *x {
            proof {
                assert(v.deep_view()[i as int] == x@);
            }
            return true;
        }
    }
    proof {
        assert forall|j: int| 0 <= j < v.deep_view().len() implies #[trigger] v.deep_view()[j] != x@ by {}
    }
    false
}

/// Whether some author of the book is among the given ones.
fn book_matches_author_list(b: &Book, authors: &Vec<String>) -> (r: bool)
    ensures
        r == book_matches_authors(b@, authors.deep_view()),
{
    let n = b.authors.len();
    for i in 0..n
        invariant
            n == b.authors.len(),
            forall|j: int| 0 <= j < i ==> !authors.deep_view().contains(#[trigger] b@.authors[j]),
    {
        if string_vec_contains(authors, &b.authors[i]) {
            proof {
                assert(b@.authors[i as int] == b.authors.deep_view()[i as int]);
            }
            return true;
        }
    }
    false
}

impl Store {
    /// The first committed book with an author among the given ones, as an
    /// author-membership filter reports it.  An empty author list matches
    /// no book.
    pub fn find_first_book_with_author_in(&self, authors: &Vec<String>) -> (r: Option<Book>)
        ensures
            book_opt_view(r) == first_book_matching(self@.committed.books, authors.deep_view()),
    {
        let ghost books = self@.committed.books;
        let ghost target = first_book_matching(books, authors.deep_view());
        proof {
            assert(books.skip(0) =~= books);
        }
        let n = self.books.len();
        for i in 0..n
            invariant
                n == self.books.len(),
                books == self@.committed.books,
                target == first_book_matching(books, authors.deep_view()),
                target == first_book_matching(books.skip(i as int), authors.deep_view()),
        {
            proof {
                assert(books.skip(i as int)[0] == books[i as int]);
                assert(self.books.deep_view()[i as int] == books[i as int]);
            }
            if book_matches_author_list(&self.books[i], authors) {
                return Some(self.books[i].clone());
            }
            proof {
                assert(books.skip(i as int).drop_first() =~= books.skip(i + 1));
            }
        }
        proof {
            assert(books.skip(n as int) =~= Seq::<BookView>::empty());
        }
        None
    }

    /// Every committed book with an author among the given ones, in
    /// collection order.  An empty author list matches no book.
    pub fn find_books_with_author_in(&self, authors: &Vec<String>) -> (r: Vec<Book>)
        ensures
            r.deep_view() == self@.committed.books.filter(
                |b: BookView| book_matches_authors(b, authors.deep_view())),
    {
        let ghost books = self@.committed.books;
        let ghost pred = |b: BookView| book_matches_authors(b, authors.deep_view());
        let mut out: Vec<Book> = Vec::new();
        proof {
            assert(out.deep_view() =~= books.take(0).filter(pred));
        }
        let n = self.books.len();
        for i in 0..n
            invariant
                n == self.books.len(),
                books == self@.committed.books,
                pred == (|b: BookView| book_matches_authors(b, authors.deep_view())),
                out.deep_view() == books.take(i as int).filter(pred),
        {
            proof {
                assert(self.books.deep_view()[i as int] == books[i as int]);
            }
            let ghost out0 = out.deep_view();
            if book_matches_author_list(&self.books[i], authors) {
                out.push(self.books[i].clone());
                proof {
                    assert(out.deep_view() =~= out0.push(books[i as int]));
                }
            }
            proof {
                broadcast use vstd::prelude::Seq::lemma_filter_push;
                assert(books.take(i + 1) =~= books.take(i as int).push(books[i as int]));
                assert(books.take(i as int).push(books[i as int]).filter(pred)
                    == if pred(books[i as int]) {
                        books.take(i as int).filter(pred).push(books[i as int])
                    } else {
                        books.take(i as int).filter(pred)
                    });
            }
        }
        proof {
            assert(books.take(n as int) =~= books);
        }
        out
    }
}

/// Fold one staged write into a book read, for read-your-own-writes.
fn apply_book_step(cur: Option<Book>, id: &String, op: &WriteOp) -> (r: Option<Book>)
    ensures
        book_opt_view(r) == book_step(book_opt_view(cur), id@, op@),
{
    match op {
        WriteOp::PushReview { book_id, review } => {
            match cur {
                Some(mut b) => {
                    if *book_id == *id {
                        let ghost b0 = b@;
                        b.reviews.push(review.clone());
                        proof {
                            assert(b@.reviews =~= b0.reviews.push(review@));
                        }
                        Some(b)
                    } else {
                        Some(b)
                    }
                },
                None => None,
            }
        },
        WriteOp::InsertBook { book } => {
            match cur {
                Some(b) => Some(b),
                None => {
                    if book.id == *id {
                        Some(book.clone())
                    } else {
                        None
                    }
                },
            }
        },
        _ => cur,
    }
}

/// Fold one staged write into a user read, for read-your-own-writes.
fn apply_user_step(cur: Option<User>, id: &String, op: &WriteOp) -> (r: Option<User>)
    ensures
        user_opt_view(r) == user_step(user_opt_view(cur), id@, op@),
{
    match op {
        WriteOp::PushReviewedBookId { user_id, book_id } => {
            match cur {
                Some(mut u) => {
                    if *user_id == *id {
                        let ghost u0 = u@;
                        u.reviewed_book_ids.push(book_id.clone());
                        proof {
                            assert(u@.reviewed_book_ids =~= u0.reviewed_book_ids.push(book_id@));
                        }
                        Some(u)
                    } else {
                        Some(u)
                    }
                },
                None => None,
            }
        },
        WriteOp::SetUserName { user_id, name } => {
            match cur {
                Some(mut u) => {
                    if *user_id == *id {
                        u.name = name.clone();
                        Some(u)
                    } else {
                        Some(u)
                    }
                },
                None => None,
            }
        },
        _ => cur,
    }
}

/// Fold one staged write into a versioned-book read.
fn apply_vbook_step(cur: Option<VersionedBook>, id: &String, op: &WriteOp) -> (r: Option<VersionedBook>)
    ensures
        vbook_opt_view(r) == vbook_step(vbook_opt_view(cur), id@, op@),
{
    match op {
        WriteOp::SetVersionedBook { book_id, name, new_version } => {
            match cur {
                Some(mut v) => {
                    if *book_id == *id {
                        v.name = name.clone();
                        v.version = *new_version;
                        Some(v)
                    } else {
                        Some(v)
                    }
                },
                None => None,
            }
        },
        _ => cur,
    }
}

} // verus!
