//! Conflict scenario harness: deterministic replays of the multi-writer
//! races, against the modelled store.  Wall-clock delays of a live race
//! become explicit sequencing here: each actor's steps run at the point of
//! the timeline the delay was forcing.
use vstd::prelude::*;
use crate::model::{
    committed_user, committed_vbook, has_book, locked_by_other, lookup_book, lookup_user, op_key,
    session_locks_key, Coll, KeyView, OpView, SessionPhase,
};
use crate::outcome::{StoreError, TxOptions, UpdateOutcome};
use crate::records::{Book, BookView, ReviewView, User, UserView, VersionedBook, VersionedBookView};
use crate::store::{book_opt_view, user_opt_view, vbook_opt_view, Store};
use crate::driver::commit_with_retry;

verus! {

/// What the optimistic-lock race produced, actor by actor.
pub struct OptimisticRaceReport {
    /// The first writer's conditional update, expecting version 1.
    pub writer_outcome: UpdateOutcome,
    /// What the racing writer read mid-race: the committed record, not the
    /// first writer's staged update.
    pub racer_read: Option<VersionedBook>,
    /// The racing writer's conditional update during the first writer's
    /// open window.
    pub racer_result: Result<UpdateOutcome, StoreError>,
    /// What a third writer read after the first writer committed.
    pub late_read: Option<VersionedBook>,
    /// The third writer's conditional update, still expecting version 1.
    pub late_outcome: UpdateOutcome,
    /// The stored record at the end.
    pub final_book: Option<VersionedBook>,
}

/// The optimistic-lock race, replayed deterministically.
///
/// A book is seeded at version 1.  Actor A opens a transaction and sets
/// `name_a` conditioned on version 1; actor B, inside A's open window,
/// reads the book — still the committed version 1 — and attempts `name_b`
/// conditioned on version 1, which fails with a transient conflict, never a
/// silently lost update.  A then commits, retrying through any lost
/// acknowledgments.  Actor C, starting after A's commit, still presents
/// version 1 and matches nothing: the version has advanced to 2 and the
/// stored name is A's.
pub fn optimistic_conflict_scenario(
    store: &mut Store,
    book_id: &String,
    initial_name: &String,
    name_a: &String,
    name_b: &String,
    name_c: &String,
    lost_acks: &Vec<bool>,
) -> (r: OptimisticRaceReport)
    requires
        old(store).wf(),
        old(store)@.sessions.len() == 0,
    ensures
        final(store).wf(),
        r.writer_outcome == UpdateOutcome::applied(),
        vbook_opt_view(r.racer_read)
            == Some(VersionedBookView { id: book_id@, name: initial_name@, version: 1 }),
        r.racer_result == Err::<UpdateOutcome, StoreError>(StoreError::TransientConflict),
        vbook_opt_view(r.late_read)
            == Some(VersionedBookView { id: book_id@, name: name_a@, version: 2 }),
        r.late_outcome == UpdateOutcome::no_match(),
        vbook_opt_view(r.final_book)
            == Some(VersionedBookView { id: book_id@, name: name_a@, version: 2 }),
        committed_vbook(final(store)@, book_id@)
            == Some(VersionedBookView { id: book_id@, name: name_a@, version: 2 }),
{
    let ghost k = KeyView { coll: Coll::VersionedBooks, id: book_id@ };
    let ghost v0 = VersionedBookView { id: book_id@, name: initial_name@, version: 1 };

    // Seed the fixture: one book at version 1.
    let mut fixture: Vec<VersionedBook> = Vec::new();
    fixture.push(VersionedBook { id: book_id.clone(), name: initial_name.clone(), version: 1 });
    proof {
        assert(fixture.deep_view() =~= seq![v0]);
        assert(crate::model::vbook_ids_unique(fixture.deep_view()));
    }
    let _seeded = store.seed_versioned_books(fixture);

    // Actor A: open window, conditional update at version 1.
    let sid_a = store.open_session();
    let _ = store.begin_transaction(sid_a, TxOptions::majority());
    proof {
        assert(!locked_by_other(store@, sid_a as int, k)) by {
            if locked_by_other(store@, sid_a as int, k) {
                let j = choose|j: int| 0 <= j < store@.sessions.len() && j != sid_a as int
                    && session_locks_key(store@.sessions[j], k);
            }
        }
        crate::model::lemma_vbook_at_is(store@.committed.vbooks, book_id@, 0);
    }
    let writer_outcome = match store.conditional_update(sid_a, book_id, 1, name_a) {
        Ok(o) => o,
        Err(_) => {
            proof {
                assert(false);
            }
            UpdateOutcome { matched_count: 0, modified_count: 0 }
        },
    };

    // Actor B: starts inside A's window, reads, races the same update.
    let sid_b = store.open_session();
    let _ = store.begin_transaction(sid_b, TxOptions::majority());
    let racer_read = store.find_versioned_book_in_session(sid_b, book_id);
    proof {
        assert(locked_by_other(store@, sid_b as int, k)) by {
            assert(store@.sessions[sid_a as int].phase == SessionPhase::InTransaction);
            assert(op_key(store@.sessions[sid_a as int].staged[0]) == k);
            assert(session_locks_key(store@.sessions[sid_a as int], k));
        }
    }
    let racer_result = store.conditional_update(sid_b, book_id, 1, name_b);
    store.abort(sid_b);

    // A commits, re-issuing the commit while acknowledgments are lost.
    let ghost pre_commit = store@;
    let ghost op_a = OpView::SetVersionedBook { book_id: book_id@, name: name_a@, new_version: 2 };
    let ghost v1 = VersionedBookView { id: book_id@, name: name_a@, version: 2 };
    let _committed = commit_with_retry(store, sid_a, lost_acks);
    proof {
        crate::model::lemma_apply_ops_pair(pre_commit.committed, op_a, op_a);
        assert(pre_commit.sessions[sid_a as int].staged =~= seq![op_a]);
        crate::model::lemma_vbook_at_is(pre_commit.committed.vbooks, book_id@, 0);
        assert(store@.committed.vbooks =~= seq![v1]);
        crate::model::lemma_vbook_at_is(store@.committed.vbooks, book_id@, 0);
    }

    // Actor C: starts after A's commit, still presents version 1.
    let sid_c = store.open_session();
    let _ = store.begin_transaction(sid_c, TxOptions::majority());
    let late_read = store.find_versioned_book_in_session(sid_c, book_id);
    proof {
        assert(!locked_by_other(store@, sid_c as int, k)) by {
            if locked_by_other(store@, sid_c as int, k) {
                let j = choose|j: int| 0 <= j < store@.sessions.len() && j != sid_c as int
                    && session_locks_key(store@.sessions[j], k);
                assert(!session_locks_key(store@.sessions[sid_a as int], k));
                assert(!session_locks_key(store@.sessions[sid_b as int], k));
            }
        }
    }
    let late_outcome = match store.conditional_update(sid_c, book_id, 1, name_c) {
        Ok(o) => o,
        Err(_) => {
            proof {
                assert(false);
            }
            UpdateOutcome { matched_count: 0, modified_count: 0 }
        },
    };
    store.abort(sid_c);

    let final_book = store.find_versioned_book(book_id);
    OptimisticRaceReport {
        writer_outcome,
        racer_read,
        racer_result,
        late_read,
        late_outcome,
        final_book,
    }
}

/// What the plain (unconditional) write race produced.
pub struct LockingRaceReport {
    /// The first writer's update inside its open transaction.
    pub first_write: UpdateOutcome,
    /// The racing writer's update during the first writer's open window.
    pub racer_result: Result<UpdateOutcome, StoreError>,
    /// The stored record after the first writer committed.
    pub final_user: Option<User>,
}

/// The transactional write race, replayed deterministically: actor A
/// updates a user's name inside an open transaction; actor B, inside A's
/// window, attempts a conflicting update and observes a transient conflict;
/// A commits and its name, not B's, is stored.
pub fn locking_conflict_scenario(
    store: &mut Store,
    user_id: &String,
    initial_name: &String,
    name_a: &String,
    name_b: &String,
    lost_acks: &Vec<bool>,
) -> (r: LockingRaceReport)
    requires
        old(store).wf(),
        old(store)@.sessions.len() == 0,
    ensures
        final(store).wf(),
        r.first_write == UpdateOutcome::applied(),
        r.racer_result == Err::<UpdateOutcome, StoreError>(StoreError::TransientConflict),
        user_opt_view(r.final_user) == Some(
            (UserView { id: user_id@, name: name_a@, reviewed_book_ids: Seq::empty() }),
        ),
        committed_user(final(store)@, user_id@) == Some(
            (UserView { id: user_id@, name: name_a@, reviewed_book_ids: Seq::empty() }),
        ),
{
    let ghost k = KeyView { coll: Coll::Users, id: user_id@ };
    let ghost u0 = UserView { id: user_id@, name: initial_name@, reviewed_book_ids: Seq::empty() };
    let ghost u1 = UserView { id: user_id@, name: name_a@, reviewed_book_ids: Seq::empty() };

    let mut fixture: Vec<User> = Vec::new();
    fixture.push(User { id: user_id.clone(), name: initial_name.clone(), reviewed_book_ids: Vec::new() });
    proof {
        assert(fixture.deep_view() =~~= seq![u0]);
        assert(crate::model::user_ids_unique(fixture.deep_view()));
    }
    let _seeded = store.seed_users(fixture);

    // Actor A: open window, stage the name update.
    let sid_a = store.open_session();
    let _ = store.begin_transaction(sid_a, TxOptions::majority());
    proof {
        assert(!locked_by_other(store@, sid_a as int, k)) by {
            if locked_by_other(store@, sid_a as int, k) {
                let j = choose|j: int| 0 <= j < store@.sessions.len() && j != sid_a as int
                    && session_locks_key(store@.sessions[j], k);
            }
        }
        crate::model::lemma_user_at_is(store@.committed.users, user_id@, 0);
    }
    let first_write = match store.set_user_name(sid_a, user_id, name_a) {
        Ok(o) => o,
        Err(_) => {
            proof {
                assert(false);
            }
            UpdateOutcome { matched_count: 0, modified_count: 0 }
        },
    };

    // Actor B: races the same record inside A's window.
    let sid_b = store.open_session();
    let _ = store.begin_transaction(sid_b, TxOptions::majority());
    proof {
        assert(locked_by_other(store@, sid_b as int, k)) by {
            assert(store@.sessions[sid_a as int].phase == SessionPhase::InTransaction);
            assert(op_key(store@.sessions[sid_a as int].staged[0]) == k);
            assert(session_locks_key(store@.sessions[sid_a as int], k));
        }
    }
    let racer_result = store.set_user_name(sid_b, user_id, name_b);
    store.abort(sid_b);

    // A commits.
    let ghost pre_commit = store@;
    let ghost op_a = OpView::SetUserName { user_id: user_id@, name: name_a@ };
    let _committed = commit_with_retry(store, sid_a, lost_acks);
    proof {
        crate::model::lemma_apply_ops_pair(pre_commit.committed, op_a, op_a);
        assert(pre_commit.sessions[sid_a as int].staged =~= seq![op_a]);
        crate::model::lemma_user_at_is(pre_commit.committed.users, user_id@, 0);
        assert(store@.committed.users =~= seq![u1]);
        crate::model::lemma_user_at_is(store@.committed.users, user_id@, 0);
    }

    let final_user = store.find_user(user_id);
    LockingRaceReport { first_write, racer_result, final_user }
}

/// What the abort replay produced.
pub struct AbortReport {
    /// What the inserting session itself read mid-transaction: its own
    /// staged record.
    pub own_read: Option<Book>,
    /// What another session read mid-transaction: nothing.
    pub mid_read: Option<Book>,
    /// What a committed read found after the abort: nothing.
    pub final_read: Option<Book>,
}

/// Abort nullification, replayed: a transaction inserts a book, another
/// session never sees it, and after the abort no one does — the committed
/// collections are exactly as before the transaction.
pub fn abort_scenario(store: &mut Store, book_id: &String, name: &String) -> (r: AbortReport)
    requires
        old(store).wf(),
        old(store)@.sessions.len() == 0,
        !has_book(old(store)@.committed.books, book_id@),
    ensures
        final(store).wf(),
        book_opt_view(r.own_read) == Some(
            (BookView {
                id: book_id@,
                name: name@,
                reviews: Seq::empty(),
                authors: Seq::empty(),
                supervisors: Seq::empty(),
            }),
        ),
        r.mid_read is None,
        r.final_read is None,
        final(store)@.committed == old(store)@.committed,
{
    let ghost bv = BookView {
        id: book_id@,
        name: name@,
        reviews: Seq::empty(),
        authors: Seq::empty(),
        supervisors: Seq::empty(),
    };
    let ghost k = KeyView { coll: Coll::Books, id: book_id@ };
    let ghost op = OpView::InsertBook { book: bv };

    let sid = store.open_session();
    let _ = store.begin_transaction(sid, TxOptions::majority());
    proof {
        assert(!locked_by_other(store@, sid as int, k)) by {
            if locked_by_other(store@, sid as int, k) {
                let j = choose|j: int| 0 <= j < store@.sessions.len() && j != sid as int
                    && session_locks_key(store@.sessions[j], k);
            }
        }
    }
    let book = Book {
        id: book_id.clone(),
        name: name.clone(),
        reviews: Vec::new(),
        authors: Vec::new(),
        supervisors: Vec::new(),
    };
    proof {
        assert(book@ =~~= bv);
    }
    let _inserted = store.insert_book_in_session(sid, book);
    proof {
        assert(store@.sessions[sid as int].staged =~= seq![op]);
        assert(crate::model::book_after_ops(
            lookup_book(store@.committed.books, book_id@), book_id@, Seq::<OpView>::empty())
            == lookup_book(store@.committed.books, book_id@));
        assert(seq![op].drop_last() =~= Seq::<OpView>::empty());
    }
    let own_read = store.find_book_in_session(sid, book_id);

    // Another session, while the transaction is open: nothing visible.
    let mid_read = store.find_book(book_id);

    store.abort(sid);
    let final_read = store.find_book(book_id);
    AbortReport { own_read, mid_read, final_read }
}

/// What the cross-record review transaction replay produced.
pub struct ReviewScenarioReport {
    /// The book as another session read it mid-transaction: no review yet.
    pub mid_book: Option<Book>,
    /// The user as another session read it mid-transaction: no reviewed
    /// book yet.
    pub mid_user: Option<User>,
    /// The book after commit: exactly one review.
    pub final_book: Option<Book>,
    /// The user after commit: exactly one reviewed book id.
    pub final_user: Option<User>,
}

/// The cross-record review flow, replayed: one transaction appends a review
/// to the book and the book's id to the user.  Mid-transaction, another
/// session sees neither update; after the commit — re-issued through any
/// lost acknowledgments — it sees both.
pub fn add_reviews_scenario(
    store: &mut Store,
    user_id: &String,
    user_name: &String,
    book_id: &String,
    book_name: &String,
    text: &String,
    lost_acks: &Vec<bool>,
) -> (r: ReviewScenarioReport)
    requires
        old(store).wf(),
        old(store)@.sessions.len() == 0,
    ensures
        final(store).wf(),
        book_opt_view(r.mid_book) == Some(
            (BookView {
                id: book_id@,
                name: book_name@,
                reviews: Seq::empty(),
                authors: Seq::empty(),
                supervisors: Seq::empty(),
            }),
        ),
        user_opt_view(r.mid_user) == Some(
            (UserView { id: user_id@, name: user_name@, reviewed_book_ids: Seq::empty() }),
        ),
        book_opt_view(r.final_book) == Some(
            (BookView {
                id: book_id@,
                name: book_name@,
                reviews: seq![(ReviewView { user_id: user_id@, text: text@ })],
                authors: Seq::empty(),
                supervisors: Seq::empty(),
            }),
        ),
        user_opt_view(r.final_user) == Some(
            (UserView { id: user_id@, name: user_name@, reviewed_book_ids: seq![book_id@] }),
        ),
{
    let ghost u0 = UserView { id: user_id@, name: user_name@, reviewed_book_ids: Seq::empty() };
    let ghost b0 = BookView {
        id: book_id@,
        name: book_name@,
        reviews: Seq::empty(),
        authors: Seq::empty(),
        supervisors: Seq::empty(),
    };
    let ghost rv = ReviewView { user_id: user_id@, text: text@ };
    let ghost op1 = OpView::PushReview { book_id: book_id@, review: rv };
    let ghost op2 = OpView::PushReviewedBookId { user_id: user_id@, book_id: book_id@ };
    let ghost bk = KeyView { coll: Coll::Books, id: book_id@ };
    let ghost uk = KeyView { coll: Coll::Users, id: user_id@ };

    let mut users: Vec<User> = Vec::new();
    users.push(User { id: user_id.clone(), name: user_name.clone(), reviewed_book_ids: Vec::new() });
    proof {
        assert(users.deep_view() =~~= seq![u0]);
        assert(crate::model::user_ids_unique(users.deep_view()));
    }
    let _seeded_users = store.seed_users(users);

    let mut books: Vec<Book> = Vec::new();
    books.push(Book {
        id: book_id.clone(),
        name: book_name.clone(),
        reviews: Vec::new(),
        authors: Vec::new(),
        supervisors: Vec::new(),
    });
    proof {
        assert(books.deep_view() =~~= seq![b0]);
        assert(crate::model::book_ids_unique(books.deep_view()));
    }
    let _seeded_books = store.seed_books(books);

    // The transaction: both writes staged on one session.
    let sid = store.open_session();
    let _ = store.begin_transaction(sid, TxOptions::majority());
    proof {
        assert(!locked_by_other(store@, sid as int, bk)) by {
            if locked_by_other(store@, sid as int, bk) {
                let j = choose|j: int| 0 <= j < store@.sessions.len() && j != sid as int
                    && session_locks_key(store@.sessions[j], bk);
            }
        }
        assert(!locked_by_other(store@, sid as int, uk)) by {
            if locked_by_other(store@, sid as int, uk) {
                let j = choose|j: int| 0 <= j < store@.sessions.len() && j != sid as int
                    && session_locks_key(store@.sessions[j], uk);
            }
        }
        crate::model::lemma_book_at_is(store@.committed.books, book_id@, 0);
        crate::model::lemma_user_at_is(store@.committed.users, user_id@, 0);
    }
    let _r1 = store.push_review(sid, book_id, user_id, text);
    proof {
        assert(store@.sessions[sid as int].staged =~= seq![op1]);
        assert(seq![op1].drop_last() =~= Seq::<OpView>::empty());
        assert(crate::model::user_after_ops(
            lookup_user(store@.committed.users, user_id@), user_id@, Seq::<OpView>::empty())
            == lookup_user(store@.committed.users, user_id@));
    }
    let _r2 = store.push_reviewed_book_id(sid, user_id, book_id);
    proof {
        assert(store@.sessions[sid as int].staged =~= seq![op1, op2]);
    }

    // Another session, mid-transaction: neither update visible.
    let mid_book = store.find_book(book_id);
    let mid_user = store.find_user(user_id);

    // Commit: both updates become visible in one step.
    let ghost pre_commit = store@;
    let _committed = commit_with_retry(store, sid, lost_acks);
    proof {
        let c = pre_commit.committed;
        crate::model::lemma_apply_ops_pair(c, op1, op2);
        crate::model::lemma_book_at_is(c.books, book_id@, 0);
        let b1 = crate::model::with_review(c.books[0], rv);
        crate::model::lemma_lookup_book_update(c.books, 0, b1);
        let c1 = crate::model::apply_op(c, op1);
        assert(c1.users == c.users);
        crate::model::lemma_user_at_is(c1.users, user_id@, 0);
        let u1 = crate::model::with_reviewed_book(c1.users[0], book_id@);
        crate::model::lemma_lookup_user_update(c1.users, 0, u1);
        let c2 = crate::model::apply_op(c1, op2);
        assert(c2.books == c1.books);
        assert(store@.committed == c2);
        assert(b1 =~~= (BookView {
            id: book_id@,
            name: book_name@,
            reviews: seq![rv],
            authors: Seq::empty(),
            supervisors: Seq::empty(),
        }));
        assert(u1 =~~= (UserView {
            id: user_id@,
            name: user_name@,
            reviewed_book_ids: seq![book_id@],
        }));
    }
    let final_book = store.find_book(book_id);
    let final_user = store.find_user(user_id);
    ReviewScenarioReport { mid_book, mid_user, final_book, final_user }
}

} // verus!
