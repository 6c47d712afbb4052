//! Mathematical model of the store a coordinator drives: committed
//! collections, sessions, staged writes, and the transition functions the
//! executable store is specified against.
//!
//! A transaction's writes are *staged* on its session and applied to the
//! committed collections in a single step at commit; until then they are
//! visible only to reads through the same session.  A staged write also
//! acts as a record-level lock: a second session writing to the same record
//! while the first transaction is open observes a transient conflict, never
//! a silently lost update.
use vstd::prelude::*;
use crate::outcome::TxOptions;
use crate::records::{BookView, ReviewView, UserView, VersionedBookView};

verus! {

/// Lifecycle of a session's current transaction.
#[derive(Clone, Copy, Debug, PartialEq, Eq, Structural)]
pub enum SessionPhase {
    /// No transaction has been started on the session.
    Idle,
    /// A transaction is open; writes are staged, not yet visible elsewhere.
    InTransaction,
    /// The last transaction committed; its writes are applied.
    Committed,
    /// The last transaction aborted; its writes are discarded.
    Aborted,
}

/// The collection a record lives in.
#[derive(Clone, Copy, Debug, PartialEq, Eq, Structural)]
pub enum Coll {
    Users,
    Books,
    VersionedBooks,
}

/// Identity of one record: its collection and its unique string key.
pub ghost struct KeyView {
    pub coll: Coll,
    pub id: Seq<char>,
}

/// One staged write, as the model sees it.
pub ghost enum OpView {
    /// Append a review to the book's embedded review list.
    PushReview { book_id: Seq<char>, review: ReviewView },
    /// Append a book id to the user's reviewed-book list.
    PushReviewedBookId { user_id: Seq<char>, book_id: Seq<char> },
    /// Overwrite the user's name.
    SetUserName { user_id: Seq<char>, name: Seq<char> },
    /// Insert a new book record.
    InsertBook { book: BookView },
    /// Overwrite a versioned book's name and version counter; the new
    /// version was computed when the matching conditional update staged
    /// this write.
    SetVersionedBook { book_id: Seq<char>, name: Seq<char>, new_version: u64 },
}

/// The record a staged write touches; staging it locks that record.
pub open spec fn op_key(op: OpView) -> KeyView {
    match op {
        OpView::PushReview { book_id, .. } => KeyView { coll: Coll::Books, id: book_id },
        OpView::PushReviewedBookId { user_id, .. } => KeyView { coll: Coll::Users, id: user_id },
        OpView::SetUserName { user_id, .. } => KeyView { coll: Coll::Users, id: user_id },
        OpView::InsertBook { book } => KeyView { coll: Coll::Books, id: book.id },
        OpView::SetVersionedBook { book_id, .. } => KeyView { coll: Coll::VersionedBooks, id: book_id },
    }
}

/// The committed contents of the store's three collections.
#[verifier::ext_equal]
pub ghost struct DataView {
    pub users: Seq<UserView>,
    pub books: Seq<BookView>,
    pub vbooks: Seq<VersionedBookView>,
}

/// One session: its transaction phase, the configuration the transaction
/// was started with, and the writes staged so far.
#[verifier::ext_equal]
pub ghost struct SessionView {
    pub phase: SessionPhase,
    pub opts: TxOptions,
    pub staged: Seq<OpView>,
}

/// The whole store: committed data plus every session ever opened.
#[verifier::ext_equal]
pub ghost struct StoreView {
    pub committed: DataView,
    pub sessions: Seq<SessionView>,
}

// ---------------------------------------------------------------------------
// Lookup by id, one triple per collection.
// ---------------------------------------------------------------------------

pub open spec fn user_ids_unique(users: Seq<UserView>) -> bool {
    forall|i: int, j: int| 0 <= i < j < users.len() ==> users[i].id != users[j].id
}

pub open spec fn has_user(users: Seq<UserView>, id: Seq<char>) -> bool {
    exists|i: int| 0 <= i < users.len() && users[i].id == id
}

pub open spec fn user_at(users: Seq<UserView>, id: Seq<char>) -> int {
    choose|i: int| 0 <= i < users.len() && users[i].id == id
}

/// The committed user with the given id, if any.
pub open spec fn lookup_user(users: Seq<UserView>, id: Seq<char>) -> Option<UserView> {
    if has_user(users, id) {
        Some(users[user_at(users, id)])
    } else {
        None
    }
}

pub open spec fn book_ids_unique(books: Seq<BookView>) -> bool {
    forall|i: int, j: int| 0 <= i < j < books.len() ==> books[i].id != books[j].id
}

pub open spec fn has_book(books: Seq<BookView>, id: Seq<char>) -> bool {
    exists|i: int| 0 <= i < books.len() && books[i].id == id
}

pub open spec fn book_at(books: Seq<BookView>, id: Seq<char>) -> int {
    choose|i: int| 0 <= i < books.len() && books[i].id == id
}

/// The committed book with the given id, if any.
pub open spec fn lookup_book(books: Seq<BookView>, id: Seq<char>) -> Option<BookView> {
    if has_book(books, id) {
        Some(books[book_at(books, id)])
    } else {
        None
    }
}

pub open spec fn vbook_ids_unique(vbooks: Seq<VersionedBookView>) -> bool {
    forall|i: int, j: int| 0 <= i < j < vbooks.len() ==> vbooks[i].id != vbooks[j].id
}

pub open spec fn has_vbook(vbooks: Seq<VersionedBookView>, id: Seq<char>) -> bool {
    exists|i: int| 0 <= i < vbooks.len() && vbooks[i].id == id
}

pub open spec fn vbook_at(vbooks: Seq<VersionedBookView>, id: Seq<char>) -> int {
    choose|i: int| 0 <= i < vbooks.len() && vbooks[i].id == id
}

/// The committed versioned book with the given id, if any.
pub open spec fn lookup_vbook(vbooks: Seq<VersionedBookView>, id: Seq<char>) -> Option<VersionedBookView> {
    if has_vbook(vbooks, id) {
        Some(vbooks[vbook_at(vbooks, id)])
    } else {
        None
    }
}

// ---------------------------------------------------------------------------
// Record transformers and write application.
// ---------------------------------------------------------------------------

pub open spec fn with_review(b: BookView, r: ReviewView) -> BookView {
    BookView {
        id: b.id,
        name: b.name,
        reviews: b.reviews.push(r),
        authors: b.authors,
        supervisors: b.supervisors,
    }
}

pub open spec fn with_reviewed_book(u: UserView, book_id: Seq<char>) -> UserView {
    UserView { id: u.id, name: u.name, reviewed_book_ids: u.reviewed_book_ids.push(book_id) }
}

pub open spec fn with_user_name(u: UserView, name: Seq<char>) -> UserView {
    UserView { id: u.id, name: name, reviewed_book_ids: u.reviewed_book_ids }
}

/// Effect of one staged write on the committed collections.  A write whose
/// target record is absent applies as a no-op, and an insert of an id that
/// is already taken applies as a no-op: the matching checks happened when
/// the write was staged.
pub open spec fn apply_op(d: DataView, op: OpView) -> DataView {
    match op {
        OpView::PushReview { book_id, review } => {
            if has_book(d.books, book_id) {
                DataView {
                    users: d.users,
                    books: d.books.update(
                        book_at(d.books, book_id),
                        with_review(d.books[book_at(d.books, book_id)], review),
                    ),
                    vbooks: d.vbooks,
                }
            } else {
                d
            }
        },
        OpView::PushReviewedBookId { user_id, book_id } => {
            if has_user(d.users, user_id) {
                DataView {
                    users: d.users.update(
                        user_at(d.users, user_id),
                        with_reviewed_book(d.users[user_at(d.users, user_id)], book_id),
                    ),
                    books: d.books,
                    vbooks: d.vbooks,
                }
            } else {
                d
            }
        },
        OpView::SetUserName { user_id, name } => {
            if has_user(d.users, user_id) {
                DataView {
                    users: d.users.update(
                        user_at(d.users, user_id),
                        with_user_name(d.users[user_at(d.users, user_id)], name),
                    ),
                    books: d.books,
                    vbooks: d.vbooks,
                }
            } else {
                d
            }
        },
        OpView::InsertBook { book } => {
            if has_book(d.books, book.id) {
                d
            } else {
                DataView { users: d.users, books: d.books.push(book), vbooks: d.vbooks }
            }
        },
        OpView::SetVersionedBook { book_id, name, new_version } => {
            if has_vbook(d.vbooks, book_id) {
                DataView {
                    users: d.users,
                    books: d.books,
                    vbooks: d.vbooks.update(
                        vbook_at(d.vbooks, book_id),
                        VersionedBookView { id: book_id, name: name, version: new_version },
                    ),
                }
            } else {
                d
            }
        },
    }
}

/// A transaction's staged writes applied in order, as one atomic step.
pub open spec fn apply_ops(d: DataView, ops: Seq<OpView>) -> DataView
    decreases ops.len(),
{
    if ops.len() == 0 {
        d
    } else {
        apply_op(apply_ops(d, ops.drop_last()), ops.last())
    }
}

// ---------------------------------------------------------------------------
// What one session's staged writes do to one record: read-your-own-writes.
// ---------------------------------------------------------------------------

pub open spec fn book_step(cur: Option<BookView>, id: Seq<char>, op: OpView) -> Option<BookView> {
    match op {
        OpView::PushReview { book_id, review } => match cur {
            Some(b) => if book_id == id { Some(with_review(b, review)) } else { Some(b) },
            None => None,
        },
        OpView::InsertBook { book } => match cur {
            Some(b) => Some(b),
            None => if book.id == id { Some(book) } else { None },
        },
        _ => cur,
    }
}

pub open spec fn book_after_ops(cur: Option<BookView>, id: Seq<char>, ops: Seq<OpView>) -> Option<BookView>
    decreases ops.len(),
{
    if ops.len() == 0 {
        cur
    } else {
        book_step(book_after_ops(cur, id, ops.drop_last()), id, ops.last())
    }
}

pub open spec fn user_step(cur: Option<UserView>, id: Seq<char>, op: OpView) -> Option<UserView> {
    match op {
        OpView::PushReviewedBookId { user_id, book_id } => match cur {
            Some(u) => if user_id == id { Some(with_reviewed_book(u, book_id)) } else { Some(u) },
            None => None,
        },
        OpView::SetUserName { user_id, name } => match cur {
            Some(u) => if user_id == id { Some(with_user_name(u, name)) } else { Some(u) },
            None => None,
        },
        _ => cur,
    }
}

pub open spec fn user_after_ops(cur: Option<UserView>, id: Seq<char>, ops: Seq<OpView>) -> Option<UserView>
    decreases ops.len(),
{
    if ops.len() == 0 {
        cur
    } else {
        user_step(user_after_ops(cur, id, ops.drop_last()), id, ops.last())
    }
}

pub open spec fn vbook_step(cur: Option<VersionedBookView>, id: Seq<char>, op: OpView) -> Option<VersionedBookView> {
    match op {
        OpView::SetVersionedBook { book_id, name, new_version } => match cur {
            Some(v) => if book_id == id {
                Some(VersionedBookView { id: v.id, name: name, version: new_version })
            } else {
                Some(v)
            },
            None => None,
        },
        _ => cur,
    }
}

pub open spec fn vbook_after_ops(cur: Option<VersionedBookView>, id: Seq<char>, ops: Seq<OpView>) -> Option<VersionedBookView>
    decreases ops.len(),
{
    if ops.len() == 0 {
        cur
    } else {
        vbook_step(vbook_after_ops(cur, id, ops.drop_last()), id, ops.last())
    }
}

// ---------------------------------------------------------------------------
// Visibility: what a read returns, with and without a session.
// ---------------------------------------------------------------------------

pub open spec fn valid_sid(s: StoreView, sid: int) -> bool {
    0 <= sid < s.sessions.len()
}

/// A read outside any session: the latest committed record.
pub open spec fn committed_book(s: StoreView, id: Seq<char>) -> Option<BookView> {
    lookup_book(s.committed.books, id)
}

pub open spec fn committed_user(s: StoreView, id: Seq<char>) -> Option<UserView> {
    lookup_user(s.committed.users, id)
}

pub open spec fn committed_vbook(s: StoreView, id: Seq<char>) -> Option<VersionedBookView> {
    lookup_vbook(s.committed.vbooks, id)
}

/// A read through a session: the committed record with the session's own
/// staged writes folded on top.  No other session's staged writes are ever
/// visible here.
pub open spec fn session_book(s: StoreView, sid: int, id: Seq<char>) -> Option<BookView> {
    book_after_ops(lookup_book(s.committed.books, id), id, s.sessions[sid].staged)
}

pub open spec fn session_user(s: StoreView, sid: int, id: Seq<char>) -> Option<UserView> {
    user_after_ops(lookup_user(s.committed.users, id), id, s.sessions[sid].staged)
}

pub open spec fn session_vbook(s: StoreView, sid: int, id: Seq<char>) -> Option<VersionedBookView> {
    vbook_after_ops(lookup_vbook(s.committed.vbooks, id), id, s.sessions[sid].staged)
}

// ---------------------------------------------------------------------------
// Queries over a book's author list.
// ---------------------------------------------------------------------------

/// Whether the book matches an author-membership filter: some author of the
/// book is among the given authors.  An empty filter matches no book.
pub open spec fn book_matches_authors(b: BookView, authors: Seq<Seq<char>>) -> bool {
    exists|i: int| 0 <= i < b.authors.len() && authors.contains(#[trigger] b.authors[i])
}

/// The first committed book matching the author filter, if any.
pub open spec fn first_book_matching(books: Seq<BookView>, authors: Seq<Seq<char>>) -> Option<BookView>
    decreases books.len(),
{
    if books.len() == 0 {
        None
    } else if book_matches_authors(books[0], authors) {
        Some(books[0])
    } else {
        first_book_matching(books.drop_first(), authors)
    }
}

// ---------------------------------------------------------------------------
// Record-level locks.
// ---------------------------------------------------------------------------

/// A session holds the lock on a record while a write to it is staged in
/// the session's open transaction.
pub open spec fn session_locks_key(sess: SessionView, k: KeyView) -> bool {
    sess.phase == SessionPhase::InTransaction && exists|i: int|
        0 <= i < sess.staged.len() && op_key(sess.staged[i]) == k
}

/// Whether a session other than `sid` holds the lock on `k`: writing to
/// that record now would race an open transaction and is reported as a
/// transient conflict.
pub open spec fn locked_by_other(s: StoreView, sid: int, k: KeyView) -> bool {
    exists|j: int| 0 <= j < s.sessions.len() && j != sid && session_locks_key(s.sessions[j], k)
}

/// Whether a record is locked against `sid` depends only on the other
/// sessions: two states that agree on them agree on every lock.
pub proof fn lemma_locked_by_other_same(s1: StoreView, s2: StoreView, sid: int, k: KeyView)
    requires
        s1.sessions.len() == s2.sessions.len(),
        forall|j: int| 0 <= j < s1.sessions.len() && j != sid
            ==> #[trigger] s1.sessions[j] == s2.sessions[j],
    ensures
        locked_by_other(s1, sid, k) == locked_by_other(s2, sid, k),
{
    if locked_by_other(s1, sid, k) {
        let j = choose|j: int| 0 <= j < s1.sessions.len() && j != sid
            && session_locks_key(s1.sessions[j], k);
        assert(session_locks_key(s2.sessions[j], k));
    }
    if locked_by_other(s2, sid, k) {
        let j = choose|j: int| 0 <= j < s2.sessions.len() && j != sid
            && session_locks_key(s2.sessions[j], k);
        assert(session_locks_key(s1.sessions[j], k));
    }
}

// ---------------------------------------------------------------------------
// Session transitions.
// ---------------------------------------------------------------------------

/// Start a transaction on `sid`: no staged writes, the given configuration.
pub open spec fn begin_view(s: StoreView, sid: int, opts: TxOptions) -> StoreView {
    StoreView {
        committed: s.committed,
        sessions: s.sessions.update(
            sid,
            SessionView { phase: SessionPhase::InTransaction, opts: opts, staged: Seq::empty() },
        ),
    }
}

/// Stage one write on `sid`.  The committed collections are untouched:
/// nothing of the write is visible to any other session.
pub open spec fn stage(s: StoreView, sid: int, op: OpView) -> StoreView {
    StoreView {
        committed: s.committed,
        sessions: s.sessions.update(
            sid,
            SessionView {
                phase: s.sessions[sid].phase,
                opts: s.sessions[sid].opts,
                staged: s.sessions[sid].staged.push(op),
            },
        ),
    }
}

/// Stage a whole sequence of writes on `sid`, in order.
pub open spec fn stage_all(s: StoreView, sid: int, ops: Seq<OpView>) -> StoreView
    decreases ops.len(),
{
    if ops.len() == 0 {
        s
    } else {
        stage(stage_all(s, sid, ops.drop_last()), sid, ops.last())
    }
}

/// Commit `sid`'s transaction: every staged write is applied to the
/// committed collections in one step.  On a session with no open
/// transaction this is the identity: in particular, re-committing an
/// already committed transaction applies nothing a second time.
pub open spec fn commit_view(s: StoreView, sid: int) -> StoreView {
    if s.sessions[sid].phase == SessionPhase::InTransaction {
        StoreView {
            committed: apply_ops(s.committed, s.sessions[sid].staged),
            sessions: s.sessions.update(
                sid,
                SessionView {
                    phase: SessionPhase::Committed,
                    opts: s.sessions[sid].opts,
                    staged: Seq::empty(),
                },
            ),
        }
    } else {
        s
    }
}

/// Abort `sid`'s transaction: every staged write is discarded and the
/// committed collections are untouched.  Idempotent: on a session with no
/// open transaction this is the identity.
pub open spec fn abort_view(s: StoreView, sid: int) -> StoreView {
    if s.sessions[sid].phase == SessionPhase::InTransaction {
        StoreView {
            committed: s.committed,
            sessions: s.sessions.update(
                sid,
                SessionView {
                    phase: SessionPhase::Aborted,
                    opts: s.sessions[sid].opts,
                    staged: Seq::empty(),
                },
            ),
        }
    } else {
        s
    }
}

// ---------------------------------------------------------------------------
// The optimistic conditional update, immediate (non-transactional) form.
// ---------------------------------------------------------------------------

/// Whether a conditional update presenting `expected` matches: the record
/// exists and its stored version equals the expected version.
pub open spec fn cond_update_matches(vbooks: Seq<VersionedBookView>, id: Seq<char>, expected: u64) -> bool {
    match lookup_vbook(vbooks, id) {
        Some(v) => v.version == expected,
        None => false,
    }
}

/// Result of the atomic match-then-update step: on a match the name is
/// replaced and the version advances by exactly 1; on a mismatch nothing
/// changes at all.
pub open spec fn cond_update_data(d: DataView, id: Seq<char>, expected: u64, name: Seq<char>) -> DataView {
    if cond_update_matches(d.vbooks, id, expected) {
        DataView {
            users: d.users,
            books: d.books,
            vbooks: d.vbooks.update(
                vbook_at(d.vbooks, id),
                VersionedBookView { id: id, name: name, version: (expected + 1) as u64 },
            ),
        }
    } else {
        d
    }
}

// ---------------------------------------------------------------------------
// Well-formedness.
// ---------------------------------------------------------------------------

/// Ids are unique within each committed collection.
pub open spec fn data_wf(d: DataView) -> bool {
    &&& user_ids_unique(d.users)
    &&& book_ids_unique(d.books)
    &&& vbook_ids_unique(d.vbooks)
}

/// Committed ids are unique and staged writes exist only inside an open
/// transaction.
pub open spec fn store_wf(s: StoreView) -> bool {
    &&& data_wf(s.committed)
    &&& forall|j: int| 0 <= j < s.sessions.len() && (#[trigger] s.sessions[j]).phase != SessionPhase::InTransaction
        ==> s.sessions[j].staged.len() == 0
}

// ---------------------------------------------------------------------------
// How lookups change under an in-place update or an insert.
// ---------------------------------------------------------------------------

/// Replacing the record at `i` by one with the same id changes exactly that
/// id's lookup and keeps ids unique.
pub proof fn lemma_lookup_user_update(users: Seq<UserView>, i: int, u2: UserView)
    requires
        user_ids_unique(users),
        0 <= i < users.len(),
        u2.id == users[i].id,
    ensures
        user_ids_unique(users.update(i, u2)),
        forall|id: Seq<char>| #[trigger] lookup_user(users.update(i, u2), id)
            == (if id == u2.id { Some(u2) } else { lookup_user(users, id) }),
{
    let ub = users.update(i, u2);
    assert(forall|j: int| 0 <= j < ub.len() ==> (#[trigger] ub[j]).id == users[j].id);
    assert forall|id: Seq<char>| #[trigger] lookup_user(ub, id)
        == (if id == u2.id { Some(u2) } else { lookup_user(users, id) }) by {
        if id == u2.id {
            assert(ub[i].id == id);
            assert(has_user(ub, id));
            let k = user_at(ub, id);
            assert(0 <= k < ub.len() && ub[k].id == id);
            assert(users[k].id == id && users[i].id == id);
            assert(k == i);
        } else {
            if has_user(ub, id) {
                let k = user_at(ub, id);
                assert(0 <= k < ub.len() && ub[k].id == id);
                assert(users[k].id == id);
                assert(has_user(users, id));
                let m = user_at(users, id);
                assert(0 <= m < users.len() && users[m].id == id);
                assert(m == k);
                assert(k != i);
            } else {
                if has_user(users, id) {
                    let m = user_at(users, id);
                    assert(ub[m].id == id);
                    assert(has_user(ub, id));
                }
            }
        }
    }
}

/// Appending a record with a fresh id adds exactly that id's lookup and
/// keeps ids unique.
pub proof fn lemma_lookup_user_push(users: Seq<UserView>, u: UserView)
    requires
        user_ids_unique(users),
        !has_user(users, u.id),
    ensures
        user_ids_unique(users.push(u)),
        forall|id: Seq<char>| #[trigger] lookup_user(users.push(u), id)
            == (if id == u.id { Some(u) } else { lookup_user(users, id) }),
{
    let ub = users.push(u);
    assert(forall|j: int| 0 <= j < users.len() ==> (#[trigger] ub[j]).id == users[j].id);
    assert(ub[users.len() as int] == u);
    assert forall|id: Seq<char>| #[trigger] lookup_user(ub, id)
        == (if id == u.id { Some(u) } else { lookup_user(users, id) }) by {
        let n = users.len() as int;
        if id == u.id {
            assert(ub[n].id == id);
            assert(has_user(ub, id));
            let k = user_at(ub, id);
            assert(0 <= k < ub.len() && ub[k].id == id);
            if k != n {
                assert(users[k].id == id);
                assert(has_user(users, id));
            }
        } else {
            if has_user(ub, id) {
                let k = user_at(ub, id);
                assert(0 <= k < ub.len() && ub[k].id == id);
                assert(k != n);
                assert(users[k].id == id);
                assert(has_user(users, id));
                let m = user_at(users, id);
                assert(m == k);
            } else {
                if has_user(users, id) {
                    let m = user_at(users, id);
                    assert(ub[m].id == id);
                    assert(has_user(ub, id));
                }
            }
        }
    }
}

/// See [`lemma_lookup_user_update`]; the same fact for books.
pub proof fn lemma_lookup_book_update(books: Seq<BookView>, i: int, b2: BookView)
    requires
        book_ids_unique(books),
        0 <= i < books.len(),
        b2.id == books[i].id,
    ensures
        book_ids_unique(books.update(i, b2)),
        forall|id: Seq<char>| #[trigger] lookup_book(books.update(i, b2), id)
            == (if id == b2.id { Some(b2) } else { lookup_book(books, id) }),
{
    let ub = books.update(i, b2);
    assert(forall|j: int| 0 <= j < ub.len() ==> (#[trigger] ub[j]).id == books[j].id);
    assert forall|id: Seq<char>| #[trigger] lookup_book(ub, id)
        == (if id == b2.id { Some(b2) } else { lookup_book(books, id) }) by {
        if id == b2.id {
            assert(ub[i].id == id);
            assert(has_book(ub, id));
            let k = book_at(ub, id);
            assert(0 <= k < ub.len() && ub[k].id == id);
            assert(books[k].id == id && books[i].id == id);
            assert(k == i);
        } else {
            if has_book(ub, id) {
                let k = book_at(ub, id);
                assert(0 <= k < ub.len() && ub[k].id == id);
                assert(books[k].id == id);
                assert(has_book(books, id));
                let m = book_at(books, id);
                assert(m == k);
                assert(k != i);
            } else {
                if has_book(books, id) {
                    let m = book_at(books, id);
                    assert(ub[m].id == id);
                    assert(has_book(ub, id));
                }
            }
        }
    }
}

/// See [`lemma_lookup_user_push`]; the same fact for books.
pub proof fn lemma_lookup_book_push(books: Seq<BookView>, b: BookView)
    requires
        book_ids_unique(books),
        !has_book(books, b.id),
    ensures
        book_ids_unique(books.push(b)),
        forall|id: Seq<char>| #[trigger] lookup_book(books.push(b), id)
            == (if id == b.id { Some(b) } else { lookup_book(books, id) }),
{
    let ub = books.push(b);
    assert(forall|j: int| 0 <= j < books.len() ==> (#[trigger] ub[j]).id == books[j].id);
    assert(ub[books.len() as int] == b);
    assert forall|id: Seq<char>| #[trigger] lookup_book(ub, id)
        == (if id == b.id { Some(b) } else { lookup_book(books, id) }) by {
        let n = books.len() as int;
        if id == b.id {
            assert(ub[n].id == id);
            assert(has_book(ub, id));
            let k = book_at(ub, id);
            assert(0 <= k < ub.len() && ub[k].id == id);
            if k != n {
                assert(books[k].id == id);
                assert(has_book(books, id));
            }
        } else {
            if has_book(ub, id) {
                let k = book_at(ub, id);
                assert(0 <= k < ub.len() && ub[k].id == id);
                assert(k != n);
                assert(books[k].id == id);
                assert(has_book(books, id));
                let m = book_at(books, id);
                assert(m == k);
            } else {
                if has_book(books, id) {
                    let m = book_at(books, id);
                    assert(ub[m].id == id);
                    assert(has_book(ub, id));
                }
            }
        }
    }
}

/// See [`lemma_lookup_user_update`]; the same fact for versioned books.
pub proof fn lemma_lookup_vbook_update(vbooks: Seq<VersionedBookView>, i: int, v2: VersionedBookView)
    requires
        vbook_ids_unique(vbooks),
        0 <= i < vbooks.len(),
        v2.id == vbooks[i].id,
    ensures
        vbook_ids_unique(vbooks.update(i, v2)),
        forall|id: Seq<char>| #[trigger] lookup_vbook(vbooks.update(i, v2), id)
            == (if id == v2.id { Some(v2) } else { lookup_vbook(vbooks, id) }),
{
    let ub = vbooks.update(i, v2);
    assert(forall|j: int| 0 <= j < ub.len() ==> (#[trigger] ub[j]).id == vbooks[j].id);
    assert forall|id: Seq<char>| #[trigger] lookup_vbook(ub, id)
        == (if id == v2.id { Some(v2) } else { lookup_vbook(vbooks, id) }) by {
        if id == v2.id {
            assert(ub[i].id == id);
            assert(has_vbook(ub, id));
            let k = vbook_at(ub, id);
            assert(0 <= k < ub.len() && ub[k].id == id);
            assert(vbooks[k].id == id && vbooks[i].id == id);
            assert(k == i);
        } else {
            if has_vbook(ub, id) {
                let k = vbook_at(ub, id);
                assert(0 <= k < ub.len() && ub[k].id == id);
                assert(vbooks[k].id == id);
                assert(has_vbook(vbooks, id));
                let m = vbook_at(vbooks, id);
                assert(m == k);
                assert(k != i);
            } else {
                if has_vbook(vbooks, id) {
                    let m = vbook_at(vbooks, id);
                    assert(ub[m].id == id);
                    assert(has_vbook(ub, id));
                }
            }
        }
    }
}

/// See [`lemma_lookup_user_push`]; the same fact for versioned books.
pub proof fn lemma_lookup_vbook_push(vbooks: Seq<VersionedBookView>, v: VersionedBookView)
    requires
        vbook_ids_unique(vbooks),
        !has_vbook(vbooks, v.id),
    ensures
        vbook_ids_unique(vbooks.push(v)),
        forall|id: Seq<char>| #[trigger] lookup_vbook(vbooks.push(v), id)
            == (if id == v.id { Some(v) } else { lookup_vbook(vbooks, id) }),
{
    let ub = vbooks.push(v);
    assert(forall|j: int| 0 <= j < vbooks.len() ==> (#[trigger] ub[j]).id == vbooks[j].id);
    assert(ub[vbooks.len() as int] == v);
    assert forall|id: Seq<char>| #[trigger] lookup_vbook(ub, id)
        == (if id == v.id { Some(v) } else { lookup_vbook(vbooks, id) }) by {
        let n = vbooks.len() as int;
        if id == v.id {
            assert(ub[n].id == id);
            assert(has_vbook(ub, id));
            let k = vbook_at(ub, id);
            assert(0 <= k < ub.len() && ub[k].id == id);
            if k != n {
                assert(vbooks[k].id == id);
                assert(has_vbook(vbooks, id));
            }
        } else {
            if has_vbook(ub, id) {
                let k = vbook_at(ub, id);
                assert(0 <= k < ub.len() && ub[k].id == id);
                assert(k != n);
                assert(vbooks[k].id == id);
                assert(has_vbook(vbooks, id));
                let m = vbook_at(vbooks, id);
                assert(m == k);
            } else {
                if has_vbook(vbooks, id) {
                    let m = vbook_at(vbooks, id);
                    assert(ub[m].id == id);
                    assert(has_vbook(ub, id));
                }
            }
        }
    }
}

/// With unique ids, an index whose record carries `id` is the index every
/// lookup of `id` resolves to.
pub proof fn lemma_user_at_is(users: Seq<UserView>, id: Seq<char>, i: int)
    requires
        user_ids_unique(users),
        0 <= i < users.len(),
        users[i].id == id,
    ensures
        has_user(users, id),
        user_at(users, id) == i,
        lookup_user(users, id) == Some(users[i]),
{
    assert(has_user(users, id));
    let k = user_at(users, id);
    assert(0 <= k < users.len() && users[k].id == id);
    assert(k == i);
}

/// See [`lemma_user_at_is`]; the same fact for books.
pub proof fn lemma_book_at_is(books: Seq<BookView>, id: Seq<char>, i: int)
    requires
        book_ids_unique(books),
        0 <= i < books.len(),
        books[i].id == id,
    ensures
        has_book(books, id),
        book_at(books, id) == i,
        lookup_book(books, id) == Some(books[i]),
{
    assert(has_book(books, id));
    let k = book_at(books, id);
    assert(0 <= k < books.len() && books[k].id == id);
    assert(k == i);
}

/// See [`lemma_user_at_is`]; the same fact for versioned books.
pub proof fn lemma_vbook_at_is(vbooks: Seq<VersionedBookView>, id: Seq<char>, i: int)
    requires
        vbook_ids_unique(vbooks),
        0 <= i < vbooks.len(),
        vbooks[i].id == id,
    ensures
        has_vbook(vbooks, id),
        vbook_at(vbooks, id) == i,
        lookup_vbook(vbooks, id) == Some(vbooks[i]),
{
    assert(has_vbook(vbooks, id));
    let k = vbook_at(vbooks, id);
    assert(0 <= k < vbooks.len() && vbooks[k].id == id);
    assert(k == i);
}

/// Applying one staged write keeps ids unique in every collection.
pub proof fn lemma_apply_op_wf(d: DataView, op: OpView)
    requires
        data_wf(d),
    ensures
        data_wf(apply_op(d, op)),
{
    match op {
        OpView::PushReview { book_id, review } => {
            if has_book(d.books, book_id) {
                let i = book_at(d.books, book_id);
                assert(0 <= i < d.books.len() && d.books[i].id == book_id);
                lemma_lookup_book_update(d.books, i, with_review(d.books[i], review));
            }
        },
        OpView::PushReviewedBookId { user_id, book_id } => {
            if has_user(d.users, user_id) {
                let i = user_at(d.users, user_id);
                assert(0 <= i < d.users.len() && d.users[i].id == user_id);
                lemma_lookup_user_update(d.users, i, with_reviewed_book(d.users[i], book_id));
            }
        },
        OpView::SetUserName { user_id, name } => {
            if has_user(d.users, user_id) {
                let i = user_at(d.users, user_id);
                assert(0 <= i < d.users.len() && d.users[i].id == user_id);
                lemma_lookup_user_update(d.users, i, with_user_name(d.users[i], name));
            }
        },
        OpView::InsertBook { book } => {
            if !has_book(d.books, book.id) {
                lemma_lookup_book_push(d.books, book);
            }
        },
        OpView::SetVersionedBook { book_id, name, new_version } => {
            if has_vbook(d.vbooks, book_id) {
                let i = vbook_at(d.vbooks, book_id);
                assert(0 <= i < d.vbooks.len() && d.vbooks[i].id == book_id);
                lemma_lookup_vbook_update(d.vbooks, i,
                    VersionedBookView { id: book_id, name: name, version: new_version });
            }
        },
    }
}

/// Unfoldings of [`apply_ops`] on the empty, one-write and two-write
/// schedules.
pub proof fn lemma_apply_ops_pair(d: DataView, op1: OpView, op2: OpView)
    ensures
        apply_ops(d, Seq::<OpView>::empty()) == d,
        apply_ops(d, seq![op1]) == apply_op(d, op1),
        apply_ops(d, seq![op1, op2]) == apply_op(apply_op(d, op1), op2),
{
    assert(seq![op1].drop_last() =~= Seq::<OpView>::empty());
    assert(seq![op1, op2].drop_last() =~= seq![op1]);
    assert(seq![op1].last() == op1);
    assert(seq![op1, op2].last() == op2);
    assert(apply_ops(d, seq![op1])
        == apply_op(apply_ops(d, seq![op1].drop_last()), op1));
    assert(apply_ops(d, seq![op1, op2])
        == apply_op(apply_ops(d, seq![op1, op2].drop_last()), op2));
}

} // verus!
