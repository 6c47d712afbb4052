use txcoord::driver::{add_review_transaction, commit_with_retry};
use txcoord::outcome::{StoreError, TxOptions, UpdateOutcome};
use txcoord::records::{Book, User, VersionedBook};
use txcoord::s;
use txcoord::scenario::{
    abort_scenario, add_reviews_scenario, locking_conflict_scenario, optimistic_conflict_scenario,
};
use txcoord::store::Store;

fn user(id: &str, name: &str) -> User {
    User { id: s(id), name: s(name), reviewed_book_ids: vec![] }
}

fn book(id: &str, name: &str) -> Book {
    Book { id: s(id), name: s(name), reviews: vec![], authors: vec![], supervisors: vec![] }
}

fn vbook(id: &str, name: &str, version: u64) -> VersionedBook {
    VersionedBook { id: s(id), name: s(name), version }
}

fn seeded_store() -> Store {
    let mut store = Store::new();
    store
        .seed_users(vec![user("user_1", "john"), user("user_2", "anna"), user("user_3", "joseph")])
        .unwrap();
    store
        .seed_books(vec![book("book_1", "The Hitchhiker's Guide to Somewhere")])
        .unwrap();
    store
}

#[test]
fn seed_and_find_users() {
    let store = seeded_store();
    let found = store.find_user(&s("user_1")).unwrap();
    assert_eq!(found.id, s("user_1"));
    assert_eq!(found.name, s("john"));
    assert!(found.reviewed_book_ids.is_empty());
    assert!(store.find_user(&s("user_9")).is_none());
}

#[test]
fn insert_duplicate_user_is_permanent_error() {
    let mut store = seeded_store();
    let r = store.insert_user(user("user_1", "impostor"));
    assert_eq!(r, Err(StoreError::PermanentStoreError));
    assert_eq!(store.find_user(&s("user_1")).unwrap().name, s("john"));
}

#[test]
fn seed_with_duplicate_ids_fails() {
    let mut store = Store::new();
    let r = store.seed_users(vec![user("u", "a"), user("u", "b")]);
    assert_eq!(r, Err(StoreError::PermanentStoreError));
}

#[test]
fn begin_twice_is_protocol_misuse() {
    let mut store = seeded_store();
    let sid = store.open_session();
    assert_eq!(store.begin_transaction(sid, TxOptions::majority()), Ok(()));
    assert_eq!(
        store.begin_transaction(sid, TxOptions::majority()),
        Err(StoreError::ProtocolMisuse)
    );
}

#[test]
fn commit_without_transaction_is_protocol_misuse() {
    let mut store = seeded_store();
    let sid = store.open_session();
    assert_eq!(store.commit(sid, true), Err(StoreError::ProtocolMisuse));
}

#[test]
fn write_outside_transaction_is_protocol_misuse() {
    let mut store = seeded_store();
    let sid = store.open_session();
    let r = store.push_review(sid, &s("book_1"), &s("user_2"), &s("Good reading"));
    assert_eq!(r, Err(StoreError::ProtocolMisuse));
}

#[test]
fn snapshot_isolation_mid_transaction() {
    let mut store = seeded_store();
    let sid = store.open_session();
    store.begin_transaction(sid, TxOptions::majority()).unwrap();
    let r = store
        .push_review(sid, &s("book_1"), &s("user_2"), &s("Good reading"))
        .unwrap();
    assert_eq!(r, UpdateOutcome { matched_count: 1, modified_count: 1 });

    // Another session sees no staged write.
    let other = store.find_book(&s("book_1")).unwrap();
    assert_eq!(other.reviews.len(), 0);

    // The writing session sees its own staged write.
    let own = store.find_book_in_session(sid, &s("book_1")).unwrap();
    assert_eq!(own.reviews.len(), 1);
    assert_eq!(own.reviews[0].user_id, s("user_2"));
}

#[test]
fn commit_makes_both_updates_visible() {
    let mut store = Store::new();
    let report = add_reviews_scenario(
        &mut store,
        &s("user_2"),
        &s("anna"),
        &s("book_1"),
        &s("The Hitchhiker's Guide to Somewhere"),
        &s("Good reading"),
        &vec![],
    );
    let mid_book = report.mid_book.unwrap();
    let mid_user = report.mid_user.unwrap();
    assert_eq!(mid_book.reviews.len(), 0);
    assert_eq!(mid_user.reviewed_book_ids.len(), 0);

    let final_book = report.final_book.unwrap();
    let final_user = report.final_user.unwrap();
    assert_eq!(final_book.reviews.len(), 1);
    assert_eq!(final_book.reviews[0].user_id, s("user_2"));
    assert_eq!(final_book.reviews[0].text, s("Good reading"));
    assert_eq!(final_user.reviewed_book_ids, vec![s("book_1")]);
}

#[test]
fn abort_nullifies_staged_writes() {
    let mut store = Store::new();
    let report = abort_scenario(&mut store, &s("book_fake"), &s("ABC book"));
    let own = report.own_read.unwrap();
    assert_eq!(own.id, s("book_fake"));
    assert!(report.mid_read.is_none());
    assert!(report.final_read.is_none());
    assert!(store.find_book(&s("book_fake")).is_none());
}

#[test]
fn abort_is_idempotent() {
    let mut store = seeded_store();
    let sid = store.open_session();
    store.begin_transaction(sid, TxOptions::majority()).unwrap();
    store
        .push_review(sid, &s("book_1"), &s("user_2"), &s("Good reading"))
        .unwrap();
    store.abort(sid);
    store.abort(sid);
    assert_eq!(store.find_book(&s("book_1")).unwrap().reviews.len(), 0);
    // Committing an aborted transaction is refused, and aborting again
    // after that failed commit is still safe.
    assert_eq!(store.commit(sid, true), Err(StoreError::ProtocolMisuse));
    store.abort(sid);
}

#[test]
fn conditional_update_success_increments_version() {
    let mut store = Store::new();
    store
        .seed_versioned_books(vec![vbook("book_1", "john", 1), vbook("book_2", "anna", 1)])
        .unwrap();
    let sid = store.open_session();
    let r = store
        .conditional_update(sid, &s("book_1"), 1, &s("renamed"))
        .unwrap();
    assert_eq!(r, UpdateOutcome { matched_count: 1, modified_count: 1 });
    let b = store.find_versioned_book(&s("book_1")).unwrap();
    assert_eq!(b.version, 2);
    assert_eq!(b.name, s("renamed"));
    // The other record is untouched.
    let other = store.find_versioned_book(&s("book_2")).unwrap();
    assert_eq!(other.version, 1);
    assert_eq!(other.name, s("anna"));
}

#[test]
fn conditional_update_stale_version_has_no_effect() {
    let mut store = Store::new();
    store.seed_versioned_books(vec![vbook("book_1", "john", 3)]).unwrap();
    let sid = store.open_session();
    let r = store.conditional_update(sid, &s("book_1"), 1, &s("stale")).unwrap();
    assert_eq!(r, UpdateOutcome { matched_count: 0, modified_count: 0 });
    let b = store.find_versioned_book(&s("book_1")).unwrap();
    assert_eq!(b.version, 3);
    assert_eq!(b.name, s("john"));
}

#[test]
fn conditional_update_missing_record_matches_nothing() {
    let mut store = Store::new();
    let sid = store.open_session();
    let r = store.conditional_update(sid, &s("book_9"), 1, &s("x")).unwrap();
    assert_eq!(r, UpdateOutcome { matched_count: 0, modified_count: 0 });
}

#[test]
fn conditional_update_inside_transaction_stages() {
    let mut store = Store::new();
    store.seed_versioned_books(vec![vbook("book_1", "john", 1)]).unwrap();
    let sid = store.open_session();
    store.begin_transaction(sid, TxOptions::majority()).unwrap();
    let r = store.conditional_update(sid, &s("book_1"), 1, &s("staged")).unwrap();
    assert_eq!(r, UpdateOutcome { matched_count: 1, modified_count: 1 });
    // Not visible outside the session until commit.
    assert_eq!(store.find_versioned_book(&s("book_1")).unwrap().version, 1);
    assert_eq!(store.commit(sid, true), Ok(()));
    let b = store.find_versioned_book(&s("book_1")).unwrap();
    assert_eq!(b.version, 2);
    assert_eq!(b.name, s("staged"));
}

#[test]
fn ambiguous_commit_retry_applies_writes_once() {
    let mut store = seeded_store();
    let sid = store.open_session();
    store.begin_transaction(sid, TxOptions::majority()).unwrap();
    store
        .push_review(sid, &s("book_1"), &s("user_2"), &s("Good reading"))
        .unwrap();
    // The acknowledgment of the first commit is lost.
    assert_eq!(store.commit(sid, false), Err(StoreError::AmbiguousCommitResult));
    // Retrying the commit is safe and applies nothing a second time.
    assert_eq!(store.commit(sid, true), Ok(()));
    assert_eq!(store.commit(sid, true), Ok(()));
    assert_eq!(store.find_book(&s("book_1")).unwrap().reviews.len(), 1);
}

#[test]
fn commit_with_retry_survives_lost_acks() {
    let mut store = Store::new();
    let report = add_reviews_scenario(
        &mut store,
        &s("user_2"),
        &s("anna"),
        &s("book_1"),
        &s("The Hitchhiker's Guide to Somewhere"),
        &s("Good reading"),
        &vec![true, true, true],
    );
    assert_eq!(report.final_book.unwrap().reviews.len(), 1);
    assert_eq!(report.final_user.unwrap().reviewed_book_ids.len(), 1);
}

#[test]
fn commit_with_retry_without_transaction_is_protocol_misuse() {
    let mut store = seeded_store();
    let sid = store.open_session();
    let r = commit_with_retry(&mut store, sid, &vec![true]);
    assert_eq!(r, Err(StoreError::ProtocolMisuse));
}

#[test]
fn optimistic_race_scenario() {
    let mut store = Store::new();
    let report = optimistic_conflict_scenario(
        &mut store,
        &s("book_1"),
        &s("john"),
        &s("A"),
        &s("B"),
        &s("C"),
        &vec![true],
    );
    assert_eq!(report.writer_outcome, UpdateOutcome { matched_count: 1, modified_count: 1 });
    let seen_mid_race = report.racer_read.unwrap();
    assert_eq!(seen_mid_race.version, 1);
    assert_eq!(seen_mid_race.name, s("john"));
    assert_eq!(report.racer_result, Err(StoreError::TransientConflict));
    let seen_late = report.late_read.unwrap();
    assert_eq!(seen_late.version, 2);
    assert_eq!(seen_late.name, s("A"));
    assert_eq!(report.late_outcome, UpdateOutcome { matched_count: 0, modified_count: 0 });
    let stored = report.final_book.unwrap();
    assert_eq!(stored.name, s("A"));
    assert_eq!(stored.version, 2);
}

#[test]
fn locking_race_scenario() {
    let mut store = Store::new();
    let report = locking_conflict_scenario(
        &mut store,
        &s("user_1"),
        &s("john"),
        &s("update_in_session1"),
        &s("update_in_session2"),
        &vec![],
    );
    assert_eq!(report.first_write, UpdateOutcome { matched_count: 1, modified_count: 1 });
    assert_eq!(report.racer_result, Err(StoreError::TransientConflict));
    assert_eq!(report.final_user.unwrap().name, s("update_in_session1"));
}

#[test]
fn transaction_driver_succeeds_without_contention() {
    let mut store = seeded_store();
    let sid = store.open_session();
    let r = add_review_transaction(
        &mut store,
        sid,
        &s("user_2"),
        &s("book_1"),
        &s("Good reading"),
        3,
        &vec![true],
    );
    assert_eq!(r, Ok(()));
    assert_eq!(store.find_book(&s("book_1")).unwrap().reviews.len(), 1);
    assert_eq!(store.find_user(&s("user_2")).unwrap().reviewed_book_ids, vec![s("book_1")]);
}

#[test]
fn transaction_driver_reports_transient_conflict() {
    let mut store = seeded_store();
    // A competing session holds the book through an open transaction.
    let holder = store.open_session();
    store.begin_transaction(holder, TxOptions::majority()).unwrap();
    store
        .push_review(holder, &s("book_1"), &s("user_1"), &s("mine first"))
        .unwrap();

    let sid = store.open_session();
    let r = add_review_transaction(
        &mut store,
        sid,
        &s("user_2"),
        &s("book_1"),
        &s("Good reading"),
        2,
        &vec![],
    );
    assert_eq!(r, Err(StoreError::TransientConflict));
    assert_eq!(store.find_book(&s("book_1")).unwrap().reviews.len(), 0);
    assert_eq!(store.find_user(&s("user_2")).unwrap().reviewed_book_ids.len(), 0);
}

#[test]
fn transaction_driver_refuses_open_transaction() {
    let mut store = seeded_store();
    let sid = store.open_session();
    store.begin_transaction(sid, TxOptions::majority()).unwrap();
    let r = add_review_transaction(&mut store, sid, &s("user_2"), &s("book_1"), &s("text"), 1, &vec![]);
    assert_eq!(r, Err(StoreError::ProtocolMisuse));
}

#[test]
fn push_review_on_missing_book_matches_nothing() {
    let mut store = seeded_store();
    let sid = store.open_session();
    store.begin_transaction(sid, TxOptions::majority()).unwrap();
    let r = store.push_review(sid, &s("book_9"), &s("user_2"), &s("text")).unwrap();
    assert_eq!(r, UpdateOutcome { matched_count: 0, modified_count: 0 });
    store.abort(sid);
}

#[test]
fn author_membership_queries() {
    let mut store = Store::new();
    store
        .seed_books(vec![Book {
            id: s("book_with_authors"),
            name: s("some book"),
            reviews: vec![],
            authors: vec![s("author_1"), s("author_2")],
            supervisors: vec![],
        }])
        .unwrap();

    let by_id = store.find_book(&s("book_with_authors")).unwrap();
    assert_eq!(by_id.name, s("some book"));
    assert_eq!(by_id.authors, vec![s("author_1"), s("author_2")]);

    let hit = store.find_first_book_with_author_in(&vec![s("author_1")]);
    assert_eq!(hit.unwrap().id, s("book_with_authors"));

    let miss = store.find_first_book_with_author_in(&vec![s("imaginary_author_1")]);
    assert!(miss.is_none());

    // An empty membership list matches nothing.
    let empty_first = store.find_first_book_with_author_in(&vec![]);
    assert!(empty_first.is_none());
    let empty_all = store.find_books_with_author_in(&vec![]);
    assert!(empty_all.is_empty());

    let all = store.find_books_with_author_in(&vec![s("author_2")]);
    assert_eq!(all.len(), 1);
    assert_eq!(all[0].id, s("book_with_authors"));
}

#[test]
fn drop_collections_empties_them() {
    let mut store = seeded_store();
    store.drop_users();
    store.drop_books();
    assert!(store.find_user(&s("user_1")).is_none());
    assert!(store.find_book(&s("book_1")).is_none());
}
