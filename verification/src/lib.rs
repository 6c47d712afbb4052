//! Client-side coordination logic for multi-record updates against a
//! replicated, transactional document store.
//!
//! The crate models the store interface a coordinator relies on — sessions,
//! snapshot-isolated transactions, conditional (optimistically locked)
//! updates — and verifies the two conflict-resolution strategies built on
//! top of it: a transaction retry driver and an optimistic lock driver.
use vstd::prelude::*;

pub mod driver;
pub mod laws;
pub mod model;
pub mod outcome;
pub mod records;
pub mod retry;
pub mod scenario;
pub mod store;

verus! {

/// Shorthand used throughout the fixtures: an owned copy of a string slice.
pub fn s(text: &str) -> (r: String)
    ensures
        r@ == text@,
{
    text.to_owned()
}

} // verus!
