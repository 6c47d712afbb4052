//! The record model: plain data records with a stable, caller-assigned
//! string identifier.  `VersionedBook` additionally carries the version
//! counter the optimistic lock driver conditions its updates on.
//!
//! Each record type has a mathematical view (`...View`) over sequences of
//! characters; every contract in the crate speaks of those views.  The
//! store owns the persisted copies, so reads hand out fresh copies; the
//! `Clone` implementations are written by hand to guarantee that a copy's
//! view equals the original's.
use vstd::prelude::*;

verus! {

/// Mathematical view of a [`Review`].
#[verifier::ext_equal]
pub ghost struct ReviewView {
    pub user_id: Seq<char>,
    pub text: Seq<char>,
}

/// A review embedded in a book: who wrote it and what it says.
#[derive(Debug)]
pub struct Review {
    pub user_id: String,
    pub text: String,
}

impl View for Review {
    type V = ReviewView;

    open spec fn view(&self) -> ReviewView {
        ReviewView { user_id: self.user_id@, text: self.text@ }
    }
}

impl DeepView for Review {
    type V = ReviewView;

    open spec fn deep_view(&self) -> ReviewView {
        self.view()
    }
}

impl Clone for Review {
    fn clone(&self) -> (r: Self)
        ensures
            r@ == self@,
    {
        Review { user_id: self.user_id.clone(), text: self.text.clone() }
    }
}

/// Mathematical view of a [`User`].
#[verifier::ext_equal]
pub ghost struct UserView {
    pub id: Seq<char>,
    pub name: Seq<char>,
    pub reviewed_book_ids: Seq<Seq<char>>,
}

/// A user record: identifier, display name, and the append-only list of
/// book identifiers the user has reviewed.
#[derive(Debug)]
pub struct User {
    pub id: String,
    pub name: String,
    pub reviewed_book_ids: Vec<String>,
}

impl View for User {
    type V = UserView;

    open spec fn view(&self) -> UserView {
        UserView {
            id: self.id@,
            name: self.name@,
            reviewed_book_ids: self.reviewed_book_ids.deep_view(),
        }
    }
}

impl DeepView for User {
    type V = UserView;

    open spec fn deep_view(&self) -> UserView {
        self.view()
    }
}

impl Clone for User {
    fn clone(&self) -> (r: Self)
        ensures
            r@ == self@,
    {
        let ids = self.reviewed_book_ids.clone();
        proof {
            assert(ids.deep_view() =~= self.reviewed_book_ids.deep_view());
        }
        User { id: self.id.clone(), name: self.name.clone(), reviewed_book_ids: ids }
    }
}

/// Mathematical view of a [`Book`].
#[verifier::ext_equal]
pub ghost struct BookView {
    pub id: Seq<char>,
    pub name: Seq<char>,
    pub reviews: Seq<ReviewView>,
    pub authors: Seq<Seq<char>>,
    pub supervisors: Seq<Seq<char>>,
}

/// A book record: identifier, title, embedded reviews, and auxiliary
/// author and supervisor lists.
#[derive(Debug)]
pub struct Book {
    pub id: String,
    pub name: String,
    pub reviews: Vec<Review>,
    pub authors: Vec<String>,
    pub supervisors: Vec<String>,
}

impl View for Book {
    type V = BookView;

    open spec fn view(&self) -> BookView {
        BookView {
            id: self.id@,
            name: self.name@,
            reviews: self.reviews.deep_view(),
            authors: self.authors.deep_view(),
            supervisors: self.supervisors.deep_view(),
        }
    }
}

impl DeepView for Book {
    type V = BookView;

    open spec fn deep_view(&self) -> BookView {
        self.view()
    }
}

impl Clone for Book {
    fn clone(&self) -> (r: Self)
        ensures
            r@ == self@,
    {
        let reviews = self.reviews.clone();
        let authors = self.authors.clone();
        let supervisors = self.supervisors.clone();
        proof {
            assert(reviews.deep_view() =~= self.reviews.deep_view());
            assert(authors.deep_view() =~= self.authors.deep_view());
            assert(supervisors.deep_view() =~= self.supervisors.deep_view());
        }
        Book {
            id: self.id.clone(),
            name: self.name.clone(),
            reviews,
            authors,
            supervisors,
        }
    }
}

/// Mathematical view of a [`VersionedBook`].
#[verifier::ext_equal]
pub ghost struct VersionedBookView {
    pub id: Seq<char>,
    pub name: Seq<char>,
    pub version: u64,
}

/// A book record under optimistic locking: the `version` counter starts at
/// 1 and increases by exactly 1 on every successful conditional update.
#[derive(Debug)]
pub struct VersionedBook {
    pub id: String,
    pub name: String,
    pub version: u64,
}

impl View for VersionedBook {
    type V = VersionedBookView;

    open spec fn view(&self) -> VersionedBookView {
        VersionedBookView { id: self.id@, name: self.name@, version: self.version }
    }
}

impl DeepView for VersionedBook {
    type V = VersionedBookView;

    open spec fn deep_view(&self) -> VersionedBookView {
        self.view()
    }
}

impl Clone for VersionedBook {
    fn clone(&self) -> (r: Self)
        ensures
            r@ == self@,
    {
        VersionedBook { id: self.id.clone(), name: self.name.clone(), version: self.version }
    }
}

} // verus!
