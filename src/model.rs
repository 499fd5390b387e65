use vstd::prelude::*;

verus! {

/// Identifiers are 128-bit values (the integer form of a UUID).
pub type UserId = u128;
pub type BookId = u128;
pub type CheckoutId = u128;

/// A registered user.
#[derive(Debug)]
pub struct User {
    pub id: UserId,
    pub name: String,
    pub email: String,
    pub password: String,
}

pub struct CreateUser {
    pub name: String,
    pub email: String,
    pub password: String,
}

pub struct CreateBook {
    pub title: String,
    pub author: String,
    pub isbn: String,
    pub description: String,
}

pub struct UpdateBook {
    pub book_id: BookId,
    pub title: String,
    pub author: String,
    pub isbn: String,
    pub description: String,
    pub requested_user: UserId,
}

pub struct DeleteBook {
    pub book_id: BookId,
    pub requested_user: UserId,
}

pub struct BookListOptions {
    pub limit: i64,
    pub offset: i64,
}

#[derive(Debug)]
pub struct BookOwner {
    pub id: UserId,
    pub name: String,
}

#[derive(Debug)]
pub struct CheckoutUser {
    pub id: UserId,
}

/// The open checkout of a book, as a book reports it.
#[derive(Debug)]
pub struct BookCheckout {
    pub checkout_id: CheckoutId,
    pub checked_out_by: CheckoutUser,
    pub checked_out_at: i64,
}

/// A book as the repository hands it out: its own fields, its owner, and its
/// open checkout if there is one.
#[derive(Debug)]
pub struct Book {
    pub id: BookId,
    pub title: String,
    pub author: String,
    pub isbn: String,
    pub description: String,
    pub owner: BookOwner,
    pub checkout: Option<BookCheckout>,
}

/// One page of a listing, with the size of the whole listing.
#[derive(Debug)]
pub struct PaginatedList<T> {
    pub total: i64,
    pub limit: i64,
    pub offset: i64,
    pub items: Vec<T>,
}

impl<T> PaginatedList<T> {
    pub fn into_inner(self) -> (v: Vec<T>)
        ensures
            v@ == self.items@,
    {
        self.items
    }
}

pub struct CreateCheckout {
    pub book_id: BookId,
    pub checked_out_by: UserId,
    pub checked_out_at: i64,
}

pub struct UpdateReturned {
    pub checkout_id: CheckoutId,
    pub book_id: BookId,
    pub returned_by: UserId,
    pub returned_at: i64,
}

/// A stored book row; rows are kept in order of creation.
#[derive(Debug)]
pub struct BookRow {
    pub id: BookId,
    pub title: String,
    pub author: String,
    pub isbn: String,
    pub description: String,
    pub owner_id: UserId,
}

/// A stored checkout row; `returned` holds who returned it and when.
#[derive(Debug)]
pub struct CheckoutRow {
    pub checkout_id: CheckoutId,
    pub book_id: BookId,
    pub checked_out_by: UserId,
    pub checked_out_at: i64,
    pub returned: Option<(UserId, i64)>,
}

impl CheckoutRow {
    pub open spec fn is_open(&self) -> bool {
        self.returned is None
    }
}

impl BookRow {
    pub fn duplicate(&self) -> (r: BookRow)
        ensures
            r == *self,
    {
        BookRow {
            id: self.id,
            title: self.title.clone(),
            author: self.author.clone(),
            isbn: self.isbn.clone(),
            description: self.description.clone(),
            owner_id: self.owner_id,
        }
    }
}

impl User {
    pub fn duplicate(&self) -> (r: User)
        ensures
            r == *self,
    {
        User {
            id: self.id,
            name: self.name.clone(),
            email: self.email.clone(),
            password: self.password.clone(),
        }
    }
}

} // verus!
