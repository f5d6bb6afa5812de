use crate::checkout::Checkout;
use crate::id::BookId;
use vstd::prelude::*;

verus! {

/// A catalog row: the item itself. Only existence and the fields needed to
/// render a record matter to the checkout subsystem.
#[derive(Clone, Debug)]
pub struct BookRecord {
    pub book_id: BookId,
    pub title: String,
    pub author: String,
    pub isbn: String,
    pub description: String,
}

/// A catalog item as handed back to callers, together with its open loan if
/// one exists.
#[derive(Clone, Debug)]
pub struct Book {
    pub id: BookId,
    pub title: String,
    pub author: String,
    pub isbn: String,
    pub description: String,
    pub checkout: Option<Checkout>,
}

/// Request to register a new catalog item.
#[derive(Clone, Debug)]
pub struct CreateBook {
    pub title: String,
    pub author: String,
    pub isbn: String,
    pub description: String,
}

/// Request to overwrite the fields of an existing catalog item.
#[derive(Clone, Debug)]
pub struct UpdateBook {
    pub book_id: BookId,
    pub title: String,
    pub author: String,
    pub isbn: String,
    pub description: String,
}

/// Request to remove a catalog item.
#[derive(Clone, Copy, Debug)]
pub struct DeleteBook {
    pub book_id: BookId,
}

} // verus!
