use vstd::prelude::*;

verus! {

/// Opaque identifier of a catalog item (a book).
#[derive(Clone, Copy, PartialEq, Eq, Structural, Hash, Debug)]
pub struct BookId(pub u64);

/// Opaque identifier of a borrower.
#[derive(Clone, Copy, PartialEq, Eq, Structural, Hash, Debug)]
pub struct UserId(pub u64);

/// Opaque identifier of one checkout record, open or closed.
#[derive(Clone, Copy, PartialEq, Eq, Structural, Hash, Debug)]
pub struct CheckoutId(pub u64);

} // verus!
