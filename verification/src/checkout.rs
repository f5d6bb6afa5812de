use crate::id::{BookId, CheckoutId, UserId};
use vstd::prelude::*;

verus! {

/// A row of the open-checkouts table: an active, unreturned loan of one item
/// to one borrower. Created by the open operation, destroyed (converted to a
/// [`ClosedCheckout`]) by the return operation, never mutated in place.
#[derive(Clone, Copy, PartialEq, Eq, Structural, Debug)]
pub struct OpenCheckout {
    pub checkout_id: CheckoutId,
    pub book_id: BookId,
    pub user_id: UserId,
    pub checked_out_at: u64,
}

/// A row of the returned-checkouts table: the append-only record of a
/// completed loan. Written exactly once, at the moment of return, from the
/// matching [`OpenCheckout`]'s fields plus the return timestamp.
#[derive(Clone, Copy, PartialEq, Eq, Structural, Debug)]
pub struct ClosedCheckout {
    pub checkout_id: CheckoutId,
    pub book_id: BookId,
    pub user_id: UserId,
    pub checked_out_at: u64,
    pub returned_at: u64,
}

/// One entry of a listing or of an item's history: a loan that is still open
/// (`returned_at` is `None`) or already returned.
#[derive(Clone, Copy, PartialEq, Eq, Debug)]
pub struct Checkout {
    pub checkout_id: CheckoutId,
    pub book_id: BookId,
    pub user_id: UserId,
    pub checked_out_at: u64,
    pub returned_at: Option<u64>,
}

/// Request to open a checkout: which item, which borrower, when.
#[derive(Clone, Copy, Debug)]
pub struct CreateCheckout {
    pub book_id: BookId,
    pub checked_out_by: UserId,
    pub checked_out_at: u64,
}

/// Request to close (return) a checkout. The return may only close the exact
/// open checkout it names: both `checkout_id` and `returned_by` must match.
#[derive(Clone, Copy, Debug)]
pub struct UpdateReturned {
    pub checkout_id: CheckoutId,
    pub book_id: BookId,
    pub returned_by: UserId,
    pub returned_at: u64,
}

/// The listing entry an open loan renders as.
pub open spec fn open_to_checkout(o: OpenCheckout) -> Checkout {
    Checkout {
        checkout_id: o.checkout_id,
        book_id: o.book_id,
        user_id: o.user_id,
        checked_out_at: o.checked_out_at,
        returned_at: None,
    }
}

/// The listing entry a completed loan renders as.
pub open spec fn closed_to_checkout(c: ClosedCheckout) -> Checkout {
    Checkout {
        checkout_id: c.checkout_id,
        book_id: c.book_id,
        user_id: c.user_id,
        checked_out_at: c.checked_out_at,
        returned_at: Some(c.returned_at),
    }
}

} // verus!
