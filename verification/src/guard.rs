use crate::error::AppError;
use crate::id::{BookId, CheckoutId, UserId};
use crate::store::StoreModel;
use vstd::prelude::*;

verus! {

/// What the guard's single read sees: the outer join of one catalog item with
/// its open checkout. `None` for the whole row when the item does not exist;
/// `None` in the two optional columns when no open checkout exists for it.
#[derive(Clone, Copy, Debug)]
pub struct CheckoutStateRow {
    pub book_id: BookId,
    pub checkout_id: Option<CheckoutId>,
    pub user_id: Option<UserId>,
}

/// What the guard decides: go on to the mutation, or reject with a
/// definitive domain error.
#[derive(Clone, Copy, Debug)]
pub enum GuardDecision {
    Continue,
    Reject(AppError),
}

/// The row the guard's read returns on the current state.
pub open spec fn state_row_view(m: StoreModel, book_id: BookId) -> Option<CheckoutStateRow> {
    if !m.book_exists(book_id) {
        None
    } else if m.has_open(book_id) {
        Some(
            CheckoutStateRow {
                book_id,
                checkout_id: Some(m.open_row(book_id).checkout_id),
                user_id: Some(m.open_row(book_id).user_id),
            },
        )
    } else {
        Some(CheckoutStateRow { book_id, checkout_id: None, user_id: None })
    }
}

/// The open guard's decision on the row it read: the item must exist and must
/// not already be checked out.
pub open spec fn open_guard_decision(state: Option<CheckoutStateRow>) -> GuardDecision {
    match state {
        None => GuardDecision::Reject(AppError::ItemNotFound),
        Some(row) => match row.checkout_id {
            Some(_) => GuardDecision::Reject(AppError::AlreadyCheckedOut),
            None => GuardDecision::Continue,
        },
    }
}

/// The return guard's decision on the row it read: the item must exist, an
/// open checkout must exist for it, and the request must name exactly that
/// checkout and its borrower.
pub open spec fn return_guard_decision(
    state: Option<CheckoutStateRow>,
    checkout_id: CheckoutId,
    returned_by: UserId,
) -> GuardDecision {
    match state {
        None => GuardDecision::Reject(AppError::ItemNotFound),
        Some(row) => match (row.checkout_id, row.user_id) {
            (Some(c), Some(u)) => if c != checkout_id || u != returned_by {
                GuardDecision::Reject(AppError::CheckoutMismatch)
            } else {
                GuardDecision::Continue
            },
            _ => GuardDecision::Reject(AppError::ItemNotFound),
        },
    }
}

/// Decides whether an open request may proceed, from the state the guard read
/// inside the transaction.
pub fn check_guard_for_open(state: &Option<CheckoutStateRow>) -> (r: GuardDecision)
    ensures
        r == open_guard_decision(*state),
{
    match state {
        None => GuardDecision::Reject(AppError::ItemNotFound),
        Some(row) => match row.checkout_id {
            Some(_) => GuardDecision::Reject(AppError::AlreadyCheckedOut),
            None => GuardDecision::Continue,
        },
    }
}

/// Decides whether a return request may proceed, from the state the guard
/// read inside the transaction and the request's checkout id and borrower.
pub fn check_guard_for_return(
    state: &Option<CheckoutStateRow>,
    checkout_id: CheckoutId,
    returned_by: UserId,
) -> (r: GuardDecision)
    ensures
        r == return_guard_decision(*state, checkout_id, returned_by),
{
    match state {
        None => GuardDecision::Reject(AppError::ItemNotFound),
        Some(row) => match (row.checkout_id, row.user_id) {
            (Some(c), Some(u)) => if c != checkout_id || u != returned_by {
                GuardDecision::Reject(AppError::CheckoutMismatch)
            } else {
                GuardDecision::Continue
            },
            _ => GuardDecision::Reject(AppError::ItemNotFound),
        },
    }
}

} // verus!
