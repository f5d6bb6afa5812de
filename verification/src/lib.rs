//! Checkout/return consistency core of a small library-lending system.
//!
//! The hard part of the system is keeping one catalog item from being lent to
//! two borrowers at once, and letting a return close only the exact checkout
//! it names. This crate holds that logic, verified: the guard that decides
//! whether an open or return request may proceed, the service that applies it
//! to the store, and the history query that merges open and closed loans into
//! one chronological view. The surrounding I/O — the transactional backend,
//! request handling — stays outside and drives these functions.

use vstd::prelude::*;

pub mod book;
pub mod book_repo;
pub mod checkout;
pub mod checkout_repo;
pub mod error;
pub mod guard;
pub mod id;
pub mod laws;
pub mod order;
pub mod store;

verus! {

/// Sum of two machine words; the caller rules out overflow.
pub fn add(left: u64, right: u64) -> (r: u64)
    requires
        left + right <= u64::MAX,
    ensures
        r == left + right,
{
    left + right
}

/// Difference of two signed words; the caller rules out overflow.
pub fn sub(left: i32, right: i32) -> (r: i32)
    requires
        i32::MIN <= left - right <= i32::MAX,
    ensures
        r == left - right,
{
    left - right
}

} // verus!
