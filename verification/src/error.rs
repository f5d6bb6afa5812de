use vstd::prelude::*;

verus! {

/// The failures the checkout subsystem reports to its callers.
///
/// The first three are definitive business rejections decided by the
/// consistency guard; the last three are infrastructure failures of a
/// transactional backend and never arise from the in-memory store itself.
#[derive(Clone, Copy, PartialEq, Eq, Structural, Debug)]
pub enum AppError {
    /// The referenced item does not exist, or has no open checkout when a
    /// return is attempted.
    ItemNotFound,
    /// An open was requested for an item that is already checked out.
    AlreadyCheckedOut,
    /// A return request's checkout id or borrower does not match the recorded
    /// open checkout.
    CheckoutMismatch,
    /// An expected-to-succeed write affected zero rows.
    PersistenceInconsistency,
    /// The backend detected a conflicting concurrent transaction; the caller
    /// may retry.
    SerializationConflict,
    /// Beginning, committing or aborting a transaction itself failed.
    TransactionError,
}

pub type AppResult<T> = Result<T, AppError>;

} // verus!
