use crate::book::BookRecord;
use crate::checkout::{
    closed_to_checkout, open_to_checkout, Checkout, ClosedCheckout, CreateCheckout, OpenCheckout,
    UpdateReturned,
};
use crate::error::AppError;
use crate::id::{BookId, CheckoutId, UserId};
use crate::order::sort_by_time;
use vstd::prelude::*;

verus! {

/// Mathematical model of the persistent state: the catalog, the open and the
/// returned checkout tables, and the counters that stand for the backend's id
/// generation.
#[verifier::ext_equal]
pub struct StoreModel {
    pub books: Seq<BookRecord>,
    pub open: Seq<OpenCheckout>,
    pub closed: Seq<ClosedCheckout>,
    pub next_book_id: nat,
    pub next_checkout_id: nat,
}

impl StoreModel {
    /// The item with this id exists in the catalog.
    pub open spec fn book_exists(self, book_id: BookId) -> bool {
        exists|i: int| 0 <= i < self.books.len() && self.books[i].book_id == book_id
    }

    /// Index of the catalog row for this item (meaningful when it exists).
    pub open spec fn book_index(self, book_id: BookId) -> int {
        choose|i: int| 0 <= i < self.books.len() && self.books[i].book_id == book_id
    }

    /// An open checkout exists for this item.
    pub open spec fn has_open(self, book_id: BookId) -> bool {
        exists|i: int| 0 <= i < self.open.len() && self.open[i].book_id == book_id
    }

    /// Index of the open-checkout row for this item (meaningful when one
    /// exists; unique under `wf`).
    pub open spec fn open_index(self, book_id: BookId) -> int {
        choose|i: int| 0 <= i < self.open.len() && self.open[i].book_id == book_id
    }

    /// The open-checkout row for this item (meaningful when one exists).
    pub open spec fn open_row(self, book_id: BookId) -> OpenCheckout {
        self.open[self.open_index(book_id)]
    }

    /// The returned rows of this item, in insertion (return) order.
    pub open spec fn closed_for(self, book_id: BookId) -> Seq<ClosedCheckout> {
        closed_rows_for(self.closed, book_id)
    }

    /// The invariants of every committed state.
    ///
    /// The catalog is keyed by item id; at most one open checkout exists per
    /// item (I1); checkout ids are unique across the open and the returned
    /// table, so a completed loan is recorded exactly once; and every issued
    /// id lies below the corresponding counter, which keeps the next id
    /// fresh.
    pub open spec fn wf(self) -> bool {
        &&& (forall|i: int, j: int|
            0 <= i < j < self.books.len() ==> self.books[i].book_id != self.books[j].book_id)
        &&& (forall|i: int|
            0 <= i < self.books.len() ==> (self.books[i].book_id.0 as nat) < self.next_book_id)
        &&& (forall|i: int, j: int|
            0 <= i < j < self.open.len() ==> self.open[i].book_id != self.open[j].book_id)
        &&& (forall|i: int, j: int|
            0 <= i < j < self.open.len()
                ==> self.open[i].checkout_id != self.open[j].checkout_id)
        &&& (forall|i: int, j: int|
            0 <= i < j < self.closed.len()
                ==> self.closed[i].checkout_id != self.closed[j].checkout_id)
        &&& (forall|i: int, j: int|
            0 <= i < self.open.len() && 0 <= j < self.closed.len()
                ==> self.open[i].checkout_id != self.closed[j].checkout_id)
        &&& (forall|i: int|
            0 <= i < self.open.len()
                ==> (self.open[i].checkout_id.0 as nat) < self.next_checkout_id)
        &&& (forall|i: int|
            0 <= i < self.closed.len()
                ==> (self.closed[i].checkout_id.0 as nat) < self.next_checkout_id)
    }

    /// Outcome of an open request: the guard's rules of §open, decided on the
    /// current state.
    pub open spec fn open_result(self, event: CreateCheckout) -> Result<CheckoutId, AppError> {
        if !self.book_exists(event.book_id) {
            Err(AppError::ItemNotFound)
        } else if self.has_open(event.book_id) {
            Err(AppError::AlreadyCheckedOut)
        } else {
            Ok(CheckoutId(self.next_checkout_id as u64))
        }
    }

    /// The state after a successful open: one new open row under a fresh id.
    pub open spec fn open_step(self, event: CreateCheckout) -> StoreModel {
        StoreModel {
            open: self.open.push(
                OpenCheckout {
                    checkout_id: CheckoutId(self.next_checkout_id as u64),
                    book_id: event.book_id,
                    user_id: event.checked_out_by,
                    checked_out_at: event.checked_out_at,
                },
            ),
            next_checkout_id: self.next_checkout_id + 1,
            ..self
        }
    }

    /// Outcome of a return request: it succeeds exactly when the item exists,
    /// an open checkout exists for it, and that checkout's id and borrower
    /// both match the request.
    pub open spec fn return_result(self, event: UpdateReturned) -> Result<(), AppError> {
        if !self.book_exists(event.book_id) {
            Err(AppError::ItemNotFound)
        } else if !self.has_open(event.book_id) {
            Err(AppError::ItemNotFound)
        } else if self.open_row(event.book_id).checkout_id != event.checkout_id
            || self.open_row(event.book_id).user_id != event.returned_by {
            Err(AppError::CheckoutMismatch)
        } else {
            Ok(())
        }
    }

    /// The state after a successful return: the open row leaves the open
    /// table and a returned row with its fields plus the return timestamp
    /// enters the returned table — both together, or not at all.
    pub open spec fn return_step(self, event: UpdateReturned) -> StoreModel {
        let row = self.open_row(event.book_id);
        StoreModel {
            open: self.open.remove(self.open_index(event.book_id)),
            closed: self.closed.push(
                ClosedCheckout {
                    checkout_id: row.checkout_id,
                    book_id: row.book_id,
                    user_id: row.user_id,
                    checked_out_at: row.checked_out_at,
                    returned_at: event.returned_at,
                },
            ),
            ..self
        }
    }

    /// What listing every open loan returns: all open rows, oldest checkout
    /// first.
    pub open spec fn all_open_view(self) -> Seq<Checkout> {
        sort_by_time(open_rows_as_checkouts(self.open), true)
    }

    /// What listing one borrower's open loans returns.
    pub open spec fn open_for_user_view(self, user_id: UserId) -> Seq<Checkout> {
        sort_by_time(open_rows_as_checkouts(open_rows_of_user(self.open, user_id)), true)
    }

    /// The open loan of one item, if any.
    pub open spec fn unreturned_for_book(self, book_id: BookId) -> Option<Checkout> {
        if self.has_open(book_id) {
            Some(open_to_checkout(self.open_row(book_id)))
        } else {
            None
        }
    }

    /// What the history query returns for one item: the open loan first if
    /// there is one, then the completed loans, newest checkout first.
    pub open spec fn history_view(self, book_id: BookId) -> Seq<Checkout> {
        let returned = sort_by_time(closed_rows_as_checkouts(self.closed_for(book_id)), false);
        match self.unreturned_for_book(book_id) {
            Some(co) => seq![co] + returned,
            None => returned,
        }
    }
}

/// Open rows rendered as listing entries.
pub open spec fn open_rows_as_checkouts(s: Seq<OpenCheckout>) -> Seq<Checkout> {
    s.map_values(|o: OpenCheckout| open_to_checkout(o))
}

/// Returned rows rendered as listing entries.
pub open spec fn closed_rows_as_checkouts(s: Seq<ClosedCheckout>) -> Seq<Checkout> {
    s.map_values(|c: ClosedCheckout| closed_to_checkout(c))
}

/// The open rows that belong to one borrower, in table order.
pub open spec fn open_rows_of_user(s: Seq<OpenCheckout>, user_id: UserId) -> Seq<OpenCheckout>
    decreases s.len(),
{
    if s.len() == 0 {
        Seq::empty()
    } else if s.last().user_id == user_id {
        open_rows_of_user(s.drop_last(), user_id).push(s.last())
    } else {
        open_rows_of_user(s.drop_last(), user_id)
    }
}

/// The returned rows that belong to one item, in table order.
pub open spec fn closed_rows_for(s: Seq<ClosedCheckout>, book_id: BookId) -> Seq<ClosedCheckout>
    decreases s.len(),
{
    if s.len() == 0 {
        Seq::empty()
    } else if s.last().book_id == book_id {
        closed_rows_for(s.drop_last(), book_id).push(s.last())
    } else {
        closed_rows_for(s.drop_last(), book_id)
    }
}

/// The in-memory store: the canonical state of the catalog and of the
/// checkouts. The composition root owns one value of this type and passes it
/// to the repositories; nothing is cached outside it.
pub struct Database {
    pub books: Vec<BookRecord>,
    pub checkouts: Vec<OpenCheckout>,
    pub returned_checkouts: Vec<ClosedCheckout>,
    pub next_book_id: u64,
    pub next_checkout_id: u64,
}

impl View for Database {
    type V = StoreModel;

    open spec fn view(&self) -> StoreModel {
        StoreModel {
            books: self.books@,
            open: self.checkouts@,
            closed: self.returned_checkouts@,
            next_book_id: self.next_book_id as nat,
            next_checkout_id: self.next_checkout_id as nat,
        }
    }
}

impl Database {
    /// An empty store; ids are issued from 1 upward.
    pub fn new() -> (r: Database)
        ensures
            r@.wf(),
            r@.books == Seq::<BookRecord>::empty(),
            r@.open == Seq::<OpenCheckout>::empty(),
            r@.closed == Seq::<ClosedCheckout>::empty(),
            r@.next_book_id == 1,
            r@.next_checkout_id == 1,
    {
        Database {
            books: Vec::new(),
            checkouts: Vec::new(),
            returned_checkouts: Vec::new(),
            next_book_id: 1,
            next_checkout_id: 1,
        }
    }

    /// Whether the backend can still issue a fresh checkout id.
    pub fn checkout_ids_available(&self) -> (r: bool)
        ensures
            r == (self@.next_checkout_id < u64::MAX),
    {
        self.next_checkout_id < u64::MAX
    }

    /// Whether the backend can still issue a fresh item id.
    pub fn book_ids_available(&self) -> (r: bool)
        ensures
            r == (self@.next_book_id < u64::MAX),
    {
        self.next_book_id < u64::MAX
    }

    /// Index of the catalog row for this item, if it exists.
    pub(crate) fn find_book(&self, book_id: BookId) -> (r: Option<usize>)
        ensures
            match r {
                Some(i) => i < self@.books.len() && self@.books[i as int].book_id == book_id,
                None => !self@.book_exists(book_id),
            },
            r is Some <==> self@.book_exists(book_id),
    {
        let mut i: usize = 0;
        while i < self.books.len()
            invariant
                i <= self@.books.len(),
                forall|j: int| 0 <= j < i ==> self@.books[j].book_id != book_id,
            decreases self@.books.len() - i,
        {
            if self.books[i].book_id == book_id {
                return Some(i);
            }
            i = i + 1;
        }
        None
    }

    /// Index of the open-checkout row for this item, if one exists.
    pub(crate) fn find_open(&self, book_id: BookId) -> (r: Option<usize>)
        ensures
            match r {
                Some(i) => i < self@.open.len() && self@.open[i as int].book_id == book_id,
                None => !self@.has_open(book_id),
            },
            r is Some <==> self@.has_open(book_id),
    {
        let mut i: usize = 0;
        while i < self.checkouts.len()
            invariant
                i <= self@.open.len(),
                forall|j: int| 0 <= j < i ==> self@.open[j].book_id != book_id,
            decreases self@.open.len() - i,
        {
            if self.checkouts[i].book_id == book_id {
                return Some(i);
            }
            i = i + 1;
        }
        None
    }

    /// The open loan of one item, if any, as a listing entry.
    pub fn open_checkout_for(&self, book_id: BookId) -> (r: Option<Checkout>)
        requires
            self@.wf(),
        ensures
            r == self@.unreturned_for_book(book_id),
    {
        match self.find_open(book_id) {
            Some(i) => {
                let o = self.checkouts[i];
                proof {
                    let k = self@.open_index(book_id);
                    assert(0 <= k < self@.open.len() && self@.open[k].book_id == book_id);
                    assert(i as int == k);
                }
                Some(
                    Checkout {
                        checkout_id: o.checkout_id,
                        book_id: o.book_id,
                        user_id: o.user_id,
                        checked_out_at: o.checked_out_at,
                        returned_at: None,
                    },
                )
            },
            None => None,
        }
    }

    /// Index of the open-checkout row with this checkout id, if one exists —
    /// the lookup the return's mutations go by.
    pub(crate) fn find_open_by_checkout(&self, checkout_id: CheckoutId) -> (r: Option<usize>)
        ensures
            match r {
                Some(i) => i < self@.open.len()
                    && self@.open[i as int].checkout_id == checkout_id,
                None => forall|j: int|
                    0 <= j < self@.open.len() ==> self@.open[j].checkout_id != checkout_id,
            },
    {
        let mut i: usize = 0;
        while i < self.checkouts.len()
            invariant
                i <= self@.open.len(),
                forall|j: int| 0 <= j < i ==> self@.open[j].checkout_id != checkout_id,
            decreases self@.open.len() - i,
        {
            if self.checkouts[i].checkout_id == checkout_id {
                return Some(i);
            }
            i = i + 1;
        }
        None
    }
}

} // verus!
