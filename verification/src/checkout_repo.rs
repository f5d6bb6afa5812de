use crate::checkout::{Checkout, ClosedCheckout, CreateCheckout, OpenCheckout, UpdateReturned};
use crate::error::AppResult;
use crate::guard::{
    check_guard_for_open, check_guard_for_return, state_row_view, CheckoutStateRow, GuardDecision,
};
use crate::id::{BookId, CheckoutId, UserId};
use crate::order::sort_checkouts;
use crate::store::{
    closed_rows_as_checkouts, closed_rows_for, open_rows_as_checkouts, open_rows_of_user, Database,
    StoreModel,
};
use vstd::prelude::*;

verus! {

/// The checkout service over the store: opens and closes loans, each as one
/// atomic unit of work, and answers the listing and history queries.
///
/// Against a transactional backend each operation would run inside its own
/// serializable transaction; here the store is held exclusively, which gives
/// the same serialized view of the guard's read and the following writes.
pub struct CheckoutRepositoryImpl {
    pub db: Database,
}

impl View for CheckoutRepositoryImpl {
    type V = StoreModel;

    open spec fn view(&self) -> StoreModel {
        self.db@
    }
}

impl CheckoutRepositoryImpl {
    pub fn new(db: Database) -> (r: Self)
        ensures
            r@ == db@,
    {
        CheckoutRepositoryImpl { db }
    }

    /// The guard's single read: the outer join of the item with its open
    /// checkout, taken from the current state.
    fn read_checkout_state(&self, book_id: BookId) -> (r: Option<CheckoutStateRow>)
        requires
            self@.wf(),
        ensures
            r == state_row_view(self@, book_id),
    {
        match self.db.find_book(book_id) {
            None => None,
            Some(_) => match self.db.find_open(book_id) {
                Some(i) => {
                    let row = self.db.checkouts[i];
                    proof {
                        let k = self@.open_index(book_id);
                        assert(0 <= k < self@.open.len() && self@.open[k].book_id == book_id);
                        assert(i as int == k);
                    }
                    Some(
                        CheckoutStateRow {
                            book_id,
                            checkout_id: Some(row.checkout_id),
                            user_id: Some(row.user_id),
                        },
                    )
                },
                None => Some(CheckoutStateRow { book_id, checkout_id: None, user_id: None }),
            },
        }
    }

    /// Opens a checkout: one read decides through the guard, then the open
    /// row is inserted under a fresh id. On rejection the store is left
    /// untouched and the guard's error is returned.
    pub fn create(&mut self, event: CreateCheckout) -> (r: AppResult<CheckoutId>)
        requires
            old(self)@.wf(),
            old(self)@.next_checkout_id < u64::MAX,
        ensures
            final(self)@.wf(),
            r == old(self)@.open_result(event),
            r is Ok ==> final(self)@ == old(self)@.open_step(event),
            r is Err ==> final(self)@ == old(self)@,
    {
        let state = self.read_checkout_state(event.book_id);
        match check_guard_for_open(&state) {
            GuardDecision::Reject(e) => Err(e),
            GuardDecision::Continue => {
                proof {
                    assert(old(self)@.book_exists(event.book_id));
                    assert(!old(self)@.has_open(event.book_id));
                }
                let checkout_id = CheckoutId(self.db.next_checkout_id);
                let row = OpenCheckout {
                    checkout_id,
                    book_id: event.book_id,
                    user_id: event.checked_out_by,
                    checked_out_at: event.checked_out_at,
                };
                self.db.checkouts.push(row);
                self.db.next_checkout_id = self.db.next_checkout_id + 1;
                proof {
                    assert(self@ =~= old(self)@.open_step(event));
                    assert(self@.wf());
                }
                Ok(checkout_id)
            },
        }
    }

    /// Closes (returns) a checkout: one read decides through the guard, then
    /// the matched open row is copied, closed, into the returned table and
    /// deleted from the open table — both inside the same unit of work, so no
    /// partial effect is ever visible. On rejection the store is left
    /// untouched and the guard's error is returned.
    pub fn update_returned(&mut self, event: UpdateReturned) -> (r: AppResult<()>)
        requires
            old(self)@.wf(),
        ensures
            final(self)@.wf(),
            r == old(self)@.return_result(event),
            r is Ok ==> final(self)@ == old(self)@.return_step(event),
            r is Err ==> final(self)@ == old(self)@,
    {
        let state = self.read_checkout_state(event.book_id);
        match check_guard_for_return(&state, event.checkout_id, event.returned_by) {
            GuardDecision::Reject(e) => Err(e),
            GuardDecision::Continue => {
                proof {
                    assert(old(self)@.book_exists(event.book_id));
                    assert(old(self)@.has_open(event.book_id));
                    assert(old(self)@.open_row(event.book_id).checkout_id == event.checkout_id);
                    assert(old(self)@.open_row(event.book_id).user_id == event.returned_by);
                }
                match self.db.find_open_by_checkout(event.checkout_id) {
                    Some(i) => {
                        proof {
                            let k = self@.open_index(event.book_id);
                            assert(0 <= k < self@.open.len()
                                && self@.open[k].book_id == event.book_id);
                            assert(i as int == k);
                        }
                        let row = self.db.checkouts[i];
                        self.db.returned_checkouts.push(
                            ClosedCheckout {
                                checkout_id: row.checkout_id,
                                book_id: row.book_id,
                                user_id: row.user_id,
                                checked_out_at: row.checked_out_at,
                                returned_at: event.returned_at,
                            },
                        );
                        self.db.checkouts.remove(i);
                        proof {
                            assert(self@ =~= old(self)@.return_step(event));
                            assert(self@.wf()) by {
                                lemma_return_step_wf(old(self)@, event);
                            }
                        }
                        Ok(())
                    },
                    None => {
                        proof {
                            let k = self@.open_index(event.book_id);
                            assert(0 <= k < self@.open.len()
                                && self@.open[k].checkout_id == event.checkout_id);
                            assert(false);
                        }
                        Err(crate::error::AppError::PersistenceInconsistency)
                    },
                }
            },
        }
    }

    /// Every open loan, oldest checkout first.
    pub fn find_unreturned_all(&self) -> (r: Vec<Checkout>)
        ensures
            r@ == self@.all_open_view(),
    {
        let mut rows: Vec<Checkout> = Vec::new();
        let mut i: usize = 0;
        while i < self.db.checkouts.len()
            invariant
                i <= self@.open.len(),
                rows@ == open_rows_as_checkouts(self@.open.take(i as int)),
            decreases self@.open.len() - i,
        {
            let o = self.db.checkouts[i];
            rows.push(
                Checkout {
                    checkout_id: o.checkout_id,
                    book_id: o.book_id,
                    user_id: o.user_id,
                    checked_out_at: o.checked_out_at,
                    returned_at: None,
                },
            );
            proof {
                assert(rows@ =~= open_rows_as_checkouts(self@.open.take(i as int + 1)));
            }
            i = i + 1;
        }
        proof {
            assert(self@.open.take(self@.open.len() as int) =~= self@.open);
        }
        sort_checkouts(rows, true)
    }

    /// One borrower's open loans, oldest checkout first.
    pub fn find_unreturned_by_user_id(&self, user_id: UserId) -> (r: Vec<Checkout>)
        ensures
            r@ == self@.open_for_user_view(user_id),
    {
        let mut rows: Vec<Checkout> = Vec::new();
        let mut i: usize = 0;
        while i < self.db.checkouts.len()
            invariant
                i <= self@.open.len(),
                rows@ == open_rows_as_checkouts(
                    open_rows_of_user(self@.open.take(i as int), user_id),
                ),
            decreases self@.open.len() - i,
        {
            let o = self.db.checkouts[i];
            proof {
                assert(self@.open.take(i as int + 1).drop_last() =~= self@.open.take(i as int));
                assert(self@.open.take(i as int + 1).last() == self@.open[i as int]);
            }
            if o.user_id == user_id {
                rows.push(
                    Checkout {
                        checkout_id: o.checkout_id,
                        book_id: o.book_id,
                        user_id: o.user_id,
                        checked_out_at: o.checked_out_at,
                        returned_at: None,
                    },
                );
                proof {
                    assert(rows@ =~= open_rows_as_checkouts(
                        open_rows_of_user(self@.open.take(i as int + 1), user_id),
                    ));
                }
            } else {
                proof {
                    assert(rows@ =~= open_rows_as_checkouts(
                        open_rows_of_user(self@.open.take(i as int + 1), user_id),
                    ));
                }
            }
            i = i + 1;
        }
        proof {
            assert(self@.open.take(self@.open.len() as int) =~= self@.open);
        }
        sort_checkouts(rows, true)
    }

    /// The open loan of one item, if any.
    pub fn find_unreturned_by_book_id(&self, book_id: BookId) -> (r: Option<Checkout>)
        requires
            self@.wf(),
        ensures
            r == self@.unreturned_for_book(book_id),
    {
        self.db.open_checkout_for(book_id)
    }

    /// One item's full history: the open loan first if there is one, then the
    /// completed loans, newest checkout first.
    pub fn find_history_by_book_id(&self, book_id: BookId) -> (r: Vec<Checkout>)
        requires
            self@.wf(),
        ensures
            r@ == self@.history_view(book_id),
    {
        let checkout = self.find_unreturned_by_book_id(book_id);
        let mut rows: Vec<Checkout> = Vec::new();
        let mut i: usize = 0;
        while i < self.db.returned_checkouts.len()
            invariant
                i <= self@.closed.len(),
                rows@ == closed_rows_as_checkouts(
                    closed_rows_for(self@.closed.take(i as int), book_id),
                ),
            decreases self@.closed.len() - i,
        {
            let c = self.db.returned_checkouts[i];
            proof {
                assert(self@.closed.take(i as int + 1).drop_last() =~= self@.closed.take(i as int));
                assert(self@.closed.take(i as int + 1).last() == self@.closed[i as int]);
            }
            if c.book_id == book_id {
                rows.push(
                    Checkout {
                        checkout_id: c.checkout_id,
                        book_id: c.book_id,
                        user_id: c.user_id,
                        checked_out_at: c.checked_out_at,
                        returned_at: Some(c.returned_at),
                    },
                );
                proof {
                    assert(rows@ =~= closed_rows_as_checkouts(
                        closed_rows_for(self@.closed.take(i as int + 1), book_id),
                    ));
                }
            } else {
                proof {
                    assert(rows@ =~= closed_rows_as_checkouts(
                        closed_rows_for(self@.closed.take(i as int + 1), book_id),
                    ));
                }
            }
            i = i + 1;
        }
        proof {
            assert(self@.closed.take(self@.closed.len() as int) =~= self@.closed);
        }
        let mut histories = sort_checkouts(rows, false);
        match checkout {
            Some(co) => {
                histories.insert(0, co);
                proof {
                    assert(histories@ =~= self@.history_view(book_id));
                }
            },
            None => {},
        }
        histories
    }
}

/// A successful return keeps the store well formed: the moved row's id leaves
/// the open table with it, so ids stay unique across both tables.
proof fn lemma_return_step_wf(m: StoreModel, event: UpdateReturned)
    requires
        m.wf(),
        m.return_result(event) is Ok,
    ensures
        m.return_step(event).wf(),
{
    let k = m.open_index(event.book_id);
    assert(0 <= k < m.open.len() && m.open[k].book_id == event.book_id);
    let post = m.return_step(event);
    assert(forall|i: int|
        0 <= i < post.open.len() ==> post.open[i] == (if i < k {
            m.open[i]
        } else {
            m.open[i + 1]
        }));
}

} // verus!
