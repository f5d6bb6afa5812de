use crate::checkout::{
    closed_to_checkout, open_to_checkout, Checkout, ClosedCheckout, CreateCheckout, UpdateReturned,
};
use crate::error::AppError;
use crate::id::BookId;
use crate::order::{lemma_sort_by_time_ensures, sort_by_time, sorted_by_time};
use crate::store::{closed_rows_as_checkouts, closed_rows_for, StoreModel};
use vstd::prelude::*;

verus! {

/// How many of a run of open requests succeed when they are applied in some
/// serial order, as serializable isolation guarantees they are: a successful
/// open moves the state forward, a rejected one leaves it unchanged.
pub open spec fn open_successes(m: StoreModel, events: Seq<CreateCheckout>) -> nat
    decreases events.len(),
{
    if events.len() == 0 {
        0
    } else if m.open_result(events[0]) is Ok {
        1 + open_successes(m.open_step(events[0]), events.drop_first())
    } else {
        open_successes(m, events.drop_first())
    }
}

/// Mutual exclusion of concurrent opens: however many open requests target
/// one item, once they are serialized, exactly one succeeds when the item
/// exists and is not checked out, and none succeeds when it is already
/// checked out or does not exist. The backend's serializable isolation
/// reduces every concurrent schedule to such a serial order; the requests it
/// aborts instead surface as retryable serialization conflicts.
pub proof fn lemma_open_mutual_exclusion(
    m: StoreModel,
    events: Seq<CreateCheckout>,
    book_id: BookId,
)
    requires
        forall|i: int| 0 <= i < events.len() ==> events[i].book_id == book_id,
    ensures
        m.book_exists(book_id) && !m.has_open(book_id) && events.len() > 0 ==> open_successes(
            m,
            events,
        ) == 1,
        m.has_open(book_id) ==> open_successes(m, events) == 0,
        !m.book_exists(book_id) ==> open_successes(m, events) == 0,
    decreases events.len(),
{
    if events.len() == 0 {
    } else {
        let e = events[0];
        let rest = events.drop_first();
        assert(forall|i: int| 0 <= i < rest.len() ==> rest[i].book_id == book_id);
        if m.open_result(e) is Ok {
            let m1 = m.open_step(e);
            assert(m1.has_open(book_id)) by {
                assert(m1.open[m1.open.len() - 1].book_id == book_id);
            }
            lemma_open_mutual_exclusion(m1, rest, book_id);
        } else {
            lemma_open_mutual_exclusion(m, rest, book_id);
        }
    }
}

/// The losing opens fail definitively: an open for an item that exists and is
/// checked out is rejected as `AlreadyCheckedOut` and nothing else.
pub proof fn lemma_open_rejects_when_open(m: StoreModel, event: CreateCheckout)
    requires
        m.book_exists(event.book_id),
        m.has_open(event.book_id),
    ensures
        m.open_result(event) == Err::<crate::id::CheckoutId, AppError>(AppError::AlreadyCheckedOut),
{
}

/// Return correctness: a return succeeds exactly when the item exists, an
/// open checkout exists for it, and the request names that checkout's id and
/// borrower; naming the wrong checkout or borrower is rejected as
/// `CheckoutMismatch`, and a return with nothing to match as `ItemNotFound`.
pub proof fn lemma_return_correctness(m: StoreModel, event: UpdateReturned)
    ensures
        m.return_result(event) is Ok <==> (m.book_exists(event.book_id) && m.has_open(
            event.book_id,
        ) && m.open_row(event.book_id).checkout_id == event.checkout_id && m.open_row(
            event.book_id,
        ).user_id == event.returned_by),
        m.book_exists(event.book_id) && m.has_open(event.book_id) && !(m.open_row(
            event.book_id,
        ).checkout_id == event.checkout_id && m.open_row(event.book_id).user_id
            == event.returned_by) ==> m.return_result(event) == Err::<(), AppError>(
            AppError::CheckoutMismatch,
        ),
        !(m.book_exists(event.book_id) && m.has_open(event.book_id)) ==> m.return_result(event)
            == Err::<(), AppError>(AppError::ItemNotFound),
{
}

/// Every element the item filter keeps comes from the table and belongs to
/// the item, and every table row of the item is kept.
proof fn lemma_closed_rows_for_elems(s: Seq<ClosedCheckout>, book_id: BookId)
    ensures
        forall|k: int|
            0 <= k < closed_rows_for(s, book_id).len() ==> (#[trigger] closed_rows_for(
                s,
                book_id,
            )[k]).book_id == book_id && s.contains(closed_rows_for(s, book_id)[k]),
        forall|c: ClosedCheckout|
            #[trigger] s.contains(c) && c.book_id == book_id ==> closed_rows_for(
                s,
                book_id,
            ).contains(c),
    decreases s.len(),
{
    let f = closed_rows_for(s, book_id);
    if s.len() == 0 {
    } else {
        let dl = s.drop_last();
        let g = closed_rows_for(dl, book_id);
        lemma_closed_rows_for_elems(dl, book_id);
        assert forall|k: int|
            0 <= k < f.len() implies (#[trigger] f[k]).book_id == book_id && s.contains(f[k]) by {
            if s.last().book_id == book_id && k == f.len() - 1 {
                assert(s[s.len() - 1] == s.last());
                assert(s.contains(f[k]));
            } else {
                assert(f[k] == g[k]);
                assert(dl.contains(g[k]));
                let j = choose|j: int| 0 <= j < dl.len() && dl[j] == g[k];
                assert(s[j] == f[k]);
                assert(s.contains(f[k]));
            }
        }
        assert forall|c: ClosedCheckout| #[trigger]
            s.contains(c) && c.book_id == book_id implies f.contains(c) by {
            let k = choose|k: int| 0 <= k < s.len() && s[k] == c;
            if k == s.len() - 1 {
                assert(f[f.len() - 1] == c);
                assert(f.contains(c));
            } else {
                assert(dl[k] == c);
                assert(dl.contains(c));
                let j = choose|j: int| 0 <= j < g.len() && g[j] == c;
                assert(f[j] == c);
                assert(f.contains(c));
            }
        }
    }
}

/// The item filter keeps checkout ids distinct when the table's are.
proof fn lemma_closed_rows_for_distinct(s: Seq<ClosedCheckout>, book_id: BookId)
    requires
        forall|i: int, j: int| 0 <= i < j < s.len() ==> s[i].checkout_id != s[j].checkout_id,
    ensures
        forall|i: int, j: int|
            0 <= i < j < closed_rows_for(s, book_id).len() ==> closed_rows_for(
                s,
                book_id,
            )[i].checkout_id != closed_rows_for(s, book_id)[j].checkout_id,
    decreases s.len(),
{
    let f = closed_rows_for(s, book_id);
    if s.len() == 0 {
    } else {
        let dl = s.drop_last();
        let g = closed_rows_for(dl, book_id);
        assert(forall|i: int, j: int|
            0 <= i < j < dl.len() ==> dl[i].checkout_id != dl[j].checkout_id);
        lemma_closed_rows_for_distinct(dl, book_id);
        lemma_closed_rows_for_elems(dl, book_id);
        if s.last().book_id == book_id {
            assert forall|i: int, j: int|
                0 <= i < j < f.len() implies f[i].checkout_id != f[j].checkout_id by {
                if j == f.len() - 1 {
                    assert(f[i] == g[i]);
                    assert(dl.contains(g[i]));
                    let k = choose|k: int| 0 <= k < dl.len() && dl[k] == g[i];
                    assert(s[k] == g[i]);
                    assert(s[k].checkout_id != s[s.len() - 1].checkout_id);
                } else {
                    assert(f[i] == g[i] && f[j] == g[j]);
                }
            }
        }
    }
}

/// A sorted rearrangement keeps exactly the old entries: same members, and
/// checkout ids stay pairwise distinct.
proof fn lemma_permutation_distinct(u: Seq<Checkout>, t: Seq<Checkout>)
    requires
        t.to_multiset() == u.to_multiset(),
        forall|i: int, j: int| 0 <= i < j < u.len() ==> u[i].checkout_id != u[j].checkout_id,
    ensures
        forall|i: int, j: int| 0 <= i < j < t.len() ==> t[i].checkout_id != t[j].checkout_id,
        forall|e: Checkout| #[trigger] t.contains(e) ==> u.contains(e),
        forall|e: Checkout| #[trigger] u.contains(e) ==> t.contains(e),
{
    broadcast use vstd::seq_lib::group_to_multiset_ensures;

    assert(u.no_duplicates()) by {
        assert forall|i: int, j: int|
            0 <= i < u.len() && 0 <= j < u.len() && i != j implies u[i] != u[j] by {
            if i < j {
                assert(u[i].checkout_id != u[j].checkout_id);
            } else {
                assert(u[j].checkout_id != u[i].checkout_id);
            }
        }
    }
    u.lemma_multiset_has_no_duplicates();
    t.lemma_multiset_has_no_duplicates_conv();
    assert forall|e: Checkout| #[trigger] t.contains(e) implies u.contains(e) by {
        assert(t.to_multiset().count(e) > 0);
        assert(u.to_multiset().count(e) > 0);
    }
    assert forall|e: Checkout| #[trigger] u.contains(e) implies t.contains(e) by {
        assert(u.to_multiset().count(e) > 0);
        assert(t.to_multiset().count(e) > 0);
    }
    assert forall|i: int, j: int|
        0 <= i < j < t.len() implies t[i].checkout_id != t[j].checkout_id by {
        assert(t[i] != t[j]);
        if t[i].checkout_id == t[j].checkout_id {
            assert(t.contains(t[i]) && t.contains(t[j]));
            assert(u.contains(t[i]) && u.contains(t[j]));
            let a = choose|a: int| 0 <= a < u.len() && u[a] == t[i];
            let b = choose|b: int| 0 <= b < u.len() && u[b] == t[j];
            if a < b {
                assert(u[a].checkout_id != u[b].checkout_id);
            } else {
                assert(u[b].checkout_id != u[a].checkout_id);
            }
        }
    }
}

/// History completeness: for any well-formed state, the history of one item
/// holds exactly one entry per completed loan of the item plus the open loan
/// if there is one; the open loan comes first and is the only entry without a
/// return timestamp; no checkout id repeats; and the completed entries run
/// newest checkout first.
pub proof fn lemma_history_complete(m: StoreModel, book_id: BookId)
    requires
        m.wf(),
    ensures
        ({
            let h = m.history_view(book_id);
            let closed = m.closed_for(book_id);
            let head: int = if m.has_open(book_id) {
                1
            } else {
                0
            };
            &&& h.len() == closed.len() + head
            &&& (m.has_open(book_id) ==> h[0] == open_to_checkout(m.open_row(book_id)))
            &&& forall|i: int, j: int|
                0 <= i < j < h.len() ==> h[i].checkout_id != h[j].checkout_id
            &&& forall|i: int|
                0 <= i < closed.len() ==> h.contains(closed_to_checkout(#[trigger] closed[i]))
            &&& forall|i: int|
                0 <= i < h.len() ==> ((#[trigger] h[i]).returned_at is None <==> (
                m.has_open(book_id) && i == 0))
            &&& sorted_by_time(h.skip(head), false)
        }),
{
    broadcast use vstd::seq_lib::group_to_multiset_ensures;

    let h = m.history_view(book_id);
    let closed = m.closed_for(book_id);
    let u = closed_rows_as_checkouts(closed);
    let t = sort_by_time(u, false);
    let head: int = if m.has_open(book_id) {
        1
    } else {
        0
    };
    lemma_closed_rows_for_elems(m.closed, book_id);
    lemma_closed_rows_for_distinct(m.closed, book_id);
    assert(forall|i: int| 0 <= i < u.len() ==> u[i] == closed_to_checkout(closed[i]));
    assert(forall|i: int, j: int|
        0 <= i < j < u.len() ==> u[i].checkout_id != u[j].checkout_id);
    lemma_sort_by_time_ensures(u, false);
    lemma_permutation_distinct(u, t);
    assert(h.skip(head) =~= t);
    assert(h.len() == closed.len() + head);

    // each entry of the sorted run stems from one returned row of the item
    assert forall|j: int| 0 <= j < t.len() implies (#[trigger] t[j]).returned_at is Some && (
    exists|k: int|
        0 <= k < m.closed.len() && (#[trigger] m.closed[k]).checkout_id
            == t[j].checkout_id) by {
        assert(t.contains(t[j]));
        assert(u.contains(t[j]));
        let a = choose|a: int| 0 <= a < u.len() && u[a] == t[j];
        assert(u[a] == closed_to_checkout(closed[a]));
        assert(m.closed.contains(closed[a]));
        let k = choose|k: int| 0 <= k < m.closed.len() && m.closed[k] == closed[a];
        assert(m.closed[k].checkout_id == t[j].checkout_id);
    }

    if m.has_open(book_id) {
        let op = m.open_row(book_id);
        let oi = m.open_index(book_id);
        assert(0 <= oi < m.open.len() && m.open[oi].book_id == book_id);
        assert(h[0] == open_to_checkout(op));
        // the open entry's id collides with no returned entry's id
        assert forall|j: int| 1 <= j < h.len() implies h[0].checkout_id != (
        #[trigger] h[j]).checkout_id by {
            assert(h[j] == t[j - 1]);
            let k = choose|k: int|
                0 <= k < m.closed.len() && (#[trigger] m.closed[k]).checkout_id
                    == t[j - 1].checkout_id;
            assert(m.open[oi].checkout_id != m.closed[k].checkout_id);
        }
        assert forall|i: int, j: int|
            0 <= i < j < h.len() implies h[i].checkout_id != h[j].checkout_id by {
            if i >= 1 {
                assert(h[i] == t[i - 1] && h[j] == t[j - 1]);
            }
        }
        assert forall|i: int|
            0 <= i < h.len() implies ((#[trigger] h[i]).returned_at is None <==> (
        m.has_open(book_id) && i == 0)) by {
            if i >= 1 {
                assert(h[i] == t[i - 1]);
            }
        }
    } else {
        assert(h =~= t);
    }

    // every completed loan of the item appears
    assert forall|i: int|
        0 <= i < closed.len() implies h.contains(closed_to_checkout(#[trigger] closed[i])) by {
        assert(u[i] == closed_to_checkout(closed[i]));
        assert(u.contains(u[i]));
        assert(t.contains(u[i]));
        let j = choose|j: int| 0 <= j < t.len() && t[j] == u[i];
        assert(h[j + head] == t[j]);
        assert(h.contains(h[j + head]));
    }
}

/// Idempotent reads: the history query is a function of the state alone, so
/// two reads of one item against the same state answer the same sequence.
/// The query takes the store by shared reference and cannot move the state.
pub proof fn lemma_history_read_idempotent(
    m: StoreModel,
    book_id: BookId,
    r1: Seq<Checkout>,
    r2: Seq<Checkout>,
)
    requires
        r1 == m.history_view(book_id),
        r2 == m.history_view(book_id),
    ensures
        r1 == r2,
{
}

/// Idempotent reads: listing the open loans is a function of the state alone,
/// so two listings against the same state answer the same sequence.
pub proof fn lemma_list_read_idempotent(m: StoreModel, r1: Seq<Checkout>, r2: Seq<Checkout>)
    requires
        r1 == m.all_open_view(),
        r2 == m.all_open_view(),
    ensures
        r1 == r2,
{
}

} // verus!
