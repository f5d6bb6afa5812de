use rusty_book_manager::book::CreateBook;
use rusty_book_manager::book_repo::BookRepositoryImpl;
use rusty_book_manager::checkout::{Checkout, CreateCheckout, UpdateReturned};
use rusty_book_manager::checkout_repo::CheckoutRepositoryImpl;
use rusty_book_manager::error::AppError;
use rusty_book_manager::id::{BookId, CheckoutId, UserId};
use rusty_book_manager::store::Database;

/// A store holding `n` registered books, ids 1 to n.
fn store_with_books(n: u64) -> Database {
    let mut repo = BookRepositoryImpl::new(Database::new());
    let mut i: u64 = 0;
    while i < n {
        repo.create(CreateBook {
            title: format!("Title {}", i + 1),
            author: format!("Author {}", i + 1),
            isbn: format!("ISBN {}", i + 1),
            description: String::new(),
        })
        .unwrap();
        i += 1;
    }
    repo.db
}

fn open(book: u64, user: u64, at: u64) -> CreateCheckout {
    CreateCheckout {
        book_id: BookId(book),
        checked_out_by: UserId(user),
        checked_out_at: at,
    }
}

fn close(checkout: u64, book: u64, user: u64, at: u64) -> UpdateReturned {
    UpdateReturned {
        checkout_id: CheckoutId(checkout),
        book_id: BookId(book),
        returned_by: UserId(user),
        returned_at: at,
    }
}

#[test]
fn scenario_open_then_second_open_rejected() {
    // S1: the item exists and has no checkout; the first open succeeds and
    // hands back the first checkout id, the racing second open is rejected.
    let mut repo = CheckoutRepositoryImpl::new(store_with_books(1));
    assert_eq!(repo.create(open(1, 1, 10)), Ok(CheckoutId(1)));
    assert_eq!(repo.create(open(1, 2, 11)), Err(AppError::AlreadyCheckedOut));
}

#[test]
fn scenario_wrong_borrower_rejected_and_state_kept() {
    // S2: a return naming the wrong borrower is a CheckoutMismatch and the
    // open checkout stays as it was.
    let mut repo = CheckoutRepositoryImpl::new(store_with_books(1));
    repo.create(open(1, 1, 10)).unwrap();
    let before = repo.find_unreturned_by_book_id(BookId(1));
    assert_eq!(
        repo.update_returned(close(1, 1, 2, 12)),
        Err(AppError::CheckoutMismatch)
    );
    let after = repo.find_unreturned_by_book_id(BookId(1));
    assert_eq!(before, after);
    assert_eq!(
        after,
        Some(Checkout {
            checkout_id: CheckoutId(1),
            book_id: BookId(1),
            user_id: UserId(1),
            checked_out_at: 10,
            returned_at: None,
        })
    );
}

#[test]
fn scenario_matching_return_closes_and_enters_history() {
    // S3: the exactly matching return succeeds and the history holds the one
    // completed loan.
    let mut repo = CheckoutRepositoryImpl::new(store_with_books(1));
    repo.create(open(1, 1, 10)).unwrap();
    assert_eq!(repo.update_returned(close(1, 1, 1, 12)), Ok(()));
    let history = repo.find_history_by_book_id(BookId(1));
    assert_eq!(
        history,
        vec![Checkout {
            checkout_id: CheckoutId(1),
            book_id: BookId(1),
            user_id: UserId(1),
            checked_out_at: 10,
            returned_at: Some(12),
        }]
    );
}

#[test]
fn scenario_second_return_finds_nothing() {
    // S4: returning again after a completed return is ItemNotFound — there is
    // no open checkout left to close.
    let mut repo = CheckoutRepositoryImpl::new(store_with_books(1));
    repo.create(open(1, 1, 10)).unwrap();
    repo.update_returned(close(1, 1, 1, 12)).unwrap();
    assert_eq!(
        repo.update_returned(close(1, 1, 1, 13)),
        Err(AppError::ItemNotFound)
    );
}

#[test]
fn scenario_open_of_unknown_item_rejected() {
    // S5: an open for an item that was never registered is ItemNotFound.
    let mut repo = CheckoutRepositoryImpl::new(store_with_books(1));
    assert_eq!(repo.create(open(2, 1, 10)), Err(AppError::ItemNotFound));
}

#[test]
fn mutual_exclusion_across_serialized_opens() {
    // Of several serialized opens for one item, exactly the first succeeds;
    // the others fail definitively until the item is returned.
    let mut repo = CheckoutRepositoryImpl::new(store_with_books(1));
    let results = vec![
        repo.create(open(1, 1, 10)),
        repo.create(open(1, 2, 11)),
        repo.create(open(1, 3, 12)),
        repo.create(open(1, 1, 13)),
    ];
    let successes = results.iter().filter(|r| r.is_ok()).count();
    assert_eq!(successes, 1);
    assert_eq!(results[0], Ok(CheckoutId(1)));
    for r in &results[1..] {
        assert_eq!(*r, Err(AppError::AlreadyCheckedOut));
    }
}

#[test]
fn return_succeeds_only_on_exact_match() {
    // A return succeeds iff checkout id, item and borrower all match the
    // recorded open checkout.
    let mut repo = CheckoutRepositoryImpl::new(store_with_books(2));
    repo.create(open(1, 1, 10)).unwrap();
    assert_eq!(
        repo.update_returned(close(9, 1, 1, 12)),
        Err(AppError::CheckoutMismatch)
    );
    assert_eq!(
        repo.update_returned(close(1, 1, 9, 12)),
        Err(AppError::CheckoutMismatch)
    );
    assert_eq!(
        repo.update_returned(close(1, 2, 1, 12)),
        Err(AppError::ItemNotFound)
    );
    assert_eq!(repo.update_returned(close(1, 1, 1, 12)), Ok(()));
}

#[test]
fn failed_return_leaves_no_partial_effect() {
    // Atomicity: after any rejected return, no closed record is visible and
    // the open checkout is unchanged.
    let mut repo = CheckoutRepositoryImpl::new(store_with_books(1));
    repo.create(open(1, 1, 10)).unwrap();
    let open_before = repo.find_unreturned_all();
    let history_before = repo.find_history_by_book_id(BookId(1));
    assert!(repo.update_returned(close(7, 1, 1, 12)).is_err());
    assert_eq!(repo.find_unreturned_all(), open_before);
    assert_eq!(repo.find_history_by_book_id(BookId(1)), history_before);
    assert_eq!(history_before.len(), 1);
    assert_eq!(history_before[0].returned_at, None);
}

#[test]
fn history_holds_one_entry_per_completed_loan_newest_first() {
    // After a sequence of opens and closes on one item, the history holds one
    // entry per loan, the open one first, the completed ones newest first —
    // whatever order the loans were recorded in.
    let mut repo = CheckoutRepositoryImpl::new(store_with_books(1));
    // completed loan checked out at 30
    assert_eq!(repo.create(open(1, 1, 30)), Ok(CheckoutId(1)));
    repo.update_returned(close(1, 1, 1, 35)).unwrap();
    // completed loan checked out at 10 — recorded later, sorted below
    assert_eq!(repo.create(open(1, 2, 10)), Ok(CheckoutId(2)));
    repo.update_returned(close(2, 1, 2, 15)).unwrap();
    // still-open loan checked out at 20
    assert_eq!(repo.create(open(1, 3, 20)), Ok(CheckoutId(3)));
    let history = repo.find_history_by_book_id(BookId(1));
    assert_eq!(
        history,
        vec![
            Checkout {
                checkout_id: CheckoutId(3),
                book_id: BookId(1),
                user_id: UserId(3),
                checked_out_at: 20,
                returned_at: None,
            },
            Checkout {
                checkout_id: CheckoutId(1),
                book_id: BookId(1),
                user_id: UserId(1),
                checked_out_at: 30,
                returned_at: Some(35),
            },
            Checkout {
                checkout_id: CheckoutId(2),
                book_id: BookId(1),
                user_id: UserId(2),
                checked_out_at: 10,
                returned_at: Some(15),
            },
        ]
    );
}

#[test]
fn reads_are_idempotent() {
    // Listing and history are read-only: two calls with no mutation between
    // them answer identically.
    let mut repo = CheckoutRepositoryImpl::new(store_with_books(2));
    repo.create(open(1, 1, 10)).unwrap();
    repo.create(open(2, 2, 20)).unwrap();
    assert_eq!(repo.find_unreturned_all(), repo.find_unreturned_all());
    assert_eq!(
        repo.find_history_by_book_id(BookId(1)),
        repo.find_history_by_book_id(BookId(1))
    );
}

#[test]
fn listing_open_loans_runs_oldest_first() {
    let mut repo = CheckoutRepositoryImpl::new(store_with_books(3));
    repo.create(open(1, 1, 50)).unwrap();
    repo.create(open(2, 1, 10)).unwrap();
    repo.create(open(3, 2, 30)).unwrap();
    let all = repo.find_unreturned_all();
    let books: Vec<BookId> = all.iter().map(|c| c.book_id).collect();
    assert_eq!(books, vec![BookId(2), BookId(3), BookId(1)]);
}

#[test]
fn listing_by_borrower_filters_and_sorts() {
    let mut repo = CheckoutRepositoryImpl::new(store_with_books(3));
    repo.create(open(1, 1, 50)).unwrap();
    repo.create(open(2, 2, 10)).unwrap();
    repo.create(open(3, 1, 30)).unwrap();
    let mine = repo.find_unreturned_by_user_id(UserId(1));
    let books: Vec<BookId> = mine.iter().map(|c| c.book_id).collect();
    assert_eq!(books, vec![BookId(3), BookId(1)]);
    assert!(mine.iter().all(|c| c.user_id == UserId(1)));
}

#[test]
fn fresh_store_answers_empty_reads() {
    let repo = CheckoutRepositoryImpl::new(store_with_books(1));
    assert!(repo.find_unreturned_all().is_empty());
    assert!(repo.find_unreturned_by_user_id(UserId(1)).is_empty());
    assert!(repo.find_unreturned_by_book_id(BookId(1)).is_none());
    assert!(repo.find_history_by_book_id(BookId(1)).is_empty());
    // the history query reads both tables and needs no existence check
    assert!(repo.find_history_by_book_id(BookId(9)).is_empty());
}

#[test]
fn equal_timestamps_keep_recording_order() {
    // The sort is stable: loans opened at the same instant list in the order
    // they were recorded.
    let mut repo = CheckoutRepositoryImpl::new(store_with_books(3));
    repo.create(open(1, 1, 10)).unwrap();
    repo.create(open(2, 1, 10)).unwrap();
    repo.create(open(3, 1, 10)).unwrap();
    let books: Vec<BookId> = repo.find_unreturned_all().iter().map(|c| c.book_id).collect();
    assert_eq!(books, vec![BookId(1), BookId(2), BookId(3)]);
}

#[test]
fn item_becomes_available_again_after_return() {
    let mut repo = CheckoutRepositoryImpl::new(store_with_books(1));
    assert_eq!(repo.create(open(1, 1, 10)), Ok(CheckoutId(1)));
    repo.update_returned(close(1, 1, 1, 12)).unwrap();
    assert_eq!(repo.create(open(1, 2, 14)), Ok(CheckoutId(2)));
    let history = repo.find_history_by_book_id(BookId(1));
    assert_eq!(history.len(), 2);
    assert_eq!(history[0].checkout_id, CheckoutId(2));
    assert_eq!(history[0].returned_at, None);
    assert_eq!(history[1].checkout_id, CheckoutId(1));
    assert_eq!(history[1].returned_at, Some(12));
}
