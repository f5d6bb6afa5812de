use rusty_book_manager::book::{CreateBook, DeleteBook, UpdateBook};
use rusty_book_manager::book_repo::BookRepositoryImpl;
use rusty_book_manager::checkout::CreateCheckout;
use rusty_book_manager::checkout_repo::CheckoutRepositoryImpl;
use rusty_book_manager::error::AppError;
use rusty_book_manager::id::{BookId, CheckoutId, UserId};
use rusty_book_manager::store::Database;

fn sample_book() -> CreateBook {
    CreateBook {
        title: String::from("Test Title"),
        author: String::from("Test Author"),
        isbn: String::from("Test ISBN"),
        description: String::from("Test Description"),
    }
}

#[test]
fn test_register_book() {
    let mut repo = BookRepositoryImpl::new(Database::new());
    repo.create(sample_book()).unwrap();

    let res = repo.find_all();
    assert_eq!(res.len(), 1);

    let book_id = res[0].id;
    let found = repo.find_by_id(book_id);
    assert!(found.is_some());

    let book = found.unwrap();
    assert_eq!(book.id, book_id);
    assert_eq!(book.title, "Test Title");
    assert_eq!(book.author, "Test Author");
    assert_eq!(book.isbn, "Test ISBN");
    assert_eq!(book.description, "Test Description");
    assert!(book.checkout.is_none());
}

#[test]
fn test_update_book() {
    let mut repo = BookRepositoryImpl::new(Database::new());
    repo.create(sample_book()).unwrap();
    let book = repo.find_by_id(BookId(1)).unwrap();
    let new_author = "Updated Author";
    assert_ne!(book.author, new_author);

    let update_book = UpdateBook {
        book_id: book.id,
        title: book.title,
        author: String::from(new_author),
        isbn: book.isbn,
        description: book.description,
    };
    repo.update(update_book).unwrap();

    let book = repo.find_by_id(BookId(1)).unwrap();
    assert_eq!(book.author, new_author);
}

#[test]
fn test_delete_book() {
    let mut repo = BookRepositoryImpl::new(Database::new());
    repo.create(sample_book()).unwrap();

    repo.delete(DeleteBook { book_id: BookId(1) }).unwrap();
    let book = repo.find_by_id(BookId(1));

    assert!(book.is_none());
}

#[test]
fn update_of_missing_book_is_rejected() {
    let mut repo = BookRepositoryImpl::new(Database::new());
    let res = repo.update(UpdateBook {
        book_id: BookId(5),
        title: String::new(),
        author: String::new(),
        isbn: String::new(),
        description: String::new(),
    });
    assert_eq!(res, Err(AppError::ItemNotFound));
    assert_eq!(
        repo.delete(DeleteBook { book_id: BookId(5) }),
        Err(AppError::ItemNotFound)
    );
}

#[test]
fn catalog_lists_newest_registration_first() {
    let mut repo = BookRepositoryImpl::new(Database::new());
    repo.create(CreateBook {
        title: String::from("First"),
        author: String::new(),
        isbn: String::new(),
        description: String::new(),
    })
    .unwrap();
    repo.create(CreateBook {
        title: String::from("Second"),
        author: String::new(),
        isbn: String::new(),
        description: String::new(),
    })
    .unwrap();
    let all = repo.find_all();
    assert_eq!(all.len(), 2);
    assert_eq!(all[0].title, "Second");
    assert_eq!(all[1].title, "First");
}

#[test]
fn find_checkouts_pairs_each_lent_item_with_its_loan() {
    let mut books = BookRepositoryImpl::new(Database::new());
    books.create(sample_book()).unwrap();
    books.create(sample_book()).unwrap();
    let mut loans = CheckoutRepositoryImpl::new(books.db);
    loans
        .create(CreateCheckout {
            book_id: BookId(2),
            checked_out_by: UserId(7),
            checked_out_at: 40,
        })
        .unwrap();
    let books = BookRepositoryImpl::new(loans.db);
    let pairs = books.find_checkouts(&vec![BookId(1), BookId(2)]);
    assert_eq!(pairs.len(), 1);
    assert_eq!(pairs[0].0, BookId(2));
    assert_eq!(pairs[0].1.checkout_id, CheckoutId(1));
    assert_eq!(pairs[0].1.user_id, UserId(7));

    let lent = books.find_by_id(BookId(2)).unwrap();
    assert!(lent.checkout.is_some());
    let free = books.find_by_id(BookId(1)).unwrap();
    assert!(free.checkout.is_none());
}

#[test]
fn arithmetic_helpers() {
    assert_eq!(rusty_book_manager::add(2, 2), 4);
    assert_eq!(rusty_book_manager::sub(10, 0), 10);
    assert_eq!(rusty_book_manager::sub(100, 5), 95);
}
