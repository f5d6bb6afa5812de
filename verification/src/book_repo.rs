use crate::book::{Book, BookRecord, CreateBook, DeleteBook, UpdateBook};
use crate::checkout::Checkout;
use crate::error::{AppError, AppResult};
use crate::id::BookId;
use crate::store::{Database, StoreModel};
use vstd::prelude::*;

verus! {

/// A catalog item as handed back, rendered from the record at one index
/// together with its open loan.
pub open spec fn book_view(m: StoreModel, i: int) -> Book {
    Book {
        id: m.books[i].book_id,
        title: m.books[i].title,
        author: m.books[i].author,
        isbn: m.books[i].isbn,
        description: m.books[i].description,
        checkout: m.unreturned_for_book(m.books[i].book_id),
    }
}

/// The whole catalog as handed back: newest registration first.
pub open spec fn all_books_view(m: StoreModel) -> Seq<Book> {
    Seq::new(m.books.len(), |i: int| book_view(m, m.books.len() - 1 - i))
}

/// For each requested item that is checked out, the pair of its id and its
/// open loan, in request order.
pub open spec fn checkouts_view(m: StoreModel, ids: Seq<BookId>) -> Seq<(BookId, Checkout)>
    decreases ids.len(),
{
    if ids.len() == 0 {
        Seq::empty()
    } else {
        let rest = checkouts_view(m, ids.drop_last());
        match m.unreturned_for_book(ids.last()) {
            Some(co) => rest.push((ids.last(), co)),
            None => rest,
        }
    }
}

/// The catalog side of the store: registration, lookup, update and removal of
/// items. Only existence matters to the checkout guard; the other fields are
/// carried so a checkout record can be rendered.
pub struct BookRepositoryImpl {
    pub db: Database,
}

impl View for BookRepositoryImpl {
    type V = StoreModel;

    open spec fn view(&self) -> StoreModel {
        self.db@
    }
}

impl BookRepositoryImpl {
    pub fn new(db: Database) -> (r: Self)
        ensures
            r@ == db@,
    {
        BookRepositoryImpl { db }
    }

    /// Registers a new catalog item under a fresh id.
    pub fn create(&mut self, event: CreateBook) -> (r: AppResult<()>)
        requires
            old(self)@.wf(),
            old(self)@.next_book_id < u64::MAX,
        ensures
            final(self)@.wf(),
            r == Ok::<(), AppError>(()),
            final(self)@.books == old(self)@.books.push(
                BookRecord {
                    book_id: BookId(old(self)@.next_book_id as u64),
                    title: event.title,
                    author: event.author,
                    isbn: event.isbn,
                    description: event.description,
                },
            ),
            final(self)@.next_book_id == old(self)@.next_book_id + 1,
            final(self)@.open == old(self)@.open,
            final(self)@.closed == old(self)@.closed,
            final(self)@.next_checkout_id == old(self)@.next_checkout_id,
    {
        let book_id = BookId(self.db.next_book_id);
        self.db.books.push(
            BookRecord {
                book_id,
                title: event.title,
                author: event.author,
                isbn: event.isbn,
                description: event.description,
            },
        );
        self.db.next_book_id = self.db.next_book_id + 1;
        proof {
            let m0 = old(self)@;
            let m1 = self@;
            assert(m1.open == m0.open);
            assert(m1.closed == m0.closed);
            assert forall|a: int, b: int|
                0 <= a < b < m1.books.len() implies m1.books[a].book_id != m1.books[b].book_id by {
                if b < m1.books.len() - 1 {
                    assert(m0.books[a].book_id != m0.books[b].book_id);
                } else {
                    assert((m0.books[a].book_id.0 as nat) < m0.next_book_id);
                }
            }
            assert forall|a: int|
                0 <= a < m1.books.len() implies (m1.books[a].book_id.0 as nat)
                < m1.next_book_id by {
                if a < m1.books.len() - 1 {
                    assert((m0.books[a].book_id.0 as nat) < m0.next_book_id);
                }
            }
            assert(self@.wf());
        }
        Ok(())
    }

    /// The catalog item with this id, with its open loan, if the item exists.
    pub fn find_by_id(&self, book_id: BookId) -> (r: Option<Book>)
        requires
            self@.wf(),
        ensures
            self@.book_exists(book_id) ==> r == Some(book_view(self@, self@.book_index(book_id))),
            !self@.book_exists(book_id) ==> r == None::<Book>,
    {
        match self.db.find_book(book_id) {
            Some(i) => {
                proof {
                    let k = self@.book_index(book_id);
                    assert(0 <= k < self@.books.len() && self@.books[k].book_id == book_id);
                    assert(i as int == k);
                }
                let checkout = self.db.open_checkout_for(book_id);
                let rec = &self.db.books[i];
                Some(
                    Book {
                        id: rec.book_id,
                        title: rec.title.clone(),
                        author: rec.author.clone(),
                        isbn: rec.isbn.clone(),
                        description: rec.description.clone(),
                        checkout,
                    },
                )
            },
            None => None,
        }
    }

    /// The whole catalog, newest registration first, each item with its open
    /// loan.
    pub fn find_all(&self) -> (r: Vec<Book>)
        requires
            self@.wf(),
        ensures
            r@ == all_books_view(self@),
    {
        let mut items: Vec<Book> = Vec::new();
        let mut j: usize = 0;
        while j < self.db.books.len()
            invariant
                self@.wf(),
                j <= self@.books.len(),
                items@.len() == j,
                forall|k: int| 0 <= k < j ==> items@[k] == book_view(self@, self@.books.len() - 1 - k),
            decreases self@.books.len() - j,
        {
            let i = self.db.books.len() - 1 - j;
            let checkout = self.db.open_checkout_for(self.db.books[i].book_id);
            let rec = &self.db.books[i];
            items.push(
                Book {
                    id: rec.book_id,
                    title: rec.title.clone(),
                    author: rec.author.clone(),
                    isbn: rec.isbn.clone(),
                    description: rec.description.clone(),
                    checkout,
                },
            );
            j = j + 1;
        }
        proof {
            assert(items@ =~= all_books_view(self@));
        }
        items
    }

    /// Overwrites the fields of an existing item; the id stays. Rejected when
    /// the item does not exist.
    pub fn update(&mut self, event: UpdateBook) -> (r: AppResult<()>)
        requires
            old(self)@.wf(),
        ensures
            final(self)@.wf(),
            old(self)@.book_exists(event.book_id) ==> {
                &&& r == Ok::<(), AppError>(())
                &&& final(self)@.books == old(self)@.books.update(
                    old(self)@.book_index(event.book_id),
                    BookRecord {
                        book_id: event.book_id,
                        title: event.title,
                        author: event.author,
                        isbn: event.isbn,
                        description: event.description,
                    },
                )
                &&& final(self)@.next_book_id == old(self)@.next_book_id
                &&& final(self)@.open == old(self)@.open
                &&& final(self)@.closed == old(self)@.closed
                &&& final(self)@.next_checkout_id == old(self)@.next_checkout_id
            },
            !old(self)@.book_exists(event.book_id) ==> r == Err::<(), AppError>(
                AppError::ItemNotFound,
            ) && final(self)@ == old(self)@,
    {
        match self.db.find_book(event.book_id) {
            Some(i) => {
                proof {
                    let k = self@.book_index(event.book_id);
                    assert(0 <= k < self@.books.len() && self@.books[k].book_id == event.book_id);
                    assert(i as int == k);
                }
                let rec = BookRecord {
                    book_id: event.book_id,
                    title: event.title,
                    author: event.author,
                    isbn: event.isbn,
                    description: event.description,
                };
                self.db.books.remove(i);
                self.db.books.insert(i, rec);
                proof {
                    assert(self@.books =~= old(self)@.books.update(i as int, rec));
                    let m0 = old(self)@;
                    let m1 = self@;
                    assert(m1.open == m0.open);
                    assert(m1.closed == m0.closed);
                    assert(forall|a: int|
                        0 <= a < m1.books.len()
                            ==> m1.books[a].book_id == m0.books[a].book_id);
                    assert forall|a: int|
                        0 <= a < m1.books.len() implies (m1.books[a].book_id.0 as nat)
                        < m1.next_book_id by {
                        assert((m0.books[a].book_id.0 as nat) < m0.next_book_id);
                    }
                    assert(self@.wf());
                }
                Ok(())
            },
            None => Err(AppError::ItemNotFound),
        }
    }

    /// Removes an item from the catalog. Rejected when it does not exist.
    pub fn delete(&mut self, event: DeleteBook) -> (r: AppResult<()>)
        requires
            old(self)@.wf(),
        ensures
            final(self)@.wf(),
            old(self)@.book_exists(event.book_id) ==> {
                &&& r == Ok::<(), AppError>(())
                &&& final(self)@.books == old(self)@.books.remove(
                    old(self)@.book_index(event.book_id),
                )
                &&& final(self)@.next_book_id == old(self)@.next_book_id
                &&& final(self)@.open == old(self)@.open
                &&& final(self)@.closed == old(self)@.closed
                &&& final(self)@.next_checkout_id == old(self)@.next_checkout_id
            },
            !old(self)@.book_exists(event.book_id) ==> r == Err::<(), AppError>(
                AppError::ItemNotFound,
            ) && final(self)@ == old(self)@,
    {
        match self.db.find_book(event.book_id) {
            Some(i) => {
                proof {
                    let k = self@.book_index(event.book_id);
                    assert(0 <= k < self@.books.len() && self@.books[k].book_id == event.book_id);
                    assert(i as int == k);
                }
                self.db.books.remove(i);
                proof {
                    let m0 = old(self)@;
                    let m1 = self@;
                    assert(forall|a: int|
                        0 <= a < m1.books.len() ==> m1.books[a] == (if a < i as int {
                            m0.books[a]
                        } else {
                            m0.books[a + 1]
                        }));
                    assert(m1.open == m0.open);
                    assert(m1.closed == m0.closed);
                    assert forall|a: int, b: int|
                        0 <= a < b < m1.books.len() implies m1.books[a].book_id
                        != m1.books[b].book_id by {
                        let a0 = if a < i as int { a } else { a + 1 };
                        let b0 = if b < i as int { b } else { b + 1 };
                        assert(m0.books[a0].book_id != m0.books[b0].book_id);
                    }
                    assert forall|a: int|
                        0 <= a < m1.books.len() implies (m1.books[a].book_id.0 as nat)
                        < m1.next_book_id by {
                        let a0 = if a < i as int { a } else { a + 1 };
                        assert((m0.books[a0].book_id.0 as nat) < m0.next_book_id);
                    }
                    assert(self@.wf());
                }
                Ok(())
            },
            None => Err(AppError::ItemNotFound),
        }
    }

    /// For each of the given items that is checked out, the pair of its id
    /// and its open loan.
    pub fn find_checkouts(&self, book_ids: &Vec<BookId>) -> (r: Vec<(BookId, Checkout)>)
        requires
            self@.wf(),
        ensures
            r@ == checkouts_view(self@, book_ids@),
    {
        let mut pairs: Vec<(BookId, Checkout)> = Vec::new();
        let mut i: usize = 0;
        while i < book_ids.len()
            invariant
                self@.wf(),
                i <= book_ids@.len(),
                pairs@ == checkouts_view(self@, book_ids@.take(i as int)),
            decreases book_ids@.len() - i,
        {
            let book_id = book_ids[i];
            proof {
                assert(book_ids@.take(i as int + 1).drop_last() =~= book_ids@.take(i as int));
                assert(book_ids@.take(i as int + 1).last() == book_ids@[i as int]);
            }
            match self.db.open_checkout_for(book_id) {
                Some(co) => {
                    pairs.push((book_id, co));
                },
                None => {},
            }
            i = i + 1;
        }
        proof {
            assert(book_ids@.take(book_ids@.len() as int) =~= book_ids@);
        }
        pairs
    }
}

} // verus!
