//! A book whose reading state is part of its type. A transition consumes the
//! book and returns it in its next state, so that no state can be skipped.

use vstd::prelude::*;

use super::text::{Author, BookTitle};
use super::{BookId, ReadingStatus};

verus! {

/// The state of a book that nobody has started reading yet.
#[derive(Debug, Clone, Copy)]
pub struct WantToRead;

/// The state of a book being read.
#[derive(Debug, Clone, Copy)]
pub struct Reading;

/// The state of a book read to the end.
#[derive(Debug, Clone, Copy)]
pub struct Finished;

/// What a book holds, whatever its state.
pub struct BookView {
    pub id: BookId,
    pub title: Seq<char>,
    pub author: Seq<char>,
}

/// A book in reading state `S`. A new book wants to be read; `start_reading`
/// and then `finish` move it forward, and there is no other way.
#[derive(Debug)]
pub struct Book<S> {
    id: BookId,
    title: BookTitle,
    author: Author,
    state: S,
}

impl<S> View for Book<S> {
    type V = BookView;

    closed spec fn view(&self) -> BookView {
        BookView { id: self.id, title: self.title@, author: self.author@ }
    }
}

impl<S: Copy> Clone for Book<S> {
    fn clone(&self) -> (r: Self)
        ensures
            r == *self,
    {
        Book { id: self.id, title: self.title.clone(), author: self.author.clone(), state: self.state }
    }
}

impl Book<WantToRead> {
    /// A new book, which nobody has started reading yet.
    pub fn new(id: BookId, title: BookTitle, author: Author) -> (r: Self)
        ensures
            r@ == (BookView { id, title: title@, author: author@ }),
    {
        Book { id, title, author, state: WantToRead }
    }

    /// Starts reading the book.
    pub fn start_reading(self) -> (r: Book<Reading>)
        ensures
            r@ == self@,
    {
        Book { id: self.id, title: self.title, author: self.author, state: Reading }
    }
}

impl Book<Reading> {
    /// Finishes the book.
    pub fn finish(self) -> (r: Book<Finished>)
        ensures
            r@ == self@,
    {
        Book { id: self.id, title: self.title, author: self.author, state: Finished }
    }
}

impl<S> Book<S> {
    pub fn id(&self) -> (r: BookId)
        ensures
            r == self@.id,
    {
        self.id
    }

    pub fn title(&self) -> (r: &BookTitle)
        ensures
            r@ == self@.title,
    {
        &self.title
    }

    pub fn author(&self) -> (r: &Author)
        ensures
            r@ == self@.author,
    {
        &self.author
    }

    /// Takes the book apart.
    pub fn into_parts(self) -> (r: (BookId, BookTitle, Author, S))
        ensures
            r.0 == self@.id,
            r.1@ == self@.title,
            r.2@ == self@.author,
    {
        (self.id, self.title, self.author, self.state)
    }
}

/// A book as the database holds it: its state is known only at run time, so
/// each state is a variant holding the book typed by that state.
#[derive(Debug)]
pub enum StoredBook {
    WantToRead(Book<WantToRead>),
    Reading(Book<Reading>),
    Finished(Book<Finished>),
}

impl StoredBook {
    /// What the stored book holds.
    pub open spec fn book(self) -> BookView {
        match self {
            StoredBook::WantToRead(b) => b@,
            StoredBook::Reading(b) => b@,
            StoredBook::Finished(b) => b@,
        }
    }

    /// The reading state of the stored book.
    pub open spec fn state(self) -> ReadingStatus {
        match self {
            StoredBook::WantToRead(_) => ReadingStatus::WantToRead,
            StoredBook::Reading(_) => ReadingStatus::Reading,
            StoredBook::Finished(_) => ReadingStatus::Finished,
        }
    }

    /// Rebuilds a book read from the database, in the state it was stored in.
    /// Only rows that passed validation come here; new books go through
    /// `Book::new` and the transitions.
    pub fn restore(id: BookId, title: BookTitle, author: Author, status: ReadingStatus) -> (r:
        Self)
        ensures
            r.book() == (BookView { id, title: title@, author: author@ }),
            r.state() == status,
    {
        match status {
            ReadingStatus::WantToRead => StoredBook::WantToRead(Book::new(id, title, author)),
            ReadingStatus::Reading => StoredBook::Reading(
                Book { id, title, author, state: Reading },
            ),
            ReadingStatus::Finished => StoredBook::Finished(
                Book { id, title, author, state: Finished },
            ),
        }
    }

    pub fn id(&self) -> (r: BookId)
        ensures
            r == self.book().id,
    {
        match self {
            StoredBook::WantToRead(book) => book.id(),
            StoredBook::Reading(book) => book.id(),
            StoredBook::Finished(book) => book.id(),
        }
    }

    pub fn status(&self) -> (r: ReadingStatus)
        ensures
            r == self.state(),
    {
        match self {
            StoredBook::WantToRead(_) => ReadingStatus::WantToRead,
            StoredBook::Reading(_) => ReadingStatus::Reading,
            StoredBook::Finished(_) => ReadingStatus::Finished,
        }
    }

    /// Takes the stored book apart.
    pub fn into_parts(self) -> (r: (BookId, BookTitle, Author, ReadingStatus))
        ensures
            r.0 == self.book().id,
            r.1@ == self.book().title,
            r.2@ == self.book().author,
            r.3 == self.state(),
    {
        let status = self.status();
        let (id, title, author) = match self {
            StoredBook::WantToRead(book) => {
                let (id, title, author, _) = book.into_parts();
                (id, title, author)
            },
            StoredBook::Reading(book) => {
                let (id, title, author, _) = book.into_parts();
                (id, title, author)
            },
            StoredBook::Finished(book) => {
                let (id, title, author, _) = book.into_parts();
                (id, title, author)
            },
        };
        (id, title, author, status)
    }
}

impl Clone for StoredBook {
    fn clone(&self) -> (r: Self)
        ensures
            r == *self,
    {
        match self {
            StoredBook::WantToRead(book) => StoredBook::WantToRead(book.clone()),
            StoredBook::Reading(book) => StoredBook::Reading(book.clone()),
            StoredBook::Finished(book) => StoredBook::Finished(book.clone()),
        }
    }
}

} // verus!
