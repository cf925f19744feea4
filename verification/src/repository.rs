//! Where books and notes are kept.
//!
//! `FakeBookRepository` keeps them in memory, with no database. It keeps the
//! same promises as the SQLite store: a book is registered as "want to read"
//! under a fresh identifier; a status is saved only when the stored status is
//! the one the caller expects; a reading completion saves the finished state
//! and its note together or neither; deleting a book deletes its notes. A
//! failure can be injected into the next save, to show what a caller does when
//! saving fails.

use vstd::prelude::*;

use crate::domain::{
    Author, Book, BookId, BookTitle, Finished, Note, NoteBody, NoteId, ReadingStatus, StoredBook,
};
use crate::error::AppError;

pub mod rows;

verus! {

/// The position of the book with identifier `id` in `books`, if it is there.
pub open spec fn index_of(books: Seq<StoredBook>, id: BookId) -> Option<int> {
    if exists|i: int| 0 <= i < books.len() && (#[trigger] books[i]).book().id == id {
        Some(choose|i: int| 0 <= i < books.len() && (#[trigger] books[i]).book().id == id)
    } else {
        None
    }
}

/// Identifiers strictly increase along `books`.
pub open spec fn ids_increase(books: Seq<StoredBook>) -> bool {
    forall|i: int, j: int|
        0 <= i < j < books.len() ==> (#[trigger] books[i]).book().id.0 < (#[trigger] books[
            j
        ]).book().id.0
}

/// Whether `book` is in `status`, where `None` lets every book through.
pub open spec fn has_status(book: StoredBook, status: Option<ReadingStatus>) -> bool {
    match status {
        Some(s) => book.state() == s,
        None => true,
    }
}

/// The books of `books` that are in `status`, in their order.
pub open spec fn with_status(books: Seq<StoredBook>, status: Option<ReadingStatus>) -> Seq<
    StoredBook,
>
    decreases books.len(),
{
    if books.len() == 0 {
        Seq::empty()
    } else {
        let rest = with_status(books.drop_last(), status);
        if has_status(books.last(), status) {
            rest.push(books.last())
        } else {
            rest
        }
    }
}

/// A listing keeps exactly the books it is asked for, in their order: with no
/// filter, every book; with a status, the books in that status and no other,
/// each one it finds taken from `books`, and identifiers still increasing.
pub proof fn law_listing_by_status(books: Seq<StoredBook>, s: ReadingStatus)
    ensures
        with_status(books, None) == books,
        forall|b: StoredBook| #[trigger] with_status(books, Some(s)).contains(b) ==> b.state() == s
            && books.contains(b),
        forall|i: int|
            0 <= i < books.len() && (#[trigger] books[i]).state() == s ==> with_status(
                books,
                Some(s),
            ).contains(books[i]),
        ids_increase(books) ==> ids_increase(with_status(books, Some(s))),
    decreases books.len(),
{
    if books.len() > 0 {
        let rest = books.drop_last();
        law_listing_by_status(rest, s);
        assert(with_status(books, None) == with_status(rest, None).push(books.last()));
        assert(rest.push(books.last()) =~= books);
        let kept = with_status(books, Some(s));
        let before = with_status(rest, Some(s));
        assert forall|b: StoredBook| #[trigger] kept.contains(b) implies b.state() == s
            && books.contains(b) by {
            let k = choose|k: int| 0 <= k < kept.len() && kept[k] == b;
            if k < before.len() {
                assert(before[k] == b);
                assert(before.contains(b));
                let j = choose|j: int| 0 <= j < rest.len() && rest[j] == b;
                assert(books[j] == b);
            } else {
                assert(b == books.last());
                assert(books[books.len() - 1] == b);
            }
        }
        assert forall|i: int| 0 <= i < books.len() && (#[trigger] books[i]).state() == s implies kept.contains(books[i]) by {
            if i < rest.len() {
                assert(rest[i] == books[i]);
                assert(before.contains(books[i]));
                let k = choose|k: int| 0 <= k < before.len() && before[k] == books[i];
                if has_status(books.last(), Some(s)) {
                    assert(kept[k] == books[i]);
                } else {
                    assert(kept[k] == books[i]);
                }
            } else {
                assert(kept[kept.len() - 1] == books[i]);
            }
        }
        if ids_increase(books) {
            assert(ids_increase(rest)) by {
                assert forall|x: int, y: int| 0 <= x < y < rest.len() implies (#[trigger] rest[x]).book().id.0 < (#[trigger] rest[y]).book().id.0 by {
                    assert(rest[x] == books[x] && rest[y] == books[y]);
                }
            }
            if has_status(books.last(), Some(s)) {
                assert forall|x: int, y: int| 0 <= x < y < kept.len() implies (#[trigger] kept[x]).book().id.0 < (#[trigger] kept[y]).book().id.0 by {
                    if y == kept.len() - 1 {
                        assert(before.contains(kept[x]));
                        let j = choose|j: int| 0 <= j < rest.len() && rest[j] == kept[x];
                        assert(books[j] == kept[x]);
                        assert(kept[y] == books[books.len() - 1]);
                    } else {
                        assert(kept[x] == before[x] && kept[y] == before[y]);
                    }
                }
            }
        }
    } else {
        assert(with_status(books, Some(s)).len() == 0);
    }
}

/// When identifiers are unique, the book found at `i` is the one `index_of` names.
pub proof fn lemma_index_of(books: Seq<StoredBook>, id: BookId, i: int)
    requires
        ids_increase(books),
        0 <= i < books.len(),
        books[i].book().id == id,
    ensures
        index_of(books, id) == Some(i),
{
    let c = choose|c: int| 0 <= c < books.len() && (#[trigger] books[c]).book().id == id;
    assert(0 <= c < books.len() && books[c].book().id == id);
    if c < i {
        assert(books[c].book().id.0 < books[i].book().id.0);
    } else if i < c {
        assert(books[i].book().id.0 < books[c].book().id.0);
    }
}

/// Two sequences with the same identifiers at each position find every
/// identifier at the same position.
pub proof fn lemma_same_ids_index_of(a: Seq<StoredBook>, b: Seq<StoredBook>, id: BookId)
    requires
        ids_increase(a),
        a.len() == b.len(),
        forall|j: int| 0 <= j < a.len() ==> (#[trigger] a[j]).book().id == b[j].book().id,
    ensures
        ids_increase(b),
        index_of(a, id) == index_of(b, id),
{
    assert forall|i: int, j: int| 0 <= i < j < b.len() implies (#[trigger] b[i]).book().id.0 < (
    #[trigger] b[j]).book().id.0 by {
        assert(a[i].book().id == b[i].book().id);
        assert(a[j].book().id == b[j].book().id);
    }
    if exists|i: int| 0 <= i < a.len() && (#[trigger] a[i]).book().id == id {
        let i = choose|i: int| 0 <= i < a.len() && (#[trigger] a[i]).book().id == id;
        lemma_index_of(a, id, i);
        assert(b[i].book().id == id);
        lemma_index_of(b, id, i);
    } else {
        assert forall|i: int| 0 <= i < b.len() implies (#[trigger] b[i]).book().id != id by {
            assert(a[i].book().id == b[i].book().id);
        }
    }
}

/// A book with the notes attached to it.
struct BookEntry {
    book: StoredBook,
    notes: Vec<Note>,
}

/// Books and notes kept in memory, in the order of their identifiers.
pub struct FakeBookRepository {
    entries: Vec<BookEntry>,
    next_book_id: i64,
    next_note_id: i64,
    next_update_error: Option<AppError>,
}

impl Default for FakeBookRepository {
    fn default() -> (r: Self)
        ensures
            r.wf(),
            r.books().len() == 0,
            r.notes().len() == 0,
            r.last_book_id() == 0,
            r.last_note_id() == 0,
            r.pending_error() is None,
    {
        FakeBookRepository::new()
    }
}

impl FakeBookRepository {
    /// The stored books, in increasing order of identifier.
    pub closed spec fn books(&self) -> Seq<StoredBook> {
        self.entries@.map_values(|e: BookEntry| e.book)
    }

    /// The notes of each stored book, in the order they were added; the `i`-th
    /// list belongs to the `i`-th book.
    pub closed spec fn notes(&self) -> Seq<Seq<Note>> {
        self.entries@.map_values(|e: BookEntry| e.notes@)
    }

    /// The identifier of the last book registered; the next one gets one more.
    pub closed spec fn last_book_id(&self) -> i64 {
        self.next_book_id
    }

    /// The identifier of the last note added; the next one gets one more.
    pub closed spec fn last_note_id(&self) -> i64 {
        self.next_note_id
    }

    /// The failure that the next save will report, if one was injected.
    pub closed spec fn pending_error(&self) -> Option<AppError> {
        self.next_update_error
    }

    /// Identifiers are positive, unique, in increasing order and never above
    /// the last one handed out.
    pub closed spec fn wf(&self) -> bool {
        &&& ids_increase(self.books())
        &&& forall|i: int|
            0 <= i < self.books().len() ==> 0 < (#[trigger] self.books()[i]).book().id.0
                <= self.next_book_id
        &&& self.next_book_id >= 0
        &&& self.next_note_id >= 0
    }

    /// In a well-formed store, identifiers increase along the stored books,
    /// and each book has its list of notes.
    pub proof fn lemma_ids_increase(&self)
        requires
            self.wf(),
        ensures
            ids_increase(self.books()),
            self.notes().len() == self.books().len(),
    {
    }

    /// The stored book with identifier `id`, if any.
    pub open spec fn find(&self, id: BookId) -> Option<StoredBook> {
        match index_of(self.books(), id) {
            Some(i) => Some(self.books()[i]),
            None => None,
        }
    }

    /// The notes of the book with identifier `id`; none for an unknown book.
    pub open spec fn notes_of(&self, id: BookId) -> Seq<Note> {
        match index_of(self.books(), id) {
            Some(i) => self.notes()[i],
            None => Seq::empty(),
        }
    }

    /// Every stored book and every list of notes is unchanged.
    pub open spec fn same_contents(&self, other: &Self) -> bool {
        &&& self.books() == other.books()
        &&& self.notes() == other.notes()
    }

    /// An empty repository.
    pub fn new() -> (r: Self)
        ensures
            r.wf(),
            r.books().len() == 0,
            r.notes().len() == 0,
            r.last_book_id() == 0,
            r.last_note_id() == 0,
            r.pending_error() is None,
    {
        let r = FakeBookRepository {
            entries: Vec::new(),
            next_book_id: 0,
            next_note_id: 0,
            next_update_error: None,
        };
        assert(r.books().len() == 0);
        r
    }

    /// Makes the next save (`update_book_status` or `record_reading_completion`)
    /// report `error` and change nothing. It is reported once.
    pub fn fail_next_update(&mut self, error: AppError)
        requires
            old(self).wf(),
        ensures
            final(self).wf(),
            final(self).same_contents(old(self)),
            final(self).last_book_id() == old(self).last_book_id(),
            final(self).last_note_id() == old(self).last_note_id(),
            final(self).pending_error() == Some(error),
    {
        self.next_update_error = Some(error);
    }

    /// The position of the book with identifier `id`.
    fn position(&self, id: BookId) -> (r: Option<usize>)
        requires
            self.wf(),
        ensures
            match r {
                Some(i) => index_of(self.books(), id) == Some(i as int),
                None => index_of(self.books(), id) is None,
            },
    {
        let mut i: usize = 0;
        while i < self.entries.len()
            invariant
                self.wf(),
                i <= self.entries@.len(),
                self.books().len() == self.entries@.len(),
                forall|j: int| 0 <= j < i ==> (#[trigger] self.books()[j]).book().id != id,
            decreases self.entries@.len() - i,
        {
            assert(self.books()[i as int] == self.entries@[i as int].book);
            if self.entries[i].book.id().0 == id.0 {
                proof {
                    lemma_index_of(self.books(), id, i as int);
                }
                return Some(i);
            }
            i = i + 1;
        }
        None
    }

    /// Registers a book as "want to read" under the next identifier.
    pub fn insert_book(&mut self, title: &BookTitle, author: &Author) -> (r: Result<
        StoredBook,
        AppError,
    >)
        requires
            old(self).wf(),
            old(self).last_book_id() < i64::MAX,
        ensures
            final(self).wf(),
            r matches Ok(book) && registers(*old(self), *final(self), book) && book.book().title
                == title@ && book.book().author == author@,
            final(self).last_book_id() == old(self).last_book_id() + 1,
            final(self).last_note_id() == old(self).last_note_id(),
            final(self).pending_error() == old(self).pending_error(),
    {
        let ghost before = self.books();
        self.next_book_id = self.next_book_id + 1;
        let book = StoredBook::WantToRead(
            Book::new(BookId(self.next_book_id), title.clone(), author.clone()),
        );
        let stored = book.clone();
        self.entries.push(BookEntry { book: stored, notes: Vec::new() });
        assert(self.books() =~= before.push(book));
        assert(self.notes() =~= old(self).notes().push(Seq::empty()));
        assert forall|i: int| 0 <= i < before.len() implies (#[trigger] before[i]).book().id
            != BookId(self.next_book_id) by {
            assert(old(self).books()[i] == before[i]);
        }
        Ok(book)
    }

    /// The books in `status`, or every book when `status` is `None`, in
    /// increasing order of identifier.
    pub fn list_books(&self, status: Option<ReadingStatus>) -> (r: Result<
        Vec<StoredBook>,
        AppError,
    >)
        requires
            self.wf(),
        ensures
            r matches Ok(books) && books@ == with_status(self.books(), status),
            status is None ==> (r matches Ok(books) && books@ == self.books()),
            status matches Some(s) ==> (r matches Ok(books) && (forall|b: StoredBook|
                #[trigger] books@.contains(b) ==> b.state() == s && self.books().contains(b))
                && (forall|i: int|
                0 <= i < self.books().len() && (#[trigger] self.books()[i]).state() == s
                    ==> books@.contains(self.books()[i])) && ids_increase(books@)),
    {
        proof {
            self.lemma_ids_increase();
            if let Some(s) = status {
                law_listing_by_status(self.books(), s);
            } else {
                law_listing_by_status(self.books(), ReadingStatus::WantToRead);
            }
        }
        let mut found: Vec<StoredBook> = Vec::new();
        let mut i: usize = 0;
        while i < self.entries.len()
            invariant
                i <= self.entries@.len(),
                self.books().len() == self.entries@.len(),
                found@ == with_status(self.books().take(i as int), status),
            decreases self.entries@.len() - i,
        {
            let book = &self.entries[i].book;
            assert(self.books().take(i + 1).drop_last() =~= self.books().take(i as int));
            assert(self.books().take(i + 1).last() == *book);
            let keep = match status {
                Some(s) => book.status() == s,
                None => true,
            };
            if keep {
                found.push(book.clone());
            }
            i = i + 1;
        }
        assert(self.books().take(i as int) =~= self.books());
        Ok(found)
    }

    /// The book with identifier `id`; `NotFound` when there is none.
    pub fn find_book(&self, id: BookId) -> (r: Result<StoredBook, AppError>)
        requires
            self.wf(),
        ensures
            match self.find(id) {
                Some(book) => r == Ok::<StoredBook, AppError>(book),
                None => r matches Err(AppError::NotFound),
            },
    {
        match self.position(id) {
            Some(i) => {
                assert(self.books()[i as int] == self.entries@[i as int].book);
                Ok(self.entries[i].book.clone())
            },
            None => Err(AppError::NotFound),
        }
    }

    /// The notes of the book with identifier `id`, in the order they were
    /// added; an empty list when there is no such book.
    pub fn list_notes(&self, book_id: BookId) -> (r: Result<Vec<Note>, AppError>)
        requires
            self.wf(),
        ensures
            r matches Ok(notes) && notes@ == self.notes_of(book_id),
    {
        match self.position(book_id) {
            Some(i) => {
                let notes = &self.entries[i].notes;
                assert(self.notes()[i as int] == notes@);
                let mut copy: Vec<Note> = Vec::new();
                let mut k: usize = 0;
                while k < notes.len()
                    invariant
                        k <= notes@.len(),
                        copy@ == notes@.take(k as int),
                    decreases notes@.len() - k,
                {
                    copy.push(notes[k].clone());
                    assert(notes@.take(k + 1) =~= notes@.take(k as int).push(notes@[k as int]));
                    k = k + 1;
                }
                assert(notes@.take(k as int) =~= notes@);
                Ok(copy)
            },
            None => Ok(Vec::new()),
        }
    }

    /// Adds a note to the book with identifier `book_id`; `NotFound`, with
    /// nothing changed, when there is no such book.
    pub fn insert_note(&mut self, book_id: BookId, body: &NoteBody) -> (r: Result<Note, AppError>)
        requires
            old(self).wf(),
            old(self).last_note_id() < i64::MAX,
        ensures
            final(self).wf(),
            final(self).books() == old(self).books(),
            final(self).last_book_id() == old(self).last_book_id(),
            final(self).pending_error() == old(self).pending_error(),
            match index_of(old(self).books(), book_id) {
                Some(i) => r matches Ok(note) && {
                    &&& note.id.0 == old(self).last_note_id() + 1
                    &&& note.body@ == body@
                    &&& appends_note(*old(self), *final(self), i, note)
                    &&& final(self).last_note_id() == old(self).last_note_id() + 1
                },
                None => r matches Err(AppError::NotFound) && final(self).notes() == old(self).notes() && final(self).last_note_id() == old(self).last_note_id(),
            },
    {
        match self.position(book_id) {
            Some(i) => {
                self.next_note_id = self.next_note_id + 1;
                let note = Note { id: NoteId(self.next_note_id), body: body.clone() };
                let mut entry = self.entries.remove(i);
                entry.notes.push(note.clone());
                self.entries.insert(i, entry);
                assert(self.books() =~= old(self).books());
                assert(self.notes() =~= old(self).notes().update(
                    i as int,
                    old(self).notes()[i as int].push(note),
                ));
                Ok(note)
            },
            None => Err(AppError::NotFound),
        }
    }

    /// Saves `next` in place of the stored book with the same identifier, but
    /// only when that book is still in status `expected`. A book that changed
    /// state, or was deleted, since it was read is a `Conflict`, and nothing is
    /// saved.
    pub fn update_book_status(&mut self, expected: ReadingStatus, next: StoredBook) -> (r: Result<
        StoredBook,
        AppError,
    >)
        requires
            old(self).wf(),
        ensures
            final(self).wf(),
            final(self).notes() == old(self).notes(),
            final(self).last_book_id() == old(self).last_book_id(),
            final(self).last_note_id() == old(self).last_note_id(),
            final(self).pending_error() is None,
            match old(self).pending_error() {
                Some(e) => r == Err::<StoredBook, AppError>(e) && final(self).books() == old(self).books(),
                None => match index_of(old(self).books(), next.book().id) {
                    Some(i) => if old(self).books()[i].state() == expected {
                        r == Ok::<StoredBook, AppError>(next) && replaces_book(
                            *old(self),
                            *final(self),
                            i,
                            next,
                        )
                    } else {
                        r matches Err(AppError::Conflict) && final(self).books() == old(self).books()
                    },
                    None => r matches Err(AppError::Conflict) && final(self).books() == old(self).books(),
                },
            },
    {
        if let Some(error) = self.next_update_error.take() {
            return Err(error);
        }
        match self.position(next.id()) {
            Some(i) => {
                assert(self.books()[i as int] == self.entries@[i as int].book);
                if self.entries[i].book.status() != expected {
                    return Err(AppError::Conflict);
                }
                let saved = next.clone();
                let entry = self.entries.remove(i);
                self.entries.insert(i, BookEntry { book: saved, notes: entry.notes });
                assert(self.books() =~= old(self).books().update(i as int, next));
                assert(self.notes() =~= old(self).notes());
                assert forall|j: int| 0 <= j < self.books().len() implies self.books()[j].book().id
                    == old(self).books()[j].book().id by {
                    if j == i {
                        assert(old(self).books()[j].book().id == next.book().id);
                    }
                }
                Ok(next)
            },
            None => Err(AppError::Conflict),
        }
    }

    /// Finishes a book and adds its note in one step: the book must still be
    /// "reading". Otherwise the answer is `Conflict`, and neither the state nor
    /// the notes change.
    pub fn record_reading_completion(&mut self, book: Book<Finished>, body: &NoteBody) -> (r:
        Result<(StoredBook, Note), AppError>)
        requires
            old(self).wf(),
            old(self).last_note_id() < i64::MAX,
        ensures
            final(self).wf(),
            final(self).last_book_id() == old(self).last_book_id(),
            final(self).pending_error() is None,
            match old(self).pending_error() {
                Some(e) => r == Err::<(StoredBook, Note), AppError>(e) && final(self).same_contents(old(self)) && final(self).last_note_id() == old(self).last_note_id(),
                None => match index_of(old(self).books(), book@.id) {
                    Some(i) => if old(self).books()[i].state() == ReadingStatus::Reading {
                        r matches Ok((saved, note)) && {
                            &&& saved == StoredBook::Finished(book)
                            &&& note.id.0 == old(self).last_note_id() + 1
                            &&& note.body@ == body@
                            &&& replaces_book_with_note(*old(self), *final(self), i, saved, note)
                            &&& final(self).last_note_id() == old(self).last_note_id() + 1
                        }
                    } else {
                        r matches Err(AppError::Conflict) && final(self).same_contents(old(self))
                            && final(self).last_note_id() == old(self).last_note_id()
                    },
                    None => r matches Err(AppError::Conflict) && final(self).same_contents(
                        old(self),
                    ) && final(self).last_note_id() == old(self).last_note_id(),
                },
            },
    {
        if let Some(error) = self.next_update_error.take() {
            return Err(error);
        }
        let finished = StoredBook::Finished(book);
        match self.position(finished.id()) {
            Some(i) => {
                assert(self.books()[i as int] == self.entries@[i as int].book);
                if self.entries[i].book.status() != ReadingStatus::Reading {
                    return Err(AppError::Conflict);
                }
                self.next_note_id = self.next_note_id + 1;
                let note = Note { id: NoteId(self.next_note_id), body: body.clone() };
                let entry = self.entries.remove(i);
                let mut notes = entry.notes;
                notes.push(note.clone());
                self.entries.insert(i, BookEntry { book: finished.clone(), notes });
                assert(self.books() =~= old(self).books().update(i as int, finished));
                assert(self.notes() =~= old(self).notes().update(
                    i as int,
                    old(self).notes()[i as int].push(note),
                ));
                assert forall|j: int| 0 <= j < self.books().len() implies self.books()[j].book().id
                    == old(self).books()[j].book().id by {
                    if j == i {
                        assert(old(self).books()[j].book().id == finished.book().id);
                    }
                }
                Ok((finished, note))
            },
            None => Err(AppError::Conflict),
        }
    }

    /// Deletes the book with identifier `id` and its notes; `NotFound`, with
    /// nothing changed, when there is no such book.
    pub fn delete_book(&mut self, id: BookId) -> (r: Result<(), AppError>)
        requires
            old(self).wf(),
        ensures
            final(self).wf(),
            final(self).last_book_id() == old(self).last_book_id(),
            final(self).last_note_id() == old(self).last_note_id(),
            final(self).pending_error() == old(self).pending_error(),
            match index_of(old(self).books(), id) {
                Some(i) => r is Ok && removes_book(*old(self), *final(self), i),
                None => r matches Err(AppError::NotFound) && final(self).same_contents(old(self)),
            },
    {
        match self.position(id) {
            Some(i) => {
                let _removed = self.entries.remove(i);
                assert(self.books() =~= old(self).books().remove(i as int));
                assert(self.notes() =~= old(self).notes().remove(i as int));
                assert forall|a: int, b: int|
                    0 <= a < b < self.books().len() implies (#[trigger] self.books()[a]).book().id.0
                    < (#[trigger] self.books()[b]).book().id.0 by {
                    let oa = if a < i { a } else { a + 1 };
                    let ob = if b < i { b } else { b + 1 };
                    assert(self.books()[a] == old(self).books()[oa]);
                    assert(self.books()[b] == old(self).books()[ob]);
                }
                assert forall|j: int| 0 <= j < self.books().len() implies 0 < (
                #[trigger] self.books()[j]).book().id.0 <= self.next_book_id by {
                    let oj = if j < i { j } else { j + 1 };
                    assert(self.books()[j] == old(self).books()[oj]);
                }
                Ok(())
            },
            None => Err(AppError::NotFound),
        }
    }
}

/// `after` is `before` with `book` registered last, as "want to read", under
/// the next identifier and with no notes.
pub open spec fn registers(before: FakeBookRepository, after: FakeBookRepository, book: StoredBook) -> bool {
    &&& book.state() == ReadingStatus::WantToRead
    &&& book.book().id.0 == before.last_book_id() + 1
    &&& after.books() == before.books().push(book)
    &&& after.notes() == before.notes().push(Seq::empty())
}

/// `after` is `before` with `note` added after the notes of the book at
/// position `i`.
pub open spec fn appends_note(
    before: FakeBookRepository,
    after: FakeBookRepository,
    i: int,
    note: Note,
) -> bool {
    &&& after.books() == before.books()
    &&& after.notes() == before.notes().update(i, before.notes()[i].push(note))
}

/// `after` is `before` with the book at position `i` replaced by `book`.
pub open spec fn replaces_book(
    before: FakeBookRepository,
    after: FakeBookRepository,
    i: int,
    book: StoredBook,
) -> bool {
    &&& after.books() == before.books().update(i, book)
    &&& after.notes() == before.notes()
}

/// `after` is `before` with the book at position `i` replaced by `book` and
/// `note` added after its notes.
pub open spec fn replaces_book_with_note(
    before: FakeBookRepository,
    after: FakeBookRepository,
    i: int,
    book: StoredBook,
    note: Note,
) -> bool {
    &&& after.books() == before.books().update(i, book)
    &&& after.notes() == before.notes().update(i, before.notes()[i].push(note))
}

/// `after` is `before` without the book at position `i` and its notes.
pub open spec fn removes_book(before: FakeBookRepository, after: FakeBookRepository, i: int) -> bool {
    &&& after.books() == before.books().remove(i)
    &&& after.notes() == before.notes().remove(i)
}

/// What the store holds of book `id` is the same in `a` and `b`.
pub open spec fn same_book(a: FakeBookRepository, b: FakeBookRepository, id: BookId) -> bool {
    a.find(id) == b.find(id) && a.notes_of(id) == b.notes_of(id)
}

/// A registered book is found under its new identifier, with no notes; that
/// identifier named no book before; every other book is as it was.
pub proof fn law_registered_book_is_found(
    before: FakeBookRepository,
    after: FakeBookRepository,
    book: StoredBook,
)
    requires
        before.wf(),
        registers(before, after, book),
    ensures
        before.find(book.book().id) is None,
        after.find(book.book().id) == Some(book),
        after.notes_of(book.book().id) == Seq::<Note>::empty(),
        forall|id: BookId| id != book.book().id ==> #[trigger] same_book(before, after, id),
{
    before.lemma_ids_increase();
    let a = before.books();
    let b = after.books();
    let id = book.book().id;
    assert forall|j: int| 0 <= j < a.len() implies (#[trigger] a[j]).book().id != id by {
        assert(a[j].book().id.0 <= before.last_book_id());
    }
    assert(ids_increase(b)) by {
        assert forall|x: int, y: int| 0 <= x < y < b.len() implies (#[trigger] b[x]).book().id.0
            < (#[trigger] b[y]).book().id.0 by {
            if y == a.len() {
                assert(a[x].book().id.0 <= before.last_book_id());
            } else {
                assert(b[x] == a[x] && b[y] == a[y]);
            }
        }
    }
    assert(b[a.len() as int] == book);
    lemma_index_of(b, id, a.len() as int);
    assert forall|other: BookId| other != id implies #[trigger] same_book(before, after, other) by {
        match index_of(a, other) {
            Some(j) => {
                assert(a[j].book().id == other);
                assert(b[j] == a[j]);
                lemma_index_of(b, other, j);
            },
            None => {
                assert forall|j: int| 0 <= j < b.len() implies (#[trigger] b[j]).book().id != other by {
                    if j < a.len() {
                        assert(b[j] == a[j]);
                    }
                }
            },
        }
    }
}

/// After a note is added to the book at position `i`, that book's notes end
/// with it; the book itself and every other book are as they were.
pub proof fn law_added_note_is_listed(
    before: FakeBookRepository,
    after: FakeBookRepository,
    i: int,
    note: Note,
)
    requires
        before.wf(),
        0 <= i < before.books().len(),
        appends_note(before, after, i, note),
    ensures
        after.find(before.books()[i].book().id) == before.find(before.books()[i].book().id),
        after.notes_of(before.books()[i].book().id) == before.notes_of(
            before.books()[i].book().id,
        ).push(note),
        forall|id: BookId|
            id != before.books()[i].book().id ==> #[trigger] same_book(before, after, id),
{
    before.lemma_ids_increase();
    let id = before.books()[i].book().id;
    lemma_index_of(before.books(), id, i);
    assert forall|other: BookId| other != id implies #[trigger] same_book(before, after, other) by {
        if let Some(j) = index_of(before.books(), other) {
            assert(before.books()[j].book().id == other);
            assert(j != i);
        }
    }
}

/// After the book at position `i` is replaced by `book` with the same
/// identifier, looking it up gives `book` with the same notes, and every
/// other book is as it was.
pub proof fn law_saved_book_is_found(
    before: FakeBookRepository,
    after: FakeBookRepository,
    i: int,
    book: StoredBook,
)
    requires
        before.wf(),
        0 <= i < before.books().len(),
        before.books()[i].book().id == book.book().id,
        replaces_book(before, after, i, book),
    ensures
        after.find(book.book().id) == Some(book),
        after.notes_of(book.book().id) == before.notes_of(book.book().id),
        forall|id: BookId| id != book.book().id ==> #[trigger] same_book(before, after, id),
{
    lemma_replaced_book(before, after, i, book);
}

/// After the book at position `i` is finished as `book` with `note`, looking
/// it up gives `book`, its notes end with `note`, and every other book is as
/// it was.
pub proof fn law_completion_saves_book_and_note(
    before: FakeBookRepository,
    after: FakeBookRepository,
    i: int,
    book: StoredBook,
    note: Note,
)
    requires
        before.wf(),
        0 <= i < before.books().len(),
        before.books()[i].book().id == book.book().id,
        replaces_book_with_note(before, after, i, book, note),
    ensures
        after.find(book.book().id) == Some(book),
        after.notes_of(book.book().id) == before.notes_of(book.book().id).push(note),
        forall|id: BookId| id != book.book().id ==> #[trigger] same_book(before, after, id),
{
    lemma_replaced_book(before, after, i, book);
}

/// Replacing the book at position `i` keeps every identifier at its place.
proof fn lemma_replaced_book(before: FakeBookRepository, after: FakeBookRepository, i: int, book: StoredBook)
    requires
        before.wf(),
        0 <= i < before.books().len(),
        before.books()[i].book().id == book.book().id,
        after.books() == before.books().update(i, book),
        after.notes().len() == before.notes().len(),
        forall|j: int| 0 <= j < before.notes().len() && j != i ==> after.notes()[j] == before.notes()[j],
    ensures
        index_of(after.books(), book.book().id) == Some(i),
        after.find(book.book().id) == Some(book),
        forall|id: BookId| id != book.book().id ==> #[trigger] same_book(before, after, id),
{
    before.lemma_ids_increase();
    let a = before.books();
    let b = after.books();
    lemma_index_of(a, book.book().id, i);
    assert forall|j: int| 0 <= j < a.len() implies (#[trigger] a[j]).book().id == b[j].book().id by {}
    lemma_same_ids_index_of(a, b, book.book().id);
    assert forall|other: BookId| other != book.book().id implies #[trigger] same_book(
        before,
        after,
        other,
    ) by {
        lemma_same_ids_index_of(a, b, other);
        if let Some(j) = index_of(a, other) {
            assert(a[j].book().id == other);
            assert(j != i);
        }
    }
}

/// After the book at position `i` is deleted, it is not found and has no
/// notes, and every other book is as it was.
pub proof fn law_deleted_book_is_gone(before: FakeBookRepository, after: FakeBookRepository, i: int)
    requires
        before.wf(),
        0 <= i < before.books().len(),
        removes_book(before, after, i),
    ensures
        after.find(before.books()[i].book().id) is None,
        after.notes_of(before.books()[i].book().id) == Seq::<Note>::empty(),
        forall|id: BookId|
            id != before.books()[i].book().id ==> #[trigger] same_book(before, after, id),
{
    before.lemma_ids_increase();
    let a = before.books();
    let b = after.books();
    let id = a[i].book().id;
    assert forall|j: int| 0 <= j < b.len() implies (#[trigger] b[j]).book().id != id by {
        if j < i {
            assert(b[j] == a[j]);
        } else {
            assert(b[j] == a[j + 1]);
        }
    }
    assert(ids_increase(b)) by {
        assert forall|x: int, y: int| 0 <= x < y < b.len() implies (#[trigger] b[x]).book().id.0
            < (#[trigger] b[y]).book().id.0 by {
            let ox = if x < i { x } else { x + 1 };
            let oy = if y < i { y } else { y + 1 };
            assert(b[x] == a[ox]);
            assert(b[y] == a[oy]);
        }
    }
    assert forall|other: BookId| other != id implies #[trigger] same_book(before, after, other) by {
        if let Some(j) = index_of(a, other) {
            assert(a[j].book().id == other);
            assert(j != i);
            let nj = if j < i { j } else { j - 1 };
            assert(b[nj] == a[j]);
            lemma_index_of(b, other, nj);
        } else {
            assert forall|j: int| 0 <= j < b.len() implies (#[trigger] b[j]).book().id != other by {
                if j < i {
                    assert(b[j] == a[j]);
                } else {
                    assert(b[j] == a[j + 1]);
                }
            }
        }
    }
}

/// Of two status updates made from the same reading of a book, once the first
/// is saved, the book is no longer in the status both expected, so the second
/// is refused as a `Conflict` (see `update_book_status`).
pub proof fn law_stale_update_conflicts(
    before: FakeBookRepository,
    after: FakeBookRepository,
    i: int,
    expected: ReadingStatus,
    first: StoredBook,
)
    requires
        before.wf(),
        0 <= i < before.books().len(),
        before.books()[i].book().id == first.book().id,
        before.books()[i].state() == expected,
        first.state() != expected,
        replaces_book(before, after, i, first),
    ensures
        index_of(after.books(), first.book().id) == Some(i),
        after.books()[i].state() != expected,
{
    lemma_replaced_book(before, after, i, first);
}

} // verus!
