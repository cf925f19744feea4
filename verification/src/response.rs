//! What a client receives: books, notes and outcomes as plain values, with no
//! validated wrapper types left.

use vstd::prelude::*;
use vstd::std_specs::convert::FromSpecImpl;

use crate::domain::{BookDetail, BookId, Note, NoteId, ReadingStatus, StoredBook};
use crate::service::ReadingCompletionResult;

verus! {

/// A book as a client sees it.
#[derive(Debug)]
pub struct BookResponse {
    pub id: BookId,
    pub title: String,
    pub author: String,
    pub status: ReadingStatus,
}

/// A note as a client sees it.
#[derive(Debug)]
pub struct NoteResponse {
    pub id: NoteId,
    pub body: String,
}

/// A book with its notes, as a client sees it.
#[derive(Debug)]
pub struct BookDetailResponse {
    pub book: BookResponse,
    pub notes: Vec<NoteResponse>,
}

/// Why one book of a reading completion was not recorded, as a client sees it.
#[derive(Debug)]
pub struct ErrorDetail {
    pub code: &'static str,
    pub message: &'static str,
}

/// The outcome of one book of a reading completion, as a client sees it.
#[derive(Debug)]
pub enum ReadingCompletionResultResponse {
    Completed { book_id: BookId, book: BookResponse, note: NoteResponse },
    Failed { book_id: BookId, error: ErrorDetail },
}

impl From<StoredBook> for BookResponse {
    fn from(book: StoredBook) -> (r: Self)
        ensures
            r.id == book.book().id,
            r.title@ == book.book().title,
            r.author@ == book.book().author,
            r.status == book.state(),
    {
        let (id, title, author, status) = book.into_parts();
        BookResponse { id, title: title.into_inner(), author: author.into_inner(), status }
    }
}

/// The contract of `from` is the `ensures` of the impl above.
impl FromSpecImpl<StoredBook> for BookResponse {
    open spec fn obeys_from_spec() -> bool {
        false
    }

    open spec fn from_spec(v: StoredBook) -> Self {
        arbitrary()
    }
}

impl From<Note> for NoteResponse {
    fn from(note: Note) -> (r: Self)
        ensures
            r.id == note.id,
            r.body@ == note.body@,
    {
        let Note { id, body } = note;
        NoteResponse { id, body: body.into_inner() }
    }
}

/// The contract of `from` is the `ensures` of the impl above.
impl FromSpecImpl<Note> for NoteResponse {
    open spec fn obeys_from_spec() -> bool {
        false
    }

    open spec fn from_spec(v: Note) -> Self {
        arbitrary()
    }
}

impl From<BookDetail> for BookDetailResponse {
    fn from(detail: BookDetail) -> (r: Self)
        ensures
            r.book.id == detail.book.book().id,
            r.book.title@ == detail.book.book().title,
            r.book.author@ == detail.book.book().author,
            r.book.status == detail.book.state(),
            r.notes@.len() == detail.notes@.len(),
            forall|i: int|
                0 <= i < r.notes@.len() ==> (#[trigger] r.notes@[i]).id == detail.notes@[i].id
                    && r.notes@[i].body@ == detail.notes@[i].body@,
    {
        let BookDetail { book, notes } = detail;
        let ghost source = notes@;
        let mut rest = notes;
        let mut converted: Vec<NoteResponse> = Vec::with_capacity(rest.len());
        let n = rest.len();
        let mut i: usize = 0;
        while i < n
            invariant
                n == source.len(),
                i <= n,
                rest@ == source.subrange(i as int, n as int),
                converted@.len() == i,
                forall|k: int|
                    0 <= k < i ==> (#[trigger] converted@[k]).id == source[k].id
                        && converted@[k].body@ == source[k].body@,
            decreases n - i,
        {
            let note = rest.remove(0);
            assert(rest@ =~= source.subrange(i + 1, n as int));
            converted.push(NoteResponse::from(note));
            i = i + 1;
        }
        BookDetailResponse { book: BookResponse::from(book), notes: converted }
    }
}

/// The contract of `from` is the `ensures` of the impl above.
impl FromSpecImpl<BookDetail> for BookDetailResponse {
    open spec fn obeys_from_spec() -> bool {
        false
    }

    open spec fn from_spec(v: BookDetail) -> Self {
        arbitrary()
    }
}

impl From<ReadingCompletionResult> for ReadingCompletionResultResponse {
    fn from(result: ReadingCompletionResult) -> (r: Self)
        ensures
            match result {
                ReadingCompletionResult::Completed(c) => r matches
                ReadingCompletionResultResponse::Completed { book_id, book, note } && book_id
                    == c.book.book().id && book.id == c.book.book().id && book.title@
                    == c.book.book().title && book.author@ == c.book.book().author && book.status
                    == c.book.state() && note.id == c.note.id && note.body@ == c.note.body@,
                ReadingCompletionResult::Failed { book_id, error } => r matches
                ReadingCompletionResultResponse::Failed { book_id: id, error: detail } && id
                    == book_id && detail.code@ == error.code_text() && detail.message@
                    == error.message_text(),
            },
    {
        match result {
            ReadingCompletionResult::Completed(c) => {
                let book_id = c.book.id();
                ReadingCompletionResultResponse::Completed {
                    book_id,
                    book: BookResponse::from(c.book),
                    note: NoteResponse::from(c.note),
                }
            },
            ReadingCompletionResult::Failed { book_id, error } => ReadingCompletionResultResponse::Failed {
                book_id,
                error: ErrorDetail { code: error.code(), message: error.message() },
            },
        }
    }
}

/// The contract of `from` is the `ensures` of the impl above.
impl FromSpecImpl<ReadingCompletionResult> for ReadingCompletionResultResponse {
    open spec fn obeys_from_spec() -> bool {
        false
    }

    open spec fn from_spec(v: ReadingCompletionResult) -> Self {
        arbitrary()
    }
}

} // verus!
