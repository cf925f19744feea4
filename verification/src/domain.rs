//! The central types of the application, independent of HTTP and SQL.

use vstd::prelude::*;

pub mod book;
pub mod text;

pub use book::{Book, BookView, Finished, Reading, StoredBook, WantToRead};
pub use text::{Author, BookTitle, InvalidText, NoteBody};

use crate::error::AppError;
use vstd::std_specs::convert::TryFromSpecImpl;

verus! {

/// The identifier of a book. A distinct type so that it is never taken for a
/// note's identifier.
#[derive(Debug, Clone, Copy, PartialEq, Eq, Structural)]
pub struct BookId(pub i64);

/// The identifier of a note.
#[derive(Debug, Clone, Copy, PartialEq, Eq, Structural)]
pub struct NoteId(pub i64);

/// Where a reader stands with a book.
#[derive(Debug, Clone, Copy, PartialEq, Eq, Structural)]
pub enum ReadingStatus {
    WantToRead,
    Reading,
    Finished,
}

/// The text of `s`, as requests and stored rows write it.
pub open spec fn status_name(s: ReadingStatus) -> Seq<char> {
    match s {
        ReadingStatus::WantToRead => "want_to_read"@,
        ReadingStatus::Reading => "reading"@,
        ReadingStatus::Finished => "finished"@,
    }
}

/// Whether `text` names some reading status.
pub open spec fn names_a_status(text: Seq<char>) -> bool {
    exists|s: ReadingStatus| status_name(s) == text
}

/// The message of a request that names no reading status.
pub open spec fn unknown_status_message() -> Seq<char> {
    "status must be one of: want_to_read, reading, finished"@
}

/// The message of a stored row whose status names no reading status.
pub open spec fn unknown_stored_status_message(text: Seq<char>) -> Seq<char> {
    "unknown reading status: "@ + text
}

/// Whether two texts hold the same characters.
pub fn same_text(a: &str, b: &str) -> (r: bool)
    ensures
        r == (a@ == b@),
{
    a.to_owned() == b.to_owned()
}

/// The three names differ, so a text names at most one status.
pub proof fn lemma_status_names_distinct()
    ensures
        forall|s: ReadingStatus, t: ReadingStatus| status_name(s) == status_name(t) ==> s == t,
{
    reveal_strlit("want_to_read");
    reveal_strlit("reading");
    reveal_strlit("finished");
    assert("want_to_read"@[0] != "reading"@[0]);
    assert("want_to_read"@[0] != "finished"@[0]);
    assert("reading"@[0] != "finished"@[0]);
}

impl ReadingStatus {
    /// The status as requests and stored rows write it.
    pub fn as_str(self) -> (r: &'static str)
        ensures
            r@ == status_name(self),
    {
        match self {
            ReadingStatus::WantToRead => "want_to_read",
            ReadingStatus::Reading => "reading",
            ReadingStatus::Finished => "finished",
        }
    }

    /// The status that `value` names, if any. Returns `None` when `value`
    /// names none of them.
    pub fn from_name(value: &str) -> (r: Option<Self>)
        ensures
            match r {
                Some(s) => status_name(s) == value@,
                None => !names_a_status(value@),
            },
    {
        proof {
            lemma_status_names_distinct();
        }
        if same_text(value, "want_to_read") {
            Some(ReadingStatus::WantToRead)
        } else if same_text(value, "reading") {
            Some(ReadingStatus::Reading)
        } else if same_text(value, "finished") {
            Some(ReadingStatus::Finished)
        } else {
            assert forall|s: ReadingStatus| status_name(s) != value@ by {
                match s {
                    ReadingStatus::WantToRead => {},
                    ReadingStatus::Reading => {},
                    ReadingStatus::Finished => {},
                }
            }
            None
        }
    }

    /// Reads a status from a request. A name that is not a status is the
    /// client's mistake: a validation error.
    pub fn parse_input(value: &str) -> (r: Result<Self, AppError>)
        ensures
            match r {
                Ok(s) => status_name(s) == value@,
                Err(e) => !names_a_status(value@) && e.is_validation(unknown_status_message()),
            },
    {
        match Self::from_name(value) {
            Some(s) => Ok(s),
            None => Err(
                AppError::Validation(
                    String::from_str("status must be one of: want_to_read, reading, finished"),
                ),
            ),
        }
    }
}

/// Reads a status from a stored row. A name that is not a status means that
/// the database holds a value the application never writes.
impl<'a> TryFrom<&'a str> for ReadingStatus {
    type Error = AppError;

    fn try_from(value: &'a str) -> (r: Result<Self, AppError>)
        ensures
            match r {
                Ok(s) => status_name(s) == value@,
                Err(e) => !names_a_status(value@) && e.is_invalid_stored_value(
                    unknown_stored_status_message(value@),
                ),
            },
    {
        match ReadingStatus::from_name(value) {
            Some(s) => Ok(s),
            None => {
                let mut message = String::from_str("unknown reading status: ");
                message.append(value);
                Err(AppError::InvalidStoredValue(message))
            },
        }
    }
}

/// The contract of `try_from` is the `ensures` of the impl above.
impl<'a> TryFromSpecImpl<&'a str> for ReadingStatus {
    open spec fn obeys_try_from_spec() -> bool {
        false
    }

    open spec fn try_from_spec(v: &'a str) -> Result<Self, AppError> {
        arbitrary()
    }
}

/// A note attached to a book.
#[derive(Debug)]
pub struct Note {
    pub id: NoteId,
    pub body: NoteBody,
}

impl Clone for Note {
    fn clone(&self) -> (r: Self)
        ensures
            r == *self,
    {
        Note { id: self.id, body: self.body.clone() }
    }
}

/// A book together with its notes, in the order they were added.
#[derive(Debug)]
pub struct BookDetail {
    pub book: StoredBook,
    pub notes: Vec<Note>,
}

} // verus!
