//! Rows as the database returns them, and their conversion into the domain
//! types. A stored value that fails validation is the database's fault, not
//! the client's, so it becomes `InvalidStoredValue`.

use vstd::prelude::*;
use vstd::std_specs::convert::TryFromSpecImpl;

use crate::domain::text::trim;
use crate::domain::{
    names_a_status, status_name, unknown_stored_status_message, Author, BookId, BookTitle, Note,
    NoteBody, NoteId, ReadingStatus, StoredBook,
};
use crate::error::AppError;

verus! {

/// A row of the `books` table.
pub struct BookRow {
    pub id: i64,
    pub title: String,
    pub author: String,
    pub status: String,
}

/// A row of the `notes` table.
pub struct NoteRow {
    pub id: i64,
    pub body: String,
}

/// The answer to a deletion from the number of rows it removed: none means
/// that there was no such book.
pub fn deletion_result(rows_affected: u64) -> (r: Result<(), AppError>)
    ensures
        rows_affected == 0 ==> (r matches Err(AppError::NotFound)),
        rows_affected > 0 ==> r is Ok,
{
    if rows_affected == 0 {
        Err(AppError::NotFound)
    } else {
        Ok(())
    }
}

impl TryFrom<BookRow> for StoredBook {
    type Error = AppError;

    fn try_from(row: BookRow) -> (r: Result<Self, AppError>)
        ensures
            trim(row.title@).len() == 0 ==> (r matches Err(e) && e.is_invalid_stored_value(
                "title must not be empty"@,
            )),
            trim(row.title@).len() > 0 && trim(row.author@).len() == 0 ==> (r matches Err(e)
                && e.is_invalid_stored_value("author must not be empty"@)),
            trim(row.title@).len() > 0 && trim(row.author@).len() > 0 && !names_a_status(
                row.status@,
            ) ==> (r matches Err(e) && e.is_invalid_stored_value(
                unknown_stored_status_message(row.status@),
            )),
            r matches Ok(book) ==> {
                &&& book.book().id == BookId(row.id)
                &&& book.book().title == trim(row.title@)
                &&& book.book().author == trim(row.author@)
                &&& status_name(book.state()) == row.status@
            },
            r is Ok <==> trim(row.title@).len() > 0 && trim(row.author@).len() > 0
                && names_a_status(row.status@),
    {
        let title = match BookTitle::try_from(row.title) {
            Ok(title) => title,
            Err(e) => return Err(AppError::InvalidStoredValue(e.to_string())),
        };
        let author = match Author::try_from(row.author) {
            Ok(author) => author,
            Err(e) => return Err(AppError::InvalidStoredValue(e.to_string())),
        };
        let status = match ReadingStatus::try_from(row.status.as_str()) {
            Ok(status) => status,
            Err(e) => return Err(e),
        };
        Ok(StoredBook::restore(BookId(row.id), title, author, status))
    }
}

/// The contract of `try_from` is the `ensures` of the impl above.
impl TryFromSpecImpl<BookRow> for StoredBook {
    open spec fn obeys_try_from_spec() -> bool {
        false
    }

    open spec fn try_from_spec(v: BookRow) -> Result<Self, AppError> {
        arbitrary()
    }
}

impl TryFrom<NoteRow> for Note {
    type Error = AppError;

    fn try_from(row: NoteRow) -> (r: Result<Self, AppError>)
        ensures
            match r {
                Ok(note) => note.id == NoteId(row.id) && note.body@ == trim(row.body@),
                Err(e) => trim(row.body@).len() == 0 && e.is_invalid_stored_value(
                    "note body must not be empty"@,
                ),
            },
    {
        match NoteBody::try_from(row.body) {
            Ok(body) => Ok(Note { id: NoteId(row.id), body }),
            Err(e) => Err(AppError::InvalidStoredValue(e.to_string())),
        }
    }
}

/// The contract of `try_from` is the `ensures` of the impl above.
impl TryFromSpecImpl<NoteRow> for Note {
    open spec fn obeys_try_from_spec() -> bool {
        false
    }

    open spec fn try_from_spec(v: NoteRow) -> Result<Self, AppError> {
        arbitrary()
    }
}

} // verus!
