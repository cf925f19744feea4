use rust_reading_notes_api::domain::{Note, ReadingStatus, StoredBook};
use rust_reading_notes_api::error::AppError;
use rust_reading_notes_api::repository::rows::{deletion_result, BookRow, NoteRow};

#[test]
fn rejects_an_unknown_stored_status() {
    let error = StoredBook::try_from(BookRow {
        id: 1,
        title: "Title".into(),
        author: "Author".into(),
        status: "paused".into(),
    })
    .unwrap_err();
    assert!(matches!(error, AppError::InvalidStoredValue(_)));
}

#[test]
fn stored_book_text_is_validated_and_trimmed() {
    for (title, author, message) in [
        (" \t", "Author", "title must not be empty"),
        ("Book", "\n", "author must not be empty"),
    ] {
        let error = StoredBook::try_from(BookRow {
            id: 1,
            title: title.to_owned(),
            author: author.to_owned(),
            status: "want_to_read".to_owned(),
        })
        .unwrap_err();
        assert!(matches!(error, AppError::InvalidStoredValue(ref value) if value == message));
    }
    let book = StoredBook::try_from(BookRow {
        id: 1,
        title: " Book \n".to_owned(),
        author: " Author \t".to_owned(),
        status: "reading".to_owned(),
    })
    .unwrap();
    let (_, title, author, status) = book.into_parts();
    assert_eq!(title.as_str(), "Book");
    assert_eq!(author.as_str(), "Author");
    assert_eq!(status, ReadingStatus::Reading);
}

#[test]
fn stored_note_text_is_validated_and_trimmed() {
    let error = Note::try_from(NoteRow {
        id: 1,
        body: " \n".to_owned(),
    })
    .unwrap_err();
    assert_eq!(
        error.to_string(),
        "invalid value stored in database: note body must not be empty"
    );
    let note = Note::try_from(NoteRow {
        id: 1,
        body: " メモ\n本文 \t".to_owned(),
    })
    .unwrap();
    assert_eq!(note.body.as_str(), "メモ\n本文");
}

#[test]
fn a_stored_title_is_checked_before_the_status() {
    let error = StoredBook::try_from(BookRow {
        id: 4,
        title: "".to_owned(),
        author: "".to_owned(),
        status: "paused".to_owned(),
    })
    .unwrap_err();
    assert_eq!(
        error.to_string(),
        "invalid value stored in database: title must not be empty"
    );
    let book = StoredBook::try_from(BookRow {
        id: 4,
        title: "T".to_owned(),
        author: "A".to_owned(),
        status: "finished".to_owned(),
    })
    .unwrap();
    assert_eq!(book.id().0, 4);
    assert_eq!(book.status(), ReadingStatus::Finished);
}

#[test]
fn a_deletion_that_removed_no_row_is_not_found() {
    assert!(matches!(deletion_result(0), Err(AppError::NotFound)));
    assert!(deletion_result(1).is_ok());
    assert!(deletion_result(3).is_ok());
}
