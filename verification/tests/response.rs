use rust_reading_notes_api::domain::{BookId, ReadingStatus};
use rust_reading_notes_api::error::AppError;
use rust_reading_notes_api::repository::FakeBookRepository;
use rust_reading_notes_api::response::{
    BookDetailResponse, BookResponse, ReadingCompletionResultResponse,
};
use rust_reading_notes_api::service::{
    AddNote, CreateBook, ReadingCompletionFailure, ReadingCompletionResult, ReadingService,
};

#[test]
fn hides_database_error_details() {
    let response = AppError::Database(sqlx::Error::PoolClosed).error_response();
    assert_eq!(response.status, 500);
    assert_eq!(response.code, "internal_error");
    assert_eq!(response.message, "internal server error");
}

#[test]
fn hides_invalid_stored_value_details() {
    let response = AppError::InvalidStoredValue("title must not be empty".to_owned()).error_response();
    assert_eq!(response.status, 500);
    assert_eq!(response.code, "internal_error");
    assert_eq!(response.message, "internal server error");
}

#[test]
fn maps_each_client_error_to_its_status_and_code() {
    let response = AppError::Validation("title must not be empty".to_owned()).error_response();
    assert_eq!(
        (response.status, response.code, response.message.as_str()),
        (400, "validation_error", "title must not be empty")
    );
    let response = AppError::NotFound.error_response();
    assert_eq!(
        (response.status, response.code, response.message.as_str()),
        (404, "not_found", "resource not found")
    );
    let response = AppError::Conflict.error_response();
    assert_eq!(
        (response.status, response.code, response.message.as_str()),
        (409, "conflict", "reading state conflict")
    );
}

#[test]
fn error_display_texts() {
    assert_eq!(AppError::NotFound.to_string(), "resource not found");
    assert_eq!(AppError::Conflict.to_string(), "reading state conflict");
    assert!(AppError::Database(sqlx::Error::PoolClosed)
        .to_string()
        .starts_with("database error: "));
    assert_eq!(
        AppError::InvalidStoredValue("x".to_owned()).to_string(),
        "invalid value stored in database: x"
    );
}

#[test]
fn gets_a_book_with_its_notes() {
    let mut service = ReadingService::new(FakeBookRepository::new());
    let book = service
        .create_book(CreateBook {
            title: "Rust Atomics and Locks".to_owned(),
            author: "Mara Bos".to_owned(),
        })
        .unwrap();
    let response = BookResponse::from(book);
    assert_eq!(response.id, BookId(1));
    assert_eq!(response.title, "Rust Atomics and Locks");
    assert_eq!(response.author, "Mara Bos");
    assert_eq!(response.status, ReadingStatus::WantToRead);
    service
        .add_note(
            BookId(1),
            AddNote {
                body: "Ordering rules are the key.".to_owned(),
            },
        )
        .unwrap();
    let detail = BookDetailResponse::from(service.get_book(BookId(1)).unwrap());
    assert_eq!(detail.book.title, "Rust Atomics and Locks");
    assert_eq!(detail.notes.len(), 1);
    assert_eq!(detail.notes[0].id.0, 1);
    assert_eq!(detail.notes[0].body, "Ordering rules are the key.");
}

#[test]
fn completion_outcomes_carry_their_error_codes() {
    for (failure, code, message) in [
        (ReadingCompletionFailure::NotFound, "not_found", "resource not found"),
        (ReadingCompletionFailure::Conflict, "conflict", "reading state conflict"),
        (
            ReadingCompletionFailure::Internal,
            "internal_error",
            "internal server error",
        ),
    ] {
        let response = ReadingCompletionResultResponse::from(ReadingCompletionResult::Failed {
            book_id: BookId(5),
            error: failure,
        });
        let ReadingCompletionResultResponse::Failed { book_id, error } = response else {
            panic!("a failure stays a failure")
        };
        assert_eq!(book_id, BookId(5));
        assert_eq!(error.code, code);
        assert_eq!(error.message, message);
    }
    assert_eq!(
        ReadingCompletionFailure::from(AppError::InvalidStoredValue("x".to_owned())),
        ReadingCompletionFailure::Internal
    );
    assert_eq!(
        ReadingCompletionFailure::from(AppError::Validation("x".to_owned())),
        ReadingCompletionFailure::Internal
    );
}
