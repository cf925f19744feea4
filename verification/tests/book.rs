use rust_reading_notes_api::domain::{
    Author, Book, BookId, BookTitle, Finished, Reading, ReadingStatus, StoredBook,
};

#[test]
fn transitions_preserve_book_data() {
    let book = Book::new(
        BookId(7),
        BookTitle::try_from("Rust Book".to_owned()).unwrap(),
        Author::try_from("Author".to_owned()).unwrap(),
    );
    let reading: Book<Reading> = book.start_reading();
    let finished: Book<Finished> = reading.finish();
    assert_eq!(finished.id(), BookId(7));
    assert_eq!(finished.title().as_str(), "Rust Book");
    assert_eq!(finished.author().as_str(), "Author");
}

#[test]
fn restored_books_keep_their_state_and_data() {
    for status in [
        ReadingStatus::WantToRead,
        ReadingStatus::Reading,
        ReadingStatus::Finished,
    ] {
        let book = StoredBook::restore(
            BookId(3),
            BookTitle::try_from("Title".to_owned()).unwrap(),
            Author::try_from("Author".to_owned()).unwrap(),
            status,
        );
        assert_eq!(book.id(), BookId(3));
        assert_eq!(book.status(), status);
        let (id, title, author, stored) = book.into_parts();
        assert_eq!(id, BookId(3));
        assert_eq!(title.as_str(), "Title");
        assert_eq!(author.as_str(), "Author");
        assert_eq!(stored, status);
    }
}

#[test]
fn status_names_round_trip() {
    for status in [
        ReadingStatus::WantToRead,
        ReadingStatus::Reading,
        ReadingStatus::Finished,
    ] {
        assert_eq!(ReadingStatus::parse_input(status.as_str()).unwrap(), status);
        assert_eq!(ReadingStatus::try_from(status.as_str()).unwrap(), status);
    }
    assert_eq!(ReadingStatus::WantToRead.as_str(), "want_to_read");
    assert_eq!(ReadingStatus::Reading.as_str(), "reading");
    assert_eq!(ReadingStatus::Finished.as_str(), "finished");
}

#[test]
fn unknown_status_names_are_refused() {
    let error = ReadingStatus::parse_input("paused").unwrap_err();
    assert_eq!(
        error.to_string(),
        "status must be one of: want_to_read, reading, finished"
    );
    let error = ReadingStatus::try_from("Reading").unwrap_err();
    assert_eq!(
        error.to_string(),
        "invalid value stored in database: unknown reading status: Reading"
    );
    assert!(ReadingStatus::parse_input(" reading").is_err());
}
