use rust_reading_notes_api::domain::{BookId, ReadingStatus, StoredBook};
use rust_reading_notes_api::error::AppError;
use rust_reading_notes_api::repository::FakeBookRepository;
use rust_reading_notes_api::service::{
    AddNote, CreateBook, ReadingCompletionFailure, ReadingCompletionResult, ReadingService,
    RecordReadingCompletion, RecordReadingCompletions, UpdateStatus,
};

fn new_service() -> ReadingService {
    ReadingService::new(FakeBookRepository::new())
}

fn create(service: &mut ReadingService, title: &str, author: &str) -> StoredBook {
    service
        .create_book(CreateBook {
            title: title.to_owned(),
            author: author.to_owned(),
        })
        .unwrap()
}

fn update(service: &mut ReadingService, id: BookId, status: &str) -> Result<StoredBook, AppError> {
    service.update_status(
        id,
        UpdateStatus {
            status: status.to_owned(),
        },
    )
}

fn completions(items: &[(i64, &str)]) -> RecordReadingCompletions {
    RecordReadingCompletions {
        items: items
            .iter()
            .map(|(book_id, body)| RecordReadingCompletion {
                book_id: BookId(*book_id),
                body: (*body).to_owned(),
            })
            .collect(),
    }
}

#[test]
fn reports_a_save_conflict_without_changing_the_book() {
    let mut service = new_service();
    let book = create(&mut service, "Rust Book", "Author");
    let mut fake = service.into_repository();
    fake.fail_next_update(AppError::Conflict);
    let mut service = ReadingService::new(fake);
    let error = update(&mut service, book.id(), "reading").unwrap_err();
    assert!(matches!(error, AppError::Conflict));
    let stored = service.repository().find_book(book.id()).unwrap();
    assert_eq!(stored.status(), ReadingStatus::WantToRead);
    assert_eq!(
        update(&mut service, book.id(), "reading").unwrap().status(),
        ReadingStatus::Reading
    );
}

#[test]
fn rejects_invalid_inputs_without_changing_saved_state() {
    let mut service = new_service();
    for (title, author) in [(" ", "Author"), ("Title", "\t")] {
        assert!(matches!(
            service.create_book(CreateBook {
                title: title.to_owned(),
                author: author.to_owned(),
            }),
            Err(AppError::Validation(_))
        ));
        assert!(service.list_books(None).unwrap().is_empty());
    }

    let book = create(&mut service, "Book", "Author");
    assert!(matches!(
        service.add_note(
            book.id(),
            AddNote {
                body: "\n".to_owned(),
            }
        ),
        Err(AppError::Validation(_))
    ));
    assert!(service.get_book(book.id()).unwrap().notes.is_empty());

    assert!(matches!(
        service.list_books(Some("paused".to_owned())),
        Err(AppError::Validation(_))
    ));
    assert!(matches!(
        update(&mut service, book.id(), "paused"),
        Err(AppError::Validation(_))
    ));
    assert_eq!(
        service.get_book(book.id()).unwrap().book.status(),
        ReadingStatus::WantToRead
    );
}

#[test]
fn preserves_a_database_save_error_and_the_stored_state() {
    let mut service = new_service();
    let book = create(&mut service, "Book", "Author");
    let mut fake = service.into_repository();
    fake.fail_next_update(AppError::Database(sqlx::Error::PoolClosed));
    let mut service = ReadingService::new(fake);
    assert!(matches!(
        update(&mut service, book.id(), "reading"),
        Err(AppError::Database(sqlx::Error::PoolClosed))
    ));
    assert_eq!(
        service.get_book(book.id()).unwrap().book.status(),
        ReadingStatus::WantToRead
    );
}

#[test]
fn rejects_invalid_transitions_without_changing_saved_state() {
    let mut service = new_service();
    let book = create(&mut service, "Book", "Author");
    for (advance, rejected, expected) in [
        (
            None,
            vec!["want_to_read", "finished"],
            ReadingStatus::WantToRead,
        ),
        (
            Some("reading"),
            vec!["want_to_read", "reading"],
            ReadingStatus::Reading,
        ),
        (
            Some("finished"),
            vec!["want_to_read", "reading", "finished"],
            ReadingStatus::Finished,
        ),
    ] {
        if let Some(status) = advance {
            update(&mut service, book.id(), status).unwrap();
        }
        for status in rejected {
            assert!(matches!(
                update(&mut service, book.id(), status),
                Err(AppError::Conflict)
            ));
            assert_eq!(
                service.get_book(book.id()).unwrap().book.status(),
                expected
            );
        }
    }
}

#[test]
fn accepts_only_forward_adjacent_transitions() {
    let states = ["want_to_read", "reading", "finished"];
    for (from, &current) in states.iter().enumerate() {
        for (to, &requested) in states.iter().enumerate() {
            let mut service = new_service();
            let book = create(&mut service, "Title", "Author");
            for &step in states.iter().take(from + 1).skip(1) {
                update(&mut service, book.id(), step).unwrap();
            }
            let result = update(&mut service, book.id(), requested);
            let allowed = to == from + 1;
            assert_eq!(result.is_ok(), allowed, "{current} -> {requested}");
            if !allowed {
                assert!(matches!(result, Err(AppError::Conflict)));
            }
            let stored = service.get_book(book.id()).unwrap().book.status();
            assert_eq!(
                stored.as_str(),
                if allowed { requested } else { current }
            );
        }
    }
}

#[test]
fn manages_books_and_notes_through_the_repository() {
    let mut service = new_service();
    let first = create(&mut service, " Book \n", " Author \t");
    let second = create(&mut service, "Second", "Author");
    assert_eq!(first.status(), ReadingStatus::WantToRead);
    let (_, title, author, _) = first.clone().into_parts();
    assert_eq!(title.as_str(), "Book");
    assert_eq!(author.as_str(), "Author");
    assert!(service.get_book(first.id()).unwrap().notes.is_empty());
    let note = service
        .add_note(
            first.id(),
            AddNote {
                body: " memo \n".to_owned(),
            },
        )
        .unwrap();
    let detail = service.get_book(first.id()).unwrap();
    assert_eq!(detail.notes.len(), 1);
    assert_eq!(detail.notes[0].id, note.id);
    assert_eq!(detail.notes[0].body.as_str(), "memo");
    update(&mut service, first.id(), "reading").unwrap();
    let all = service.list_books(None).unwrap();
    assert_eq!(
        all.iter().map(StoredBook::id).collect::<Vec<_>>(),
        vec![first.id(), second.id()]
    );
    let filtered = service.list_books(Some("reading".to_owned())).unwrap();
    assert_eq!(
        filtered.iter().map(StoredBook::id).collect::<Vec<_>>(),
        vec![first.id()]
    );
    service.delete_book(first.id()).unwrap();
    assert!(matches!(
        service.get_book(first.id()),
        Err(AppError::NotFound)
    ));
    assert!(matches!(
        service.delete_book(first.id()),
        Err(AppError::NotFound)
    ));
    assert!(matches!(
        service.add_note(
            first.id(),
            AddNote {
                body: "memo".to_owned()
            }
        ),
        Err(AppError::NotFound)
    ));
    assert!(matches!(
        update(&mut service, first.id(), "reading"),
        Err(AppError::NotFound)
    ));
}

#[test]
fn records_reading_completions_and_returns_the_persisted_results() {
    let mut service = new_service();
    let first = create(&mut service, "Programming Rust", "Jim Blandy");
    let second = create(&mut service, "Rust for Rustaceans", "Jon Gjengset");
    for id in [first.id(), second.id()] {
        update(&mut service, id, "reading").unwrap();
    }
    let results = service
        .record_reading_completions(completions(&[
            (2, "Future が保持する値を確認した"),
            (1, "所有権の章を実装と結び付けて読めた"),
        ]))
        .unwrap();
    assert_eq!(results.len(), 2);
    for (result, (book_id, note_id, body)) in results.iter().zip([
        (2, 1, "Future が保持する値を確認した"),
        (1, 2, "所有権の章を実装と結び付けて読めた"),
    ]) {
        let ReadingCompletionResult::Completed(completion) = result else {
            panic!("book {book_id} should be completed")
        };
        assert_eq!(completion.book.id(), BookId(book_id));
        assert_eq!(completion.book.status(), ReadingStatus::Finished);
        assert_eq!(completion.note.id.0, note_id);
        assert_eq!(completion.note.body.as_str(), body);
        let detail = service.get_book(BookId(book_id)).unwrap();
        assert_eq!(detail.book.status(), ReadingStatus::Finished);
        assert_eq!(detail.notes.len(), 1);
        assert_eq!(detail.notes[0].body.as_str(), body);
    }
}

#[test]
fn rejects_the_entire_completion_request_before_saving_any_item() {
    let mut service = new_service();
    for id in 1..=2 {
        let book = create(&mut service, &format!("Rust {id}"), "Author");
        update(&mut service, book.id(), "reading").unwrap();
    }
    let error = service
        .record_reading_completions(completions(&[
            (1, "保存されてはいけないメモ"),
            (2, "  "),
        ]))
        .unwrap_err();
    assert!(matches!(error, AppError::Validation(_)));
    let response = error.error_response();
    assert_eq!(response.status, 400);
    assert_eq!(response.code, "validation_error");
    assert_eq!(response.message, "note body must not be empty");
    for id in 1..=2 {
        let detail = service.get_book(BookId(id)).unwrap();
        assert_eq!(detail.book.status(), ReadingStatus::Reading);
        assert!(detail.notes.is_empty());
    }
}

#[test]
fn rejects_completion_requests_above_the_concurrency_limit() {
    let mut service = new_service();
    let items: Vec<(i64, String)> = (1..=9).map(|id| (id, format!("note {id}"))).collect();
    let borrowed: Vec<(i64, &str)> = items.iter().map(|(id, b)| (*id, b.as_str())).collect();
    let error = service
        .record_reading_completions(completions(&borrowed))
        .unwrap_err();
    let response = error.error_response();
    assert_eq!(response.status, 400);
    assert_eq!(response.code, "validation_error");
    assert_eq!(
        response.message,
        "items must contain between 1 and 8 entries"
    );
    let error = service
        .record_reading_completions(completions(&[]))
        .unwrap_err();
    assert_eq!(
        error.to_string(),
        "items must contain between 1 and 8 entries"
    );
}

#[test]
fn rejects_a_completion_request_that_names_a_book_twice() {
    let mut service = new_service();
    let book = create(&mut service, "Book", "Author");
    update(&mut service, book.id(), "reading").unwrap();
    let error = service
        .record_reading_completions(completions(&[(1, "first"), (1, "again")]))
        .unwrap_err();
    assert_eq!(error.to_string(), "book_id must not be duplicated");
    assert_eq!(
        service.get_book(book.id()).unwrap().book.status(),
        ReadingStatus::Reading
    );
}

#[test]
fn returns_item_failures_without_rolling_back_independent_successes() {
    let mut service = new_service();
    let reading = create(&mut service, "Successful completion", "Author");
    update(&mut service, reading.id(), "reading").unwrap();
    let waiting = create(&mut service, "Conflicting completion", "Author");
    let results = service
        .record_reading_completions(completions(&[
            (999, "存在しない本"),
            (2, "読書中ではない本"),
            (1, "独立して成功する本"),
        ]))
        .unwrap();
    assert!(matches!(
        &results[0],
        ReadingCompletionResult::Failed {
            book_id: BookId(999),
            error: ReadingCompletionFailure::NotFound,
        }
    ));
    assert!(matches!(
        &results[1],
        ReadingCompletionResult::Failed {
            book_id,
            error: ReadingCompletionFailure::Conflict,
        } if *book_id == waiting.id()
    ));
    assert!(matches!(
        &results[2],
        ReadingCompletionResult::Completed(completion)
            if completion.book.id() == reading.id() && completion.note.id.0 == 1
    ));
    let detail = service.get_book(reading.id()).unwrap();
    assert_eq!(detail.book.status(), ReadingStatus::Finished);
    assert_eq!(detail.notes[0].body.as_str(), "独立して成功する本");
    let detail = service.get_book(waiting.id()).unwrap();
    assert_eq!(detail.book.status(), ReadingStatus::WantToRead);
    assert!(detail.notes.is_empty());
}

#[test]
fn continues_other_completions_after_one_fails() {
    let mut service = new_service();
    let first = create(&mut service, "First", "Author");
    let second = create(&mut service, "Second", "Author");
    for id in [first.id(), second.id()] {
        update(&mut service, id, "reading").unwrap();
    }
    let mut fake = service.into_repository();
    fake.fail_next_update(AppError::Database(sqlx::Error::PoolClosed));
    let mut service = ReadingService::new(fake);
    let results = service
        .record_reading_completions(completions(&[(1, "first note"), (2, "second note")]))
        .unwrap();
    assert!(matches!(
        &results[0],
        ReadingCompletionResult::Failed {
            book_id,
            error: ReadingCompletionFailure::Internal,
        } if *book_id == first.id()
    ));
    assert!(matches!(
        &results[1],
        ReadingCompletionResult::Completed(completion)
            if completion.book.id() == second.id()
    ));

    let first_detail = service.get_book(first.id()).unwrap();
    assert_eq!(first_detail.book.status(), ReadingStatus::Reading);
    assert!(first_detail.notes.is_empty());
    let second_detail = service.get_book(second.id()).unwrap();
    assert_eq!(second_detail.book.status(), ReadingStatus::Finished);
    assert_eq!(second_detail.notes.len(), 1);
    assert_eq!(second_detail.notes[0].body.as_str(), "second note");
}
