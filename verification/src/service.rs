//! The use cases: the input rules, and the decisions taken between reading
//! from the store and writing to it.
//!
//! Each decision is a function of its own, so that any store can be driven by
//! it: the in-memory store here, through `ReadingService`, or the SQLite store,
//! whose calls are awaited between these steps.

use vstd::prelude::*;
use vstd::std_specs::convert::FromSpecImpl;

use std::collections::HashSet;

use crate::domain::text::trim;
use crate::domain::{
    names_a_status, status_name, unknown_status_message, Author, Book, BookDetail, BookId,
    BookTitle, Finished, Note, NoteBody, ReadingStatus, StoredBook,
};
use crate::error::AppError;
use crate::repository::{
    appends_note, ids_increase, index_of, lemma_same_ids_index_of, registers, replaces_book,
    with_status, FakeBookRepository,
};

verus! {

broadcast use vstd::std_specs::hash::group_hash_axioms;

/// A request to register a book.
pub struct CreateBook {
    pub title: String,
    pub author: String,
}

/// A request to add a note to a book.
pub struct AddNote {
    pub body: String,
}

/// A request to move a book to another reading status.
pub struct UpdateStatus {
    pub status: String,
}

/// One book of a reading completion request, with the note to keep.
pub struct RecordReadingCompletion {
    pub book_id: BookId,
    pub body: String,
}

/// A request to record several books as finished, each with a note.
pub struct RecordReadingCompletions {
    pub items: Vec<RecordReadingCompletion>,
}

/// A book recorded as finished, with the note saved with it.
#[derive(Debug)]
pub struct CompletedReading {
    pub book: StoredBook,
    pub note: Note,
}

/// Why one book of a reading completion request was not recorded. Database
/// failures and invalid stored values are not told apart: both are internal.
#[derive(Debug, Clone, Copy, PartialEq, Eq, Structural)]
pub enum ReadingCompletionFailure {
    NotFound,
    Conflict,
    Internal,
}

/// The outcome of one book of a reading completion request.
#[derive(Debug)]
pub enum ReadingCompletionResult {
    Completed(CompletedReading),
    Failed { book_id: BookId, error: ReadingCompletionFailure },
}

/// The only moves a reader can make: start a book, then finish it.
pub open spec fn is_forward_step(from: ReadingStatus, to: ReadingStatus) -> bool {
    ||| from == ReadingStatus::WantToRead && to == ReadingStatus::Reading
    ||| from == ReadingStatus::Reading && to == ReadingStatus::Finished
}

/// The status that `text` names, if any.
pub open spec fn named_status(text: Seq<char>) -> Option<ReadingStatus> {
    if names_a_status(text) {
        Some(choose|s: ReadingStatus| status_name(s) == text)
    } else {
        None
    }
}

/// A status's name is read back as that status, whether it comes from a
/// request or from a stored row.
pub proof fn law_status_name_round_trip(s: ReadingStatus)
    ensures
        names_a_status(status_name(s)),
        named_status(status_name(s)) == Some(s),
{
    crate::domain::lemma_status_names_distinct();
    assert(status_name(s) == status_name(s));
}

/// The failure reported for one book when saving it failed with `e`.
pub open spec fn failure_of(e: AppError) -> ReadingCompletionFailure {
    match e {
        AppError::NotFound => ReadingCompletionFailure::NotFound,
        AppError::Conflict => ReadingCompletionFailure::Conflict,
        _ => ReadingCompletionFailure::Internal,
    }
}

/// The most books that one reading completion request may hold.
pub const MAX_COMPLETION_ITEMS: usize = 8;

/// The message of a reading completion request with too few or too many books.
pub open spec fn item_count_message() -> Seq<char> {
    "items must contain between 1 and 8 entries"@
}

/// The message of a reading completion request that names a book twice.
pub open spec fn duplicate_book_message() -> Seq<char> {
    "book_id must not be duplicated"@
}

/// The message of a blank note body.
pub open spec fn blank_note_message() -> Seq<char> {
    "note body must not be empty"@
}

/// Whether item `i` names a book that an earlier item already names.
pub open spec fn duplicates_earlier(items: Seq<RecordReadingCompletion>, i: int) -> bool {
    exists|j: int| 0 <= j < i && (#[trigger] items[j]).book_id == items[i].book_id
}

/// What is wrong with item `i`, if anything: a repeated book, then a blank note.
pub open spec fn item_error(items: Seq<RecordReadingCompletion>, i: int) -> Option<Seq<char>> {
    if duplicates_earlier(items, i) {
        Some(duplicate_book_message())
    } else if trim(items[i].body@).len() == 0 {
        Some(blank_note_message())
    } else {
        None
    }
}

/// What is wrong with the first faulty item among the first `n`, if any.
pub open spec fn first_item_error(items: Seq<RecordReadingCompletion>, n: int) -> Option<
    Seq<char>,
>
    decreases n,
{
    if n <= 0 {
        None
    } else {
        match first_item_error(items, n - 1) {
            Some(m) => Some(m),
            None => item_error(items, n - 1),
        }
    }
}

/// Why a whole reading completion request is refused, if it is.
pub open spec fn batch_error(items: Seq<RecordReadingCompletion>) -> Option<Seq<char>> {
    if !(1 <= items.len() <= MAX_COMPLETION_ITEMS) {
        Some(item_count_message())
    } else {
        first_item_error(items, items.len() as int)
    }
}

/// A request that `batch_error` lets through names each book once.
pub proof fn lemma_accepted_batch_ids_distinct(items: Seq<RecordReadingCompletion>)
    requires
        batch_error(items) is None,
    ensures
        forall|i: int, j: int|
            0 <= i < j < items.len() ==> (#[trigger] items[i]).book_id != (
            #[trigger] items[j]).book_id,
        forall|i: int| 0 <= i < items.len() ==> trim((#[trigger] items[i]).body@).len() > 0,
{
    assert forall|n: int| 0 <= n <= items.len() implies first_item_error(items, n) is None by {
        lemma_prefix_accepted(items, items.len() as int, n);
    }
    assert forall|i: int, j: int| 0 <= i < j < items.len() implies (#[trigger] items[i]).book_id
        != (#[trigger] items[j]).book_id by {
        assert(first_item_error(items, j + 1) is None);
        if items[i].book_id == items[j].book_id {
            assert(duplicates_earlier(items, j));
        }
    }
    assert forall|i: int| 0 <= i < items.len() implies trim((#[trigger] items[i]).body@).len()
        > 0 by {
        assert(first_item_error(items, i + 1) is None);
    }
}

/// Items that name distinct books with non-blank notes have no fault among the
/// first `n`.
proof fn lemma_clean_prefix(items: Seq<RecordReadingCompletion>, n: int)
    requires
        0 <= n <= items.len(),
        forall|i: int, j: int|
            0 <= i < j < items.len() ==> (#[trigger] items[i]).book_id != (
            #[trigger] items[j]).book_id,
        forall|i: int| 0 <= i < items.len() ==> trim((#[trigger] items[i]).body@).len() > 0,
    ensures
        first_item_error(items, n) is None,
    decreases n,
{
    if n > 0 {
        lemma_clean_prefix(items, n - 1);
        assert(!duplicates_earlier(items, n - 1)) by {
            if duplicates_earlier(items, n - 1) {
                let j = choose|j: int| 0 <= j < n - 1 && (#[trigger] items[j]).book_id
                    == items[n - 1].book_id;
                assert(items[j].book_id != items[n - 1].book_id);
            }
        }
        assert(trim(items[n - 1].body@).len() > 0);
    }
}

/// A fault found among the first `n` items is a repeated book or a blank note.
proof fn lemma_item_error_message(items: Seq<RecordReadingCompletion>, n: int)
    ensures
        first_item_error(items, n) matches Some(m) ==> m == duplicate_book_message() || m
            == blank_note_message(),
    decreases n,
{
    if n > 0 {
        lemma_item_error_message(items, n - 1);
    }
}

/// A reading completion request is accepted exactly when it holds between one
/// and eight items, names each book once and has no blank note; and it is
/// refused for its size exactly when it holds fewer than one or more than
/// eight.
pub proof fn law_batch_acceptance(items: Seq<RecordReadingCompletion>)
    ensures
        batch_error(items) is None <==> {
            &&& 1 <= items.len() <= 8
            &&& forall|i: int, j: int|
                0 <= i < j < items.len() ==> (#[trigger] items[i]).book_id != (
                #[trigger] items[j]).book_id
            &&& forall|i: int| 0 <= i < items.len() ==> trim((#[trigger] items[i]).body@).len() > 0
        },
        batch_error(items) == Some(item_count_message()) <==> !(1 <= items.len() <= 8),
{
    if batch_error(items) is None {
        lemma_accepted_batch_ids_distinct(items);
    }
    if 1 <= items.len() <= 8 && (forall|i: int, j: int|
        0 <= i < j < items.len() ==> (#[trigger] items[i]).book_id != (
        #[trigger] items[j]).book_id) && (forall|i: int|
        0 <= i < items.len() ==> trim((#[trigger] items[i]).body@).len() > 0) {
        lemma_clean_prefix(items, items.len() as int);
    }
    lemma_item_error_message(items, items.len() as int);
    reveal_strlit("items must contain between 1 and 8 entries");
    reveal_strlit("book_id must not be duplicated");
    reveal_strlit("note body must not be empty");
    assert(item_count_message()[0] != duplicate_book_message()[0]);
    assert(item_count_message()[0] != blank_note_message()[0]);
}

/// When no item among the first `n` is faulty, neither is any among the first `m <= n`.
proof fn lemma_prefix_accepted(items: Seq<RecordReadingCompletion>, n: int, m: int)
    requires
        0 <= m <= n,
        first_item_error(items, n) is None,
    ensures
        first_item_error(items, m) is None,
    decreases n - m,
{
    if m < n {
        lemma_prefix_accepted(items, n - 1, m);
    }
}

/// The first faulty item stays the first when more items are looked at.
proof fn lemma_first_error_kept(items: Seq<RecordReadingCompletion>, m: int, n: int)
    requires
        0 <= m <= n,
        first_item_error(items, m) is Some,
    ensures
        first_item_error(items, n) == first_item_error(items, m),
    decreases n - m,
{
    if m < n {
        lemma_first_error_kept(items, m, n - 1);
    }
}

/// Validates a request to register a book: the title, then the author.
pub fn validate_new_book(input: CreateBook) -> (r: Result<(BookTitle, Author), AppError>)
    ensures
        trim(input.title@).len() == 0 ==> (r matches Err(e) && e.is_validation(
            "title must not be empty"@,
        )),
        trim(input.title@).len() > 0 && trim(input.author@).len() == 0 ==> (r matches Err(e)
            && e.is_validation("author must not be empty"@)),
        trim(input.title@).len() > 0 && trim(input.author@).len() > 0 ==> (r matches Ok(
            (title, author),
        ) && title@ == trim(input.title@) && author@ == trim(input.author@)),
{
    let title = match BookTitle::try_from(input.title) {
        Ok(title) => title,
        Err(e) => return Err(AppError::from(e)),
    };
    let author = match Author::try_from(input.author) {
        Ok(author) => author,
        Err(e) => return Err(AppError::from(e)),
    };
    Ok((title, author))
}

/// Reads the optional status filter of a listing.
pub fn parse_status_filter(status: Option<String>) -> (r: Result<
    Option<ReadingStatus>,
    AppError,
>)
    ensures
        match status {
            None => r == Ok::<Option<ReadingStatus>, AppError>(None),
            Some(text) => match named_status(text@) {
                Some(s) => r == Ok::<Option<ReadingStatus>, AppError>(Some(s)),
                None => r matches Err(e) && e.is_validation(unknown_status_message()),
            },
        },
{
    proof {
        crate::domain::lemma_status_names_distinct();
    }
    match status {
        None => Ok(None),
        Some(text) => match ReadingStatus::parse_input(text.as_str()) {
            Ok(s) => Ok(Some(s)),
            Err(e) => Err(e),
        },
    }
}

/// Validates the body of a new note.
pub fn validate_note(input: AddNote) -> (r: Result<NoteBody, AppError>)
    ensures
        match r {
            Ok(body) => body@ == trim(input.body@) && trim(input.body@).len() > 0,
            Err(e) => trim(input.body@).len() == 0 && e.is_validation(blank_note_message()),
        },
{
    match NoteBody::try_from(input.body) {
        Ok(body) => Ok(body),
        Err(e) => Err(AppError::from(e)),
    }
}

/// Reads the status that a status update asks for.
pub fn parse_requested_status(input: &UpdateStatus) -> (r: Result<ReadingStatus, AppError>)
    ensures
        match named_status(input.status@) {
            Some(s) => r == Ok::<ReadingStatus, AppError>(s),
            None => r matches Err(e) && e.is_validation(unknown_status_message()),
        },
{
    proof {
        crate::domain::lemma_status_names_distinct();
    }
    ReadingStatus::parse_input(input.status.as_str())
}

/// Decides a status update on the book as it was read: only a forward step is
/// allowed. The answer is the status the book must still be in when it is
/// saved, and the book in its new status.
pub fn plan_status_update(current: StoredBook, requested: ReadingStatus) -> (r: Result<
    (ReadingStatus, StoredBook),
    AppError,
>)
    ensures
        is_forward_step(current.state(), requested) ==> (r matches Ok((expected, next))
            && expected == current.state() && next.state() == requested && next.book()
            == current.book()),
        !is_forward_step(current.state(), requested) ==> (r matches Err(AppError::Conflict)),
{
    let expected = current.status();
    match (current, requested) {
        (StoredBook::WantToRead(book), ReadingStatus::Reading) => Ok(
            (expected, StoredBook::Reading(book.start_reading())),
        ),
        (StoredBook::Reading(book), ReadingStatus::Finished) => Ok(
            (expected, StoredBook::Finished(book.finish())),
        ),
        _ => Err(AppError::Conflict),
    }
}

/// Validates a whole reading completion request before anything is saved:
/// between one and eight books, none named twice, and no blank note. The first
/// faulty item, in request order, gives the message.
pub fn validate_reading_completions(input: RecordReadingCompletions) -> (r: Result<
    Vec<(BookId, NoteBody)>,
    AppError,
>)
    ensures
        match batch_error(input.items@) {
            Some(m) => r matches Err(e) && e.is_validation(m),
            None => r matches Ok(v) && v@.len() == input.items@.len() && forall|i: int|
                0 <= i < v@.len() ==> (#[trigger] v@[i]).0 == input.items@[i].book_id
                    && v@[i].1@ == trim(input.items@[i].body@),
        },
        r is Ok <==> {
            &&& 1 <= input.items@.len() <= 8
            &&& forall|i: int, j: int|
                0 <= i < j < input.items@.len() ==> (#[trigger] input.items@[i]).book_id != (
                #[trigger] input.items@[j]).book_id
            &&& forall|i: int|
                0 <= i < input.items@.len() ==> trim((#[trigger] input.items@[i]).body@).len() > 0
        },
{
    let ghost items = input.items@;
    proof {
        law_batch_acceptance(items);
    }
    let n = input.items.len();
    if n < 1 || n > MAX_COMPLETION_ITEMS {
        return Err(
            AppError::Validation(String::from_str("items must contain between 1 and 8 entries")),
        );
    }
    let mut seen: HashSet<i64> = HashSet::with_capacity(n);
    let mut validated: Vec<(BookId, NoteBody)> = Vec::with_capacity(n);
    let mut rest = input.items;
    let mut i: usize = 0;
    while i < n
        invariant
            items == input.items@,
            n == items.len(),
            1 <= n <= MAX_COMPLETION_ITEMS,
            i <= n,
            rest@ == items.subrange(i as int, n as int),
            first_item_error(items, i as int) is None,
            forall|x: i64|
                seen@.contains(x) <==> exists|j: int| 0 <= j < i && (#[trigger] items[j]).book_id.0
                    == x,
            validated@.len() == i,
            forall|k: int|
                0 <= k < i ==> (#[trigger] validated@[k]).0 == items[k].book_id
                    && validated@[k].1@ == trim(items[k].body@),
        decreases n - i,
    {
        let item = rest.remove(0);
        assert(item == items[i as int]);
        assert(rest@ =~= items.subrange(i + 1, n as int));
        let ghost before = seen@;
        if !seen.insert(item.book_id.0) {
            assert(before.contains(item.book_id.0));
            let ghost j = choose|j: int| 0 <= j < i && (#[trigger] items[j]).book_id.0
                == item.book_id.0;
            assert(items[j].book_id == items[i as int].book_id);
            assert(duplicates_earlier(items, i as int));
            proof {
                lemma_first_error_kept(items, i + 1, n as int);
            }
            return Err(AppError::Validation(String::from_str("book_id must not be duplicated")));
        }
        assert(!duplicates_earlier(items, i as int)) by {
            if duplicates_earlier(items, i as int) {
                let j = choose|j: int| 0 <= j < i && (#[trigger] items[j]).book_id
                    == items[i as int].book_id;
                assert(before.contains(items[j].book_id.0));
            }
        }
        let body = match NoteBody::try_from(item.body) {
            Ok(body) => body,
            Err(e) => {
                proof {
                    lemma_first_error_kept(items, i + 1, n as int);
                }
                return Err(AppError::from(e));
            },
        };
        validated.push((item.book_id, body));
        assert forall|x: i64| seen@.contains(x) <==> exists|j: int|
            0 <= j < i + 1 && (#[trigger] items[j]).book_id.0 == x by {
            if seen@.contains(x) && x == item.book_id.0 {
                assert(items[i as int].book_id.0 == x);
            }
        }
        i = i + 1;
    }
    Ok(validated)
}

impl From<AppError> for ReadingCompletionFailure {
    fn from(error: AppError) -> (r: Self)
        ensures
            r == failure_of(error),
    {
        match error {
            AppError::NotFound => ReadingCompletionFailure::NotFound,
            AppError::Conflict => ReadingCompletionFailure::Conflict,
            _ => ReadingCompletionFailure::Internal,
        }
    }
}

impl FromSpecImpl<AppError> for ReadingCompletionFailure {
    open spec fn obeys_from_spec() -> bool {
        true
    }

    open spec fn from_spec(v: AppError) -> Self {
        failure_of(v)
    }
}

impl ReadingCompletionFailure {
    /// The stable code a client reads.
    pub open spec fn code_text(self) -> Seq<char> {
        match self {
            ReadingCompletionFailure::NotFound => "not_found"@,
            ReadingCompletionFailure::Conflict => "conflict"@,
            ReadingCompletionFailure::Internal => "internal_error"@,
        }
    }

    /// The message a client reads; an internal failure hides its cause.
    pub open spec fn message_text(self) -> Seq<char> {
        match self {
            ReadingCompletionFailure::NotFound => "resource not found"@,
            ReadingCompletionFailure::Conflict => "reading state conflict"@,
            ReadingCompletionFailure::Internal => "internal server error"@,
        }
    }

    /// The stable code a client reads.
    pub fn code(self) -> (r: &'static str)
        ensures
            r@ == self.code_text(),
    {
        match self {
            ReadingCompletionFailure::NotFound => "not_found",
            ReadingCompletionFailure::Conflict => "conflict",
            ReadingCompletionFailure::Internal => "internal_error",
        }
    }

    /// The message a client reads.
    pub fn message(self) -> (r: &'static str)
        ensures
            r@ == self.message_text(),
    {
        match self {
            ReadingCompletionFailure::NotFound => "resource not found",
            ReadingCompletionFailure::Conflict => "reading state conflict",
            ReadingCompletionFailure::Internal => "internal server error",
        }
    }
}

/// Decides whether a book, as it was read, can be recorded as finished: only
/// a book being read can. The answer is the finished book to save.
pub fn begin_reading_completion(current: StoredBook) -> (r: Result<Book<Finished>, AppError>)
    ensures
        current.state() == ReadingStatus::Reading ==> (r matches Ok(book) && book@
            == current.book()),
        current.state() != ReadingStatus::Reading ==> (r matches Err(AppError::Conflict)),
{
    match current {
        StoredBook::Reading(book) => Ok(book.finish()),
        _ => Err(AppError::Conflict),
    }
}

/// The outcome of one book of a reading completion request, from what saving
/// it answered.
pub fn reading_completion_result(book_id: BookId, outcome: Result<(StoredBook, Note), AppError>) -> (r:
    ReadingCompletionResult)
    ensures
        match outcome {
            Ok((book, note)) => r == ReadingCompletionResult::Completed(
                CompletedReading { book, note },
            ),
            Err(e) => r == (ReadingCompletionResult::Failed { book_id, error: failure_of(e) }),
        },
{
    match outcome {
        Ok((book, note)) => ReadingCompletionResult::Completed(CompletedReading { book, note }),
        Err(e) => ReadingCompletionResult::Failed {
            book_id,
            error: ReadingCompletionFailure::from(e),
        },
    }
}

/// Whether the book with identifier `id` is one that a reading completion
/// goes on to save: it exists and is being read.
pub open spec fn reaches_save(store: FakeBookRepository, id: BookId) -> bool {
    store.find(id) matches Some(book) && book.state() == ReadingStatus::Reading
}

/// What item `i` of an accepted reading completion request gives, against the
/// store as it was before the request: an unknown book is `NotFound`, a book
/// not being read is a `Conflict`, and a book being read is finished with its
/// note, unless an injected failure was waiting; that failure goes to the
/// first book that reaches the save.
pub open spec fn expected_outcome(
    store: FakeBookRepository,
    items: Seq<RecordReadingCompletion>,
    i: int,
    r: ReadingCompletionResult,
) -> bool {
    let id = items[i].book_id;
    match store.find(id) {
        None => r == (ReadingCompletionResult::Failed {
            book_id: id,
            error: ReadingCompletionFailure::NotFound,
        }),
        Some(book) => if book.state() != ReadingStatus::Reading {
            r == (ReadingCompletionResult::Failed {
                book_id: id,
                error: ReadingCompletionFailure::Conflict,
            })
        } else if store.pending_error() is Some && forall|j: int|
            0 <= j < i ==> !reaches_save(store, (#[trigger] items[j]).book_id) {
            r == (ReadingCompletionResult::Failed {
                book_id: id,
                error: failure_of(store.pending_error()->0),
            })
        } else {
            r matches ReadingCompletionResult::Completed(c) && c.book.state()
                == ReadingStatus::Finished && c.book.book() == book.book() && c.note.body@ == trim(
                items[i].body@,
            )
        },
    }
}

/// How many of `results` are completions.
pub open spec fn completed_count(results: Seq<ReadingCompletionResult>) -> nat
    decreases results.len(),
{
    if results.len() == 0 {
        0
    } else {
        completed_count(results.drop_last()) + if results.last() is Completed {
            1nat
        } else {
            0nat
        }
    }
}

/// What the store holds of book `id` after `r`: the finished book with one
/// more note when it was completed, what it held before otherwise.
pub open spec fn saved_as_reported(
    before: FakeBookRepository,
    after: FakeBookRepository,
    id: BookId,
    r: ReadingCompletionResult,
) -> bool {
    match r {
        ReadingCompletionResult::Completed(c) => after.find(id) == Some(c.book) && after.notes_of(
            id,
        ) == before.notes_of(id).push(c.note),
        ReadingCompletionResult::Failed { .. } => after.find(id) == before.find(id)
            && after.notes_of(id) == before.notes_of(id),
    }
}

/// The use cases, run against books and notes kept in memory.
pub struct ReadingService {
    repository: FakeBookRepository,
}

impl ReadingService {
    /// The store that the service reads and writes.
    pub closed spec fn store(&self) -> FakeBookRepository {
        self.repository
    }

    pub open spec fn wf(&self) -> bool {
        self.store().wf()
    }

    pub fn new(repository: FakeBookRepository) -> (r: Self)
        requires
            repository.wf(),
        ensures
            r.store() == repository,
            r.wf(),
    {
        ReadingService { repository }
    }

    /// The store, to read it.
    pub fn repository(&self) -> (r: &FakeBookRepository)
        ensures
            *r == self.store(),
    {
        &self.repository
    }

    /// Gives the store back.
    pub fn into_repository(self) -> (r: FakeBookRepository)
        ensures
            r == self.store(),
    {
        self.repository
    }

    /// Registers a book as "want to read", once its title and author are valid.
    pub fn create_book(&mut self, input: CreateBook) -> (r: Result<StoredBook, AppError>)
        requires
            old(self).wf(),
            old(self).store().last_book_id() < i64::MAX,
        ensures
            final(self).wf(),
            trim(input.title@).len() == 0 ==> (r matches Err(e) && e.is_validation(
                "title must not be empty"@,
            ) && final(self).store() == old(self).store()),
            trim(input.title@).len() > 0 && trim(input.author@).len() == 0 ==> (r matches Err(e)
                && e.is_validation("author must not be empty"@) && final(self).store() == old(self).store()),
            trim(input.title@).len() > 0 && trim(input.author@).len() > 0 ==> (r matches Ok(book)
                && registers(old(self).store(), final(self).store(), book) && book.book().title
                == trim(input.title@) && book.book().author == trim(input.author@)),
            final(self).store().last_book_id() == old(self).store().last_book_id() + if r is Ok {
                1int
            } else {
                0int
            },
            final(self).store().last_note_id() == old(self).store().last_note_id(),
            final(self).store().pending_error() == old(self).store().pending_error(),
    {
        let (title, author) = match validate_new_book(input) {
            Ok(valid) => valid,
            Err(e) => return Err(e),
        };
        self.repository.insert_book(&title, &author)
    }

    /// The books in the status that `status` names, or every book without a
    /// filter, in increasing order of identifier.
    pub fn list_books(&self, status: Option<String>) -> (r: Result<Vec<StoredBook>, AppError>)
        requires
            self.wf(),
        ensures
            match status {
                None => r matches Ok(books) && books@ == with_status(self.store().books(), None),
                Some(text) => match named_status(text@) {
                    Some(s) => r matches Ok(books) && books@ == with_status(
                        self.store().books(),
                        Some(s),
                    ),
                    None => r matches Err(e) && e.is_validation(unknown_status_message()),
                },
            },
    {
        let filter = match parse_status_filter(status) {
            Ok(filter) => filter,
            Err(e) => return Err(e),
        };
        self.repository.list_books(filter)
    }

    /// A book with its notes; `NotFound` when there is no such book.
    pub fn get_book(&self, id: BookId) -> (r: Result<BookDetail, AppError>)
        requires
            self.wf(),
        ensures
            match self.store().find(id) {
                Some(book) => r matches Ok(detail) && detail.book == book && detail.notes@
                    == self.store().notes_of(id),
                None => r matches Err(AppError::NotFound),
            },
    {
        let book = match self.repository.find_book(id) {
            Ok(book) => book,
            Err(e) => return Err(e),
        };
        let notes = match self.repository.list_notes(id) {
            Ok(notes) => notes,
            Err(e) => return Err(e),
        };
        Ok(BookDetail { book, notes })
    }

    /// Adds a note to a book. A blank body is refused before the store is
    /// touched; an unknown book is `NotFound`.
    pub fn add_note(&mut self, book_id: BookId, input: AddNote) -> (r: Result<Note, AppError>)
        requires
            old(self).wf(),
            old(self).store().last_note_id() < i64::MAX,
        ensures
            final(self).wf(),
            final(self).store().books() == old(self).store().books(),
            trim(input.body@).len() == 0 ==> (r matches Err(e) && e.is_validation(
                blank_note_message(),
            ) && final(self).store() == old(self).store()),
            trim(input.body@).len() > 0 ==> match index_of(old(self).store().books(), book_id) {
                Some(i) => r matches Ok(note) && note.body@ == trim(input.body@) && note.id.0
                    == old(self).store().last_note_id() + 1 && appends_note(
                    old(self).store(),
                    final(self).store(),
                    i,
                    note,
                ),
                None => r matches Err(AppError::NotFound) && final(self).store().notes() == old(self).store().notes(),
            },
            final(self).store().last_note_id() == old(self).store().last_note_id() + if r is Ok {
                1int
            } else {
                0int
            },
            final(self).store().last_book_id() == old(self).store().last_book_id(),
            final(self).store().pending_error() == old(self).store().pending_error(),
    {
        let body = match validate_note(input) {
            Ok(body) => body,
            Err(e) => return Err(e),
        };
        self.repository.insert_note(book_id, &body)
    }

    /// Moves a book one step forward: "want to read" to "reading", or
    /// "reading" to "finished". Any other request is a `Conflict`, and nothing
    /// is saved.
    pub fn update_status(&mut self, book_id: BookId, input: UpdateStatus) -> (r: Result<
        StoredBook,
        AppError,
    >)
        requires
            old(self).wf(),
        ensures
            final(self).wf(),
            final(self).store().notes() == old(self).store().notes(),
            final(self).store().last_book_id() == old(self).store().last_book_id(),
            final(self).store().last_note_id() == old(self).store().last_note_id(),
            match named_status(input.status@) {
                None => r matches Err(e) && e.is_validation(unknown_status_message()) && final(self).store() == old(self).store(),
                Some(requested) => match index_of(old(self).store().books(), book_id) {
                    None => r matches Err(AppError::NotFound) && final(self).store() == old(self).store(),
                    Some(i) => {
                        let current = old(self).store().books()[i];
                        if !is_forward_step(current.state(), requested) {
                            r matches Err(AppError::Conflict) && final(self).store() == old(self).store()
                        } else {
                            final(self).store().pending_error() is None && match old(self).store().pending_error() {
                                Some(e) => r == Err::<StoredBook, AppError>(e) && final(self).store().books() == old(self).store().books(),
                                None => r matches Ok(saved) && saved.state() == requested
                                    && saved.book() == current.book() && replaces_book(
                                    old(self).store(),
                                    final(self).store(),
                                    i,
                                    saved,
                                ),
                            }
                        }
                    },
                },
            },
    {
        let requested = match parse_requested_status(&input) {
            Ok(requested) => requested,
            Err(e) => return Err(e),
        };
        let current = match self.repository.find_book(book_id) {
            Ok(current) => current,
            Err(e) => return Err(e),
        };
        let (expected, next) = match plan_status_update(current, requested) {
            Ok(plan) => plan,
            Err(e) => return Err(e),
        };
        self.repository.update_book_status(expected, next)
    }

    /// Records one book of an accepted reading completion request as finished,
    /// with its note, in one save.
    fn complete_one(&mut self, book_id: BookId, body: &NoteBody) -> (r: ReadingCompletionResult)
        requires
            old(self).wf(),
            old(self).store().last_note_id() < i64::MAX,
        ensures
            final(self).wf(),
            final(self).store().last_book_id() == old(self).store().last_book_id(),
            final(self).store().books().len() == old(self).store().books().len(),
            forall|j: int|
                0 <= j < old(self).store().books().len() ==> (#[trigger] final(self).store().books()[j]).book().id == old(self).store().books()[j].book().id,
            r is Completed ==> final(self).store().last_note_id() == old(self).store().last_note_id()
                + 1 && (r->0).note.id.0 == final(self).store().last_note_id(),
            r is Failed ==> final(self).store().last_note_id() == old(self).store().last_note_id(),
            match index_of(old(self).store().books(), book_id) {
                None => r == (ReadingCompletionResult::Failed {
                    book_id,
                    error: ReadingCompletionFailure::NotFound,
                }) && final(self).store().same_contents(&old(self).store()) && final(self).store().pending_error() == old(self).store().pending_error(),
                Some(i) => if old(self).store().books()[i].state() != ReadingStatus::Reading {
                    r == (ReadingCompletionResult::Failed {
                        book_id,
                        error: ReadingCompletionFailure::Conflict,
                    }) && final(self).store().same_contents(&old(self).store()) && final(self).store().pending_error() == old(self).store().pending_error()
                } else {
                    final(self).store().pending_error() is None && match old(self).store().pending_error() {
                        Some(e) => r == (ReadingCompletionResult::Failed {
                            book_id,
                            error: failure_of(e),
                        }) && final(self).store().same_contents(&old(self).store()),
                        None => r matches ReadingCompletionResult::Completed(c) && c.book.state()
                            == ReadingStatus::Finished && c.book.book() == old(self).store().books()[i].book() && c.note.body@ == body@ && final(self).store().books() == old(self).store().books().update(i, c.book) && final(self).store().notes() == old(self).store().notes().update(
                            i,
                            old(self).store().notes()[i].push(c.note),
                        ),
                    }
                },
            },
    {
        let outcome = match self.repository.find_book(book_id) {
            Err(e) => Err(e),
            Ok(current) => match begin_reading_completion(current) {
                Err(e) => Err(e),
                Ok(finished) => self.repository.record_reading_completion(finished, body),
            },
        };
        reading_completion_result(book_id, outcome)
    }

    /// Records several books as finished, each with its note.
    ///
    /// The whole request is validated first: between one and eight books, no
    /// book named twice, no blank note. A request that breaks a rule is
    /// refused and nothing is saved. Otherwise every book is tried on its own:
    /// one book's failure does not undo or stop another's completion, and the
    /// results come in the order of the request.
    pub fn record_reading_completions(&mut self, input: RecordReadingCompletions) -> (r: Result<
        Vec<ReadingCompletionResult>,
        AppError,
    >)
        requires
            old(self).wf(),
            old(self).store().last_note_id() <= i64::MAX - MAX_COMPLETION_ITEMS,
        ensures
            final(self).wf(),
            final(self).store().last_book_id() == old(self).store().last_book_id(),
            r is Ok <==> {
                &&& 1 <= input.items@.len() <= 8
                &&& forall|i: int, j: int|
                    0 <= i < j < input.items@.len() ==> (#[trigger] input.items@[i]).book_id != (
                    #[trigger] input.items@[j]).book_id
                &&& forall|i: int|
                    0 <= i < input.items@.len() ==> trim((#[trigger] input.items@[i]).body@).len() > 0
            },
            match batch_error(input.items@) {
                Some(m) => r matches Err(e) && e.is_validation(m) && final(self).store() == old(self).store(),
                None => r matches Ok(results) && {
                    &&& results@.len() == input.items@.len()
                    &&& forall|i: int|
                        0 <= i < results@.len() ==> expected_outcome(
                            old(self).store(),
                            input.items@,
                            i,
                            #[trigger] results@[i],
                        )
                    &&& forall|i: int|
                        0 <= i < results@.len() ==> (#[trigger] results@[i] matches
                        ReadingCompletionResult::Completed(c) ==> c.note.id.0 == old(self).store().last_note_id() + completed_count(results@.take(i)) + 1)
                    &&& final(self).store().last_note_id() == old(self).store().last_note_id()
                        + completed_count(results@)
                    &&& final(self).store().pending_error() == (if exists|i: int|
                        0 <= i < input.items@.len() && reaches_save(
                            old(self).store(),
                            (#[trigger] input.items@[i]).book_id,
                        ) {
                        None
                    } else {
                        old(self).store().pending_error()
                    })
                    &&& forall|i: int|
                        0 <= i < results@.len() ==> saved_as_reported(
                            old(self).store(),
                            final(self).store(),
                            input.items@[i].book_id,
                            #[trigger] results@[i],
                        )
                    &&& forall|id: BookId|
                        (forall|i: int|
                            0 <= i < input.items@.len() ==> (#[trigger] input.items@[i]).book_id
                                != id) ==> final(self).store().find(id) == old(self).store().find(
                            id,
                        ) && final(self).store().notes_of(id) == old(self).store().notes_of(id)
                },
            },
    {
        let ghost items = input.items@;
        let ghost o = self.store();
        let validated = match validate_reading_completions(input) {
            Ok(validated) => validated,
            Err(e) => return Err(e),
        };
        proof {
            lemma_accepted_batch_ids_distinct(items);
            o.lemma_ids_increase();
        }
        let n = validated.len();
        let mut results: Vec<ReadingCompletionResult> = Vec::with_capacity(n);
        let mut k: usize = 0;
        while k < n
            invariant
                n == validated@.len(),
                n == items.len(),
                n <= MAX_COMPLETION_ITEMS,
                forall|p: int|
                    0 <= p < n ==> (#[trigger] validated@[p]).0 == items[p].book_id
                        && validated@[p].1@ == trim(items[p].body@),
                forall|p: int, q: int|
                    0 <= p < q < n ==> (#[trigger] items[p]).book_id != (#[trigger] items[q]).book_id,
                ids_increase(o.books()),
                o.last_note_id() <= i64::MAX - MAX_COMPLETION_ITEMS,
                k <= n,
                self.wf(),
                self.store().last_book_id() == o.last_book_id(),
                self.store().last_note_id() == o.last_note_id() + completed_count(results@),
                completed_count(results@) <= k,
                forall|p: int|
                    0 <= p < k ==> (#[trigger] results@[p] matches ReadingCompletionResult::Completed(
                        c,
                    ) ==> c.note.id.0 == o.last_note_id() + completed_count(results@.take(p)) + 1),
                self.store().books().len() == o.books().len(),
                forall|j: int|
                    0 <= j < o.books().len() ==> (#[trigger] self.store().books()[j]).book().id
                        == o.books()[j].book().id,
                self.store().pending_error() == (if exists|p: int|
                    0 <= p < k && reaches_save(o, (#[trigger] items[p]).book_id) {
                    None
                } else {
                    o.pending_error()
                }),
                results@.len() == k,
                forall|p: int| 0 <= p < k ==> expected_outcome(o, items, p, #[trigger] results@[p]),
                forall|p: int|
                    0 <= p < k ==> saved_as_reported(
                        o,
                        self.store(),
                        items[p].book_id,
                        #[trigger] results@[p],
                    ),
                forall|id: BookId|
                    (forall|p: int| 0 <= p < k ==> (#[trigger] items[p]).book_id != id)
                        ==> self.store().find(id) == o.find(id) && self.store().notes_of(id)
                        == o.notes_of(id),
            decreases n - k,
        {
            let ghost cur = self.store();
            let book_id = validated[k].0;
            let result = self.complete_one(book_id, &validated[k].1);
            let ghost new = self.store();
            proof {
                cur.lemma_ids_increase();
                assert(cur.find(book_id) == o.find(book_id) && cur.notes_of(book_id) == o.notes_of(
                    book_id,
                )) by {
                    assert forall|p: int| 0 <= p < k implies (#[trigger] items[p]).book_id
                        != book_id by {
                        assert(items[k as int].book_id == book_id);
                    }
                }
                lemma_same_ids_index_of(cur.books(), o.books(), book_id);
                lemma_same_ids_index_of(cur.books(), new.books(), book_id);
                new.lemma_ids_increase();
                assert forall|j: int|
                    0 <= j < cur.books().len() && (#[trigger] cur.books()[j]).book().id
                        != book_id implies new.books()[j] == cur.books()[j] && new.notes()[j]
                    == cur.notes()[j] by {
                    if let Some(i) = index_of(cur.books(), book_id) {
                        assert(cur.books()[i].book().id == book_id);
                        assert(i != j);
                    }
                }
                assert forall|id: BookId| id != book_id implies new.find(id) == cur.find(id)
                    && new.notes_of(id) == cur.notes_of(id) by {
                    lemma_same_ids_index_of(cur.books(), new.books(), id);
                    if let Some(j) = index_of(cur.books(), id) {
                        assert(cur.books()[j].book().id == id);
                    }
                }
            }
            let ghost before = results@;
            results.push(result);
            proof {
                assert(results@.drop_last() =~= before);
                assert(results@.take(k as int) =~= before);
                assert forall|p: int| 0 <= p < k implies results@.take(p) =~= before.take(p) by {}
            }
            k = k + 1;
        }
        Ok(results)
    }

    /// Deletes a book and its notes; `NotFound` when there is no such book.
    pub fn delete_book(&mut self, book_id: BookId) -> (r: Result<(), AppError>)
        requires
            old(self).wf(),
        ensures
            final(self).wf(),
            match index_of(old(self).store().books(), book_id) {
                Some(i) => r is Ok && final(self).store().books() == old(self).store().books().remove(i) && final(self).store().notes() == old(self).store().notes().remove(i),
                None => r matches Err(AppError::NotFound) && final(self).store().same_contents(
                    &old(self).store(),
                ),
            },
            final(self).store().last_book_id() == old(self).store().last_book_id(),
            final(self).store().last_note_id() == old(self).store().last_note_id(),
            final(self).store().pending_error() == old(self).store().pending_error(),
    {
        self.repository.delete_book(book_id)
    }
}

} // verus!
