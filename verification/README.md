# Reading notes

A reading list: books move from "want to read" to "reading" to "finished",
and each book keeps notes. The library holds the rules and the decisions,
verified with Verus; `app/` is the HTTP server around it (Axum and SQLite).

## Layout

- `src/domain.rs`, `src/domain/text.rs`, `src/domain/book.rs`: identifiers,
  reading statuses, validated texts (trimmed of Unicode white space and never
  empty) and the book whose reading state is part of its type.
- `src/error.rs`: the application's failures and the HTTP status, code and
  message each one is answered with.
- `src/repository.rs`: an in-memory store of books and notes, whose contracts
  state what each write does (register, add a note, save a status only when
  the stored one is the expected one, finish a book together with its note,
  delete a book with its notes), and the laws that relate its operations (what
  a lookup gives back after each write). The SQLite store in `app/` is written
  to the same rules; nothing here checks it against them. `src/repository/rows.rs` turns
  database rows into domain values.
- `src/service.rs`: the use cases. Each decision between reading from a store
  and writing to it is a function of its own; `ReadingService` runs them
  against the in-memory store, and `app/` runs the same steps around awaited
  SQLite calls.
- `src/response.rs`: the values that a client receives.
- `tests/`: tests of the library.
- `app/main.rs`: routes, JSON, the SQLite store and start-up.
