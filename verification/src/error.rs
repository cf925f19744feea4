//! The failures of the application, and the HTTP answer that each one gets.

use vstd::prelude::*;
use vstd::std_specs::convert::FromSpecImpl;

use crate::domain::InvalidText;

verus! {

/// Declares `sqlx::Error` so that a database failure can be carried inside
/// `AppError`. Nothing is claimed of its contents; the library only passes it
/// on.
#[verifier::external_type_specification]
#[verifier::external_body]
pub struct ExSqlxError(sqlx::Error);

/// Everything that can go wrong while serving a request.
#[derive(Debug)]
pub enum AppError {
    /// The request broke an input rule; the message says which.
    Validation(String),
    /// The requested book does not exist.
    NotFound,
    /// The book is not in the reading state that the operation needs.
    Conflict,
    /// The database failed.
    Database(sqlx::Error),
    /// The database held a value that the application never writes.
    InvalidStoredValue(String),
}

/// What a client is told of a failure: the HTTP status, a stable code and a
/// message.
pub struct ErrorResponse {
    pub status: u16,
    pub code: &'static str,
    pub message: String,
}

/// The message of a failure whose details are hidden from the client.
pub open spec fn internal_error_message() -> Seq<char> {
    "internal server error"@
}

impl AppError {
    /// A validation error whose message is `message`.
    pub open spec fn is_validation(self, message: Seq<char>) -> bool {
        self matches AppError::Validation(m) && m@ == message
    }

    /// A stored-value error whose message is `message`.
    pub open spec fn is_invalid_stored_value(self, message: Seq<char>) -> bool {
        self matches AppError::InvalidStoredValue(m) && m@ == message
    }

    /// The answer a client gets: validation errors say what was wrong, and
    /// database failures and invalid stored values hide their details behind
    /// one internal error.
    pub fn error_response(self) -> (r: ErrorResponse)
        ensures
            match self {
                AppError::Validation(m) => r.status == 400 && r.code@ == "validation_error"@
                    && r.message@ == m@,
                AppError::Conflict => r.status == 409 && r.code@ == "conflict"@ && r.message@
                    == "reading state conflict"@,
                AppError::NotFound => r.status == 404 && r.code@ == "not_found"@ && r.message@
                    == "resource not found"@,
                AppError::Database(_) | AppError::InvalidStoredValue(_) => r.status == 500
                    && r.code@ == "internal_error"@ && r.message@ == internal_error_message(),
            },
    {
        match self {
            AppError::Validation(message) => ErrorResponse {
                status: 400,
                code: "validation_error",
                message,
            },
            AppError::Conflict => ErrorResponse {
                status: 409,
                code: "conflict",
                message: String::from_str("reading state conflict"),
            },
            AppError::NotFound => ErrorResponse {
                status: 404,
                code: "not_found",
                message: String::from_str("resource not found"),
            },
            AppError::Database(_) | AppError::InvalidStoredValue(_) => ErrorResponse {
                status: 500,
                code: "internal_error",
                message: String::from_str("internal server error"),
            },
        }
    }

    /// The error's display text, as it is logged.
    pub fn to_string(&self) -> (r: String)
        ensures
            match self {
                AppError::Validation(m) => r@ == m@,
                AppError::NotFound => r@ == "resource not found"@,
                AppError::Conflict => r@ == "reading state conflict"@,
                AppError::Database(e) => r@.len() >= 16 && r@.subrange(0, 16)
                    == "database error: "@,
                AppError::InvalidStoredValue(m) => r@ == "invalid value stored in database: "@
                    + m@,
            },
    {
        match self {
            AppError::Validation(message) => message.clone(),
            AppError::NotFound => String::from_str("resource not found"),
            AppError::Conflict => String::from_str("reading state conflict"),
            AppError::Database(error) => {
                let mut text = String::from_str("database error: ");
                proof {
                    reveal_strlit("database error: ");
                }
                let detail = database_error_text(error);
                let ghost prefix = text@;
                text.append(detail.as_str());
                assert(text@.subrange(0, 16) =~= prefix);
                text
            },
            AppError::InvalidStoredValue(message) => {
                let mut text = String::from_str("invalid value stored in database: ");
                text.append(message.as_str());
                text
            },
        }
    }
}

/// Text that failed validation is the client's mistake.
impl From<InvalidText> for AppError {
    fn from(error: InvalidText) -> (r: Self)
        ensures
            r.is_validation(error@),
    {
        AppError::Validation(error.to_string())
    }
}

/// The contract of `from` is the `ensures` of the impl above.
impl FromSpecImpl<InvalidText> for AppError {
    open spec fn obeys_from_spec() -> bool {
        false
    }

    open spec fn from_spec(v: InvalidText) -> Self {
        arbitrary()
    }
}

/// Calls `Display` of `sqlx::Error`. Nothing is stated of the text: it is
/// whatever sqlx writes for the error.
#[verifier::external_body]
fn database_error_text(error: &sqlx::Error) -> String {
    error.to_string()
}

} // verus!
