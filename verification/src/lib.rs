//! Reading notes: books that move from "want to read" through "reading" to
//! "finished", with notes attached to each book.

pub mod domain;
pub mod error;
pub mod repository;
pub mod response;
pub mod service;
