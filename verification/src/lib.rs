//! The verified core of Kashshaf, a search application over a corpus of
//! classical Arabic books: text normalization and author search, the
//! catalogue's SQL statements, collections and search history records,
//! and the request rules of the HTTP API.

pub mod text;
pub mod normalize;
pub mod authors;
pub mod books;
pub mod error;
pub mod collections;
pub mod history;
pub mod api;
pub mod announcements;
pub mod state;
pub mod search;
