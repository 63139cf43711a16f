//! A catalog of items that exist over spans of years and can be checked out
//! and returned one year at a time.

pub mod book;
pub mod library;
pub mod timeline;

pub use book::{Book, BookView, BorrowError, BorrowErrorKind};
pub use library::TimeLibrary;
pub use timeline::Timeline;
