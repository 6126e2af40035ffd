//! Looks up a book, chapter and verse in a plain-text scripture document
//! by scanning it line by line, and wraps the result for display.
pub mod text;
pub mod cursor;
pub mod scanner;
pub mod formatter;
pub mod abbrev;
pub mod session;

pub use formatter::pretty_print;
pub use scanner::{search_book, search_chapter, search_verse};
