//! Tests the code examples of a book: fenced blocks are extracted from the
//! pages, compiled against the dependencies of the project they document,
//! run where asked, and judged against the flags of their info strings.
//! Results are cached by the content of each example.
//!
//! - [`extract`]: from markdown text to tests.
//! - [`resolve`]: from lock data and build output to the artifacts to link.
//! - [`outcome`]: the compiler invocation and what its results mean.
//! - [`cache`]: what to run, and which cache files stay.
//! - [`book`]: the pages of a book and the preprocessor's settings.

pub mod book;
pub mod cache;
pub mod digest;
pub mod extract;
pub mod markdown;
pub mod outcome;
pub mod resolve;
pub mod text;
