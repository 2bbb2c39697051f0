//! Tokenizer for the first line of an HTTP request.
//!
//! Given the bytes already received on a connection, the library finds the
//! method token, classifies it against the eight known verbs, skips the
//! separating whitespace and extracts the request target. Every function is
//! pure: it reads the bytes it is handed and nothing else.
//!
//! The contracts are stated over byte sequences: [`grammar::run_end`] says
//! where a run of bytes ends, and [`request::parse_spec`] says what a whole
//! buffer parses to.
//!
//! Nothing here panics. Bytes that have to become text and are not
//! well-formed UTF-8 are reported as [`error::MyError::InvalidUtf8`]. A
//! buffer that ends early is no error: the end of the buffer ends whatever
//! run is being read.

pub mod error;
pub mod grammar;
pub mod method;
pub mod request;
pub mod text;
