//! The ways in which obtaining a request line can fail.
use vstd::prelude::*;
use vstd::std_specs::convert::FromSpecImpl;
use vstd::string::StringExecFns;

verus! {

/// The error of the byte source. Nothing is read from it.
#[verifier::external_type_specification]
#[verifier::external_body]
pub struct ExIoError(std::io::Error);

/// A failure to obtain a request line.
#[derive(Debug, PartialEq, Eq)]
pub enum MyError {
    /// The leading token is none of the eight verbs; the token is carried.
    InvalidMethodToken(String),
    /// The byte source failed; the cause is not kept.
    IoError,
    /// The bytes to be turned into text are not well-formed UTF-8.
    InvalidUtf8,
}

/// What a `MyError` stands for in contracts.
pub enum ErrorView {
    InvalidMethodToken(Seq<char>),
    IoError,
    InvalidUtf8,
}

impl View for MyError {
    type V = ErrorView;

    open spec fn view(&self) -> ErrorView {
        match self {
            MyError::InvalidMethodToken(token) => ErrorView::InvalidMethodToken(token@),
            MyError::IoError => ErrorView::IoError,
            MyError::InvalidUtf8 => ErrorView::InvalidUtf8,
        }
    }
}

impl ErrorView {
    /// The line that describes the error to a person.
    pub open spec fn message(self) -> Seq<char> {
        match self {
            ErrorView::InvalidMethodToken(token) => "Invalid method token "@ + token,
            ErrorView::IoError => "IO error"@,
            ErrorView::InvalidUtf8 => "Invalid UTF-8"@,
        }
    }
}

impl MyError {
    /// The line that describes the error to a person.
    pub fn to_string(&self) -> (res: String)
        ensures
            res@ == self@.message(),
    {
        match self {
            MyError::InvalidMethodToken(token) => {
                String::from_str("Invalid method token ").concat(token.as_str())
            },
            MyError::IoError => String::from_str("IO error"),
            MyError::InvalidUtf8 => String::from_str("Invalid UTF-8"),
        }
    }
}

impl From<std::io::Error> for MyError {
    /// Every failure of the byte source becomes `IoError`.
    fn from(_e: std::io::Error) -> (res: MyError) {
        MyError::IoError
    }
}

impl FromSpecImpl<std::io::Error> for MyError {
    open spec fn obeys_from_spec() -> bool {
        true
    }

    open spec fn from_spec(_e: std::io::Error) -> MyError {
        MyError::IoError
    }
}

} // verus!
