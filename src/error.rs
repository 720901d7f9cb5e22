//! The library's error taxonomy.
use vstd::prelude::*;
use vstd::string::StringExecFns;

verus! {

/// What went wrong, with a human-readable detail.
#[derive(Debug, Clone, PartialEq, Eq)]
pub enum AppError {
    /// An unknown session, conversation, action or target.
    NotFound(String),
    /// Bad or empty input, reported verbatim.
    Validation(String),
    /// A provider, parse, transport or execution failure.
    Runtime(String),
}

pub type AppResult<T> = Result<T, AppError>;

impl AppError {
    /// Whether this is a `NotFound` error.
    pub open spec fn is_not_found(&self) -> bool {
        self is NotFound
    }

    /// The message shown to a caller: the kind of failure, then its detail.
    pub open spec fn text(&self) -> Seq<char> {
        match self {
            AppError::NotFound(detail) => "record not found: "@ + detail@,
            AppError::Validation(detail) => "validation failed: "@ + detail@,
            AppError::Runtime(detail) => "runtime error: "@ + detail@,
        }
    }

    /// The message shown to a caller (see `text`).
    pub fn message(&self) -> (r: String)
        ensures
            r@ == self.text(),
    {
        match self {
            AppError::NotFound(detail) => {
                let mut out = String::from_str("record not found: ");
                out.append(detail.as_str());
                out
            },
            AppError::Validation(detail) => {
                let mut out = String::from_str("validation failed: ");
                out.append(detail.as_str());
                out
            },
            AppError::Runtime(detail) => {
                let mut out = String::from_str("runtime error: ");
                out.append(detail.as_str());
                out
            },
        }
    }
}

} // verus!
