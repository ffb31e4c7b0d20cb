//! The crate's error type: tagged kinds, each carrying a message.

use vstd::prelude::*;

verus! {

use vstd::string::StringExecFns;

/// An error raised while building or rendering a URL.
#[derive(Debug, Clone, PartialEq, Eq)]
pub enum Error {
    /// An invalid domain (empty string).
    DomainError(String),
    /// A URL that cannot be rendered (no path).
    JoinError(String),
    /// An invalid parameter key or value (empty string).
    ParamError(String),
    /// An invalid path (empty string).
    PathError(String),
}

/// The display form of an error: `"{kind}: {msg}"`.
pub open spec fn error_chars(e: Error) -> Seq<char> {
    match e {
        Error::DomainError(m) => "DomainError: "@ + m@,
        Error::JoinError(m) => "JoinError: "@ + m@,
        Error::ParamError(m) => "ParamError: "@ + m@,
        Error::PathError(m) => "PathError: "@ + m@,
    }
}

impl Error {
    /// Render the error as `"{kind}: {msg}"`.
    pub fn message(&self) -> (r: String)
        ensures
            r@ == error_chars(*self),
    {
        match self {
            Error::DomainError(m) => String::from_str("DomainError: ").concat(m.as_str()),
            Error::JoinError(m) => String::from_str("JoinError: ").concat(m.as_str()),
            Error::ParamError(m) => String::from_str("ParamError: ").concat(m.as_str()),
            Error::PathError(m) => String::from_str("PathError: ").concat(m.as_str()),
        }
    }
}

} // verus!
