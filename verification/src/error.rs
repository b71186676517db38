//! The library's error type.

use vstd::prelude::*;
use crate::text::{chars_of, concat, string_of};

verus! {

/// What went wrong in an operation on a sheet or a file.
#[derive(Debug, Clone)]
pub enum Error {
    Io(String),
    UnsupportedFormat(String),
    Backend(String),
    Other(String),
}

/// The message an error reads as.
pub open spec fn error_text(e: Error) -> Seq<char> {
    match e {
        Error::Io(m) => "io error: "@ + m@,
        Error::UnsupportedFormat(m) => "unsupported format: "@ + m@,
        Error::Backend(m) => "backend error: "@ + m@,
        Error::Other(m) => m@,
    }
}

impl Error {
    /// The message this error reads as (`io error: ...`, `unsupported
    /// format: ...`, `backend error: ...`, or the bare message).
    pub fn message(&self) -> (r: String)
        ensures
            r@ == error_text(*self),
    {
        match self {
            Error::Io(m) => string_of(&concat(&chars_of("io error: "), &chars_of(m.as_str()))),
            Error::UnsupportedFormat(m) => string_of(
                &concat(&chars_of("unsupported format: "), &chars_of(m.as_str())),
            ),
            Error::Backend(m) => string_of(
                &concat(&chars_of("backend error: "), &chars_of(m.as_str())),
            ),
            Error::Other(m) => m.clone(),
        }
    }
}

} // verus!
