//! The error type shared by every fallible operation of the library.

use vstd::prelude::*;

verus! {

/// One error value per failure kind of the conversion pipeline.  Payload
/// strings carry human-readable detail; paths are carried as UTF-8 text.
#[derive(Debug, Clone)]
pub enum Error {
    /// A file-system read or write failed.
    Io(String),
    /// A user-supplied pattern did not compile.
    Regex(String),
    /// An image could not be decoded.
    Image(String),
    /// The reflowable-container writer failed.
    Epub(String),
    /// The archive-container writer failed.
    Zip(String),
    /// A path is unusable; the second field says why.
    InvalidPath(String, String),
    /// A path exceeds a platform limit.
    PathTooLong(String),
    /// A path could not be read as UTF-8 text.
    PathUtf8Error(String),
    /// A spawned unit of work failed or was cancelled.
    AsyncTaskError(String),
    /// An unsupported format or operation.
    Unsupported(String),
    /// A required resource is missing.
    NotFound(String),
    /// Anything that fits no other category.
    Other(String),
}

impl Error {
    /// The text of the error: its detail message, with the path joined to the
    /// reason where the variant carries both.
    pub open spec fn message_spec(&self) -> Seq<char> {
        match self {
            Error::Io(s) => s@,
            Error::Regex(s) => s@,
            Error::Image(s) => s@,
            Error::Epub(s) => s@,
            Error::Zip(s) => s@,
            Error::InvalidPath(p, why) => p@ + ": "@ + why@,
            Error::PathTooLong(p) => p@,
            Error::PathUtf8Error(p) => p@,
            Error::AsyncTaskError(s) => s@,
            Error::Unsupported(s) => s@,
            Error::NotFound(s) => s@,
            Error::Other(s) => s@,
        }
    }

    /// Renders the error's text.
    pub fn message(&self) -> (r: String)
        ensures
            r@ == self.message_spec(),
    {
        match self {
            Error::Io(s) => s.clone(),
            Error::Regex(s) => s.clone(),
            Error::Image(s) => s.clone(),
            Error::Epub(s) => s.clone(),
            Error::Zip(s) => s.clone(),
            Error::InvalidPath(p, why) => {
                let mut m = p.clone();
                m.append(": ");
                m.append(why.as_str());
                m
            },
            Error::PathTooLong(p) => p.clone(),
            Error::PathUtf8Error(p) => p.clone(),
            Error::AsyncTaskError(s) => s.clone(),
            Error::Unsupported(s) => s.clone(),
            Error::NotFound(s) => s.clone(),
            Error::Other(s) => s.clone(),
        }
    }
}

impl From<String> for Error {
    /// Wraps a bare message as a catch-all error.
    fn from(error: String) -> (r: Self) {
        Error::Other(error)
    }
}

impl vstd::std_specs::convert::FromSpecImpl<String> for Error {
    open spec fn obeys_from_spec() -> bool {
        true
    }

    open spec fn from_spec(error: String) -> Self {
        Error::Other(error)
    }
}

} // verus!
