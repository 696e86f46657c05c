//! The errors with which a request is refused.
use vstd::prelude::*;

verus! {

/// Where and how a byte sequence stops being UTF-8.
#[derive(Debug, PartialEq, Eq)]
pub struct InvalidUtf8 {
    /// The length of the longest prefix that is UTF-8.
    pub valid_up_to: usize,
    /// The length of the offending sequence, or `None` where the input ended too early.
    pub error_len: Option<usize>,
    /// The error value of the standard library, for reporting.
    pub source: std::str::Utf8Error,
}

/// Why a request is refused. The variants are the kernel's error categories.
#[derive(Debug, PartialEq, Eq)]
pub enum Error {
    /// An argument that makes no sense.
    Generic(String),
    /// A request that the kernel cannot fulfil.
    Unsupported(String),
    /// A request that no protocol change answers to.
    InvalidProtocol(String),
    /// Field names that make no schema.
    Schema(String),
    /// Text that is not UTF-8.
    Utf8(InvalidUtf8),
}

/// The mathematical content of an [`Error`].
pub enum ErrorView {
    Generic(Seq<char>),
    Unsupported(Seq<char>),
    InvalidProtocol(Seq<char>),
    Schema(Seq<char>),
    Utf8 { valid_up_to: nat, error_len: Option<nat>, source: std::str::Utf8Error },
}

impl View for InvalidUtf8 {
    type V = ErrorView;

    open spec fn view(&self) -> ErrorView {
        ErrorView::Utf8 {
            valid_up_to: self.valid_up_to as nat,
            error_len: match self.error_len {
                Some(len) => Some(len as nat),
                None => None,
            },
            source: self.source,
        }
    }
}

impl View for Error {
    type V = ErrorView;

    open spec fn view(&self) -> ErrorView {
        match *self {
            Error::Generic(message) => ErrorView::Generic(message@),
            Error::Unsupported(message) => ErrorView::Unsupported(message@),
            Error::InvalidProtocol(message) => ErrorView::InvalidProtocol(message@),
            Error::Schema(message) => ErrorView::Schema(message@),
            Error::Utf8(failure) => failure@,
        }
    }
}

/// The view of a result of the library.
pub open spec fn result_view<T: View>(res: Result<T, Error>) -> Result<T::V, ErrorView> {
    match res {
        Ok(value) => Ok(value@),
        Err(error) => Err(error@),
    }
}

} // verus!
