//! The reasons for which a state transition is rejected.

use vstd::prelude::*;

verus! {

/// Why a key of a transaction is rejected. Each kind carries the details
/// in words.
#[derive(Debug)]
pub enum Error {
    /// The key is malformed or lacks a segment.
    KeyError(String),
    /// The entry could not be classified, or changed in a way that is not
    /// allowed.
    StateChangeError(String),
    /// The port is not bound, or not read, as it must be.
    PortError(String),
    /// The capability, or the counter of capabilities, is not as it must be.
    CapabilityError(String),
}

/// The model of an [`Error`].
pub enum ErrorView {
    KeyError(Seq<char>),
    StateChangeError(Seq<char>),
    PortError(Seq<char>),
    CapabilityError(Seq<char>),
}

impl View for Error {
    type V = ErrorView;

    open spec fn view(&self) -> ErrorView {
        match self {
            Error::KeyError(details) => ErrorView::KeyError(details@),
            Error::StateChangeError(details) => ErrorView::StateChangeError(details@),
            Error::PortError(details) => ErrorView::PortError(details@),
            Error::CapabilityError(details) => ErrorView::CapabilityError(details@),
        }
    }
}

/// The model of a result that fails with an [`Error`].
pub open spec fn result_view<T>(r: Result<T, Error>) -> Result<T, ErrorView> {
    match r {
        Ok(value) => Ok(value),
        Err(e) => Err(e@),
    }
}

/// The model of a result whose value has a model of its own.
pub open spec fn result_deep_view<T: View>(r: Result<T, Error>) -> Result<T::V, ErrorView> {
    match r {
        Ok(value) => Ok(value@),
        Err(e) => Err(e@),
    }
}

/// The message of an error: its kind, then its details.
pub open spec fn error_message(e: ErrorView) -> Seq<char> {
    match e {
        ErrorView::KeyError(details) => "Key error: "@ + details,
        ErrorView::StateChangeError(details) => "State change error: "@ + details,
        ErrorView::PortError(details) => "Port error: "@ + details,
        ErrorView::CapabilityError(details) => "Capability error: "@ + details,
    }
}

/// Two texts, one after the other.
pub(crate) fn concat(first: &str, second: &str) -> (text: String)
    ensures
        text@ == first@ + second@,
{
    let mut text = first.to_owned();
    text.append(second);
    text
}

impl Error {
    /// The message of this error: its kind, then its details.
    pub fn to_string(&self) -> (message: String)
        ensures
            message@ == error_message(self@),
    {
        match self {
            Error::KeyError(details) => concat("Key error: ", details.as_str()),
            Error::StateChangeError(details) => concat("State change error: ", details.as_str()),
            Error::PortError(details) => concat("Port error: ", details.as_str()),
            Error::CapabilityError(details) => concat("Capability error: ", details.as_str()),
        }
    }
}

} // verus!
