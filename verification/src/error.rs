//! What can go wrong.

use vstd::prelude::*;

verus! {

/// A sample's value is not the text of a number.
#[derive(Debug, PartialEq, Eq)]
pub struct ValueParseError {
    /// The text that was found instead.
    pub value: String,
}

impl View for ValueParseError {
    type V = Seq<char>;

    open spec fn view(&self) -> Seq<char> {
        self.value@
    }
}

/// Why a request failed.
#[derive(Debug, PartialEq, Eq)]
pub enum Error {
    /// No handler is registered for the query type.
    UnsupportedRequest,
    /// A sample's value is not the text of a number.
    ValueParse(ValueParseError),
}

/// An error with its texts as sequences of characters.
pub enum ErrorView {
    UnsupportedRequest,
    ValueParse(Seq<char>),
}

impl View for Error {
    type V = ErrorView;

    open spec fn view(&self) -> ErrorView {
        match self {
            Error::UnsupportedRequest => ErrorView::UnsupportedRequest,
            Error::ValueParse(e) => ErrorView::ValueParse(e@),
        }
    }
}

} // verus!
