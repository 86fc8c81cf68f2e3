//! Why a pick can end without a port.

use vstd::prelude::*;
use vstd::string::*;

verus! {

/// The ways in which picking a port fails.
#[derive(Debug)]
pub enum Errors {
    /// The configuration cannot be searched; the text says what is wrong with it.
    InvalidOption(String),
    /// The search ended and no candidate was free on every host.
    NoAvailablePort,
}

/// An error as a plain value: the variant, and the message as a sequence of characters.
pub enum ErrorsView {
    InvalidOption(Seq<char>),
    NoAvailablePort,
}

impl View for Errors {
    type V = ErrorsView;

    open spec fn view(&self) -> ErrorsView {
        match self {
            Errors::InvalidOption(text) => ErrorsView::InvalidOption(text@),
            Errors::NoAvailablePort => ErrorsView::NoAvailablePort,
        }
    }
}

impl ErrorsView {
    /// The line shown to a person for this error.
    pub open spec fn text(self) -> Seq<char> {
        match self {
            ErrorsView::InvalidOption(text) => text,
            ErrorsView::NoAvailablePort => "No available port"@,
        }
    }
}

impl Errors {
    /// The line shown to a person for this error: the text of an invalid option as it
    /// is, and a fixed sentence when no port was available.
    pub fn message(&self) -> (text: String)
        ensures
            text@ == self@.text(),
    {
        match self {
            Errors::InvalidOption(text) => text.clone(),
            Errors::NoAvailablePort => String::from_str("No available port"),
        }
    }
}

} // verus!
