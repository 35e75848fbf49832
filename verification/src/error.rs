//! The error type shared by every layer of the library.

use vstd::prelude::*;
use crate::pn532::Pn532Error;

verus! {

/// `std::io::Error`, carried through unchanged; nothing is known of its
/// content here.
#[verifier::external_type_specification]
#[verifier::external_body]
pub struct ExIoError(std::io::Error);

/// Why a request failed.
#[derive(Debug)]
pub enum Error {
    /// A value received from the device could not be parsed.
    Parse(String),
    /// The PN532 answered with a non-zero status byte.
    Pn532(Pn532Error),
    /// The operating system reported an I/O failure.
    Io(std::io::Error),
    /// No correlated reply arrived within the deadline.
    Timeout(String),
    /// No matching device is attached.
    NotFound(String),
    /// The device, or the worker that owns it, is gone.
    Disconnected(String),
    /// The firmware is too old for the capability asked for.
    NotSupport(String),
    /// The device answered but broke the protocol.
    Protocol(String),
    /// Anything else.
    Other(String),
}

pub type HinataResult<T> = Result<T, Error>;

/// Mathematical content of an [`Error`]. Of an I/O failure only the kind
/// is kept.
pub enum ErrorView {
    Parse(Seq<char>),
    Pn532(Pn532Error),
    Io,
    Timeout(Seq<char>),
    NotFound(Seq<char>),
    Disconnected(Seq<char>),
    NotSupport(Seq<char>),
    Protocol(Seq<char>),
    Other(Seq<char>),
}

impl View for Error {
    type V = ErrorView;

    open spec fn view(&self) -> ErrorView {
        match self {
            Error::Parse(message) => ErrorView::Parse(message@),
            Error::Pn532(status) => ErrorView::Pn532(*status),
            Error::Io(_) => ErrorView::Io,
            Error::Timeout(message) => ErrorView::Timeout(message@),
            Error::NotFound(message) => ErrorView::NotFound(message@),
            Error::Disconnected(message) => ErrorView::Disconnected(message@),
            Error::NotSupport(message) => ErrorView::NotSupport(message@),
            Error::Protocol(message) => ErrorView::Protocol(message@),
            Error::Other(message) => ErrorView::Other(message@),
        }
    }
}

impl ErrorView {
    /// What stands in front of the detail in the text of this error.
    pub open spec fn prefix(self) -> Seq<char> {
        match self {
            ErrorView::Parse(_) => "Parse Error: "@,
            ErrorView::Pn532(_) => "PN532 Error: "@,
            ErrorView::Io => "IO Error: "@,
            ErrorView::Timeout(_) => "Timeout Error: "@,
            ErrorView::NotFound(_) => "Not Found Error: "@,
            ErrorView::Disconnected(_) => "Disconnect Error: "@,
            ErrorView::NotSupport(_) => "NotSupport Error: "@,
            ErrorView::Protocol(_) => "Protocol Error: "@,
            ErrorView::Other(_) => "Other Error: "@,
        }
    }

    /// The detail of this error, where it is known.
    pub open spec fn detail(self) -> Option<Seq<char>> {
        match self {
            ErrorView::Parse(message) => Some(message),
            ErrorView::Pn532(status) => Some(status.text()),
            ErrorView::Io => None,
            ErrorView::Timeout(message) => Some(message),
            ErrorView::NotFound(message) => Some(message),
            ErrorView::Disconnected(message) => Some(message),
            ErrorView::NotSupport(message) => Some(message),
            ErrorView::Protocol(message) => Some(message),
            ErrorView::Other(message) => Some(message),
        }
    }
}

impl Error {
    /// The text of this error: the name of its kind, then its detail.
    pub fn to_string(&self) -> (text: String)
        ensures
            match self@.detail() {
                Some(detail) => text@ == self@.prefix() + detail,
                None => exists|detail: Seq<char>| text@ == self@.prefix() + detail,
            },
    {
        let detail: String = match self {
            Error::Parse(message) => message.clone(),
            Error::Pn532(status) => status.to_string(),
            Error::Io(error) => error.to_string(),
            Error::Timeout(message) => message.clone(),
            Error::NotFound(message) => message.clone(),
            Error::Disconnected(message) => message.clone(),
            Error::NotSupport(message) => message.clone(),
            Error::Protocol(message) => message.clone(),
            Error::Other(message) => message.clone(),
        };
        let prefix: &str = match self {
            Error::Parse(_) => "Parse Error: ",
            Error::Pn532(_) => "PN532 Error: ",
            Error::Io(_) => "IO Error: ",
            Error::Timeout(_) => "Timeout Error: ",
            Error::NotFound(_) => "Not Found Error: ",
            Error::Disconnected(_) => "Disconnect Error: ",
            Error::NotSupport(_) => "NotSupport Error: ",
            Error::Protocol(_) => "Protocol Error: ",
            Error::Other(_) => "Other Error: ",
        };
        let mut text = prefix.to_string();
        text.append(detail.as_str());
        assert(text@ == self@.prefix() + detail@);
        text
    }
}

} // verus!
