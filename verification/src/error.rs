//! The failures a submission can end in, by class.

use vstd::prelude::*;
use vstd::string::*;

verus! {

/// The four classes of failure. Only `Transport` and `Authentication` make a
/// submission eligible for another host.
#[derive(Debug, Clone, Copy, PartialEq, Eq, Structural)]
pub enum ErrorClass {
    /// The user's input cannot be acted on.
    Validation,
    /// No secure transport to the host could be set up.
    Transport,
    /// The host rejected the credentials.
    Authentication,
    /// The upload or the remote command failed.
    Io,
}

/// A failure with the text that describes it.
#[derive(Debug, Clone, PartialEq, Eq)]
pub enum Error {
    /// The connection or the handshake failed.
    TransportError(String),
    /// The credentials were rejected.
    AuthenticationError(String),
    /// Reading, uploading or running the command failed.
    IOError(String),
    /// The user's input was missing or malformed.
    UserError(String),
}

impl Error {
    /// The class this failure belongs to.
    pub open spec fn class_of(&self) -> ErrorClass {
        match self {
            Error::TransportError(_) => ErrorClass::Transport,
            Error::AuthenticationError(_) => ErrorClass::Authentication,
            Error::IOError(_) => ErrorClass::Io,
            Error::UserError(_) => ErrorClass::Validation,
        }
    }

    /// The text the failure was made with.
    pub open spec fn text(&self) -> Seq<char> {
        match self {
            Error::TransportError(s) => s@,
            Error::AuthenticationError(s) => s@,
            Error::IOError(s) => s@,
            Error::UserError(s) => s@,
        }
    }

    /// What `message` shows: the text, after `I/O Error: ` for the `Io` class.
    pub open spec fn rendered(&self) -> Seq<char> {
        match self {
            Error::IOError(s) => "I/O Error: "@ + s@,
            _ => self.text(),
        }
    }

    /// Whether another host may be offered after this failure.
    pub open spec fn retryable(&self) -> bool {
        self.class_of() == ErrorClass::Transport || self.class_of() == ErrorClass::Authentication
    }

    /// A failure of the given class with the given text.
    pub fn of_class(class: ErrorClass, message: &str) -> (e: Error)
        ensures
            e.class_of() == class,
            e.text() == message@,
    {
        match class {
            ErrorClass::Validation => Error::UserError(message.to_owned()),
            ErrorClass::Transport => Error::TransportError(message.to_owned()),
            ErrorClass::Authentication => Error::AuthenticationError(message.to_owned()),
            ErrorClass::Io => Error::IOError(message.to_owned()),
        }
    }

    /// A validation failure with the given text.
    pub fn user(message: &str) -> (e: Error)
        ensures
            e.class_of() == ErrorClass::Validation,
            e.text() == message@,
    {
        Error::UserError(message.to_owned())
    }

    /// The class of this failure.
    pub fn class(&self) -> (c: ErrorClass)
        ensures
            c == self.class_of(),
    {
        match self {
            Error::TransportError(_) => ErrorClass::Transport,
            Error::AuthenticationError(_) => ErrorClass::Authentication,
            Error::IOError(_) => ErrorClass::Io,
            Error::UserError(_) => ErrorClass::Validation,
        }
    }

    /// Tells whether another host may be offered after this failure.
    pub fn offers_fallback(&self) -> (b: bool)
        ensures
            b == self.retryable(),
    {
        match self {
            Error::TransportError(_) => true,
            Error::AuthenticationError(_) => true,
            Error::IOError(_) => false,
            Error::UserError(_) => false,
        }
    }

    /// The line shown to the user for this failure.
    pub fn message(&self) -> (s: String)
        ensures
            s@ == self.rendered(),
    {
        match self {
            Error::IOError(text) => {
                let mut out = String::new();
                out.append("I/O Error: ");
                out.append(text.as_str());
                out
            },
            Error::TransportError(text) => text.clone(),
            Error::AuthenticationError(text) => text.clone(),
            Error::UserError(text) => text.clone(),
        }
    }
}

} // verus!
