//! Errors of the proxy library.

use vstd::prelude::*;
use crate::text::join2;

verus! {

/// What went wrong.
#[derive(Debug, Clone)]
pub enum ErrorKind {
    /// I/O error, with its message.
    Io(String),
    /// WebSocket error, with its message.
    WebSocket(String),
    /// No route found for the requested path.
    NoRouteFound(String),
    /// Configuration error, with its message.
    Config(String),
}

/// The mathematical value of an [`Error`].
pub enum ErrorView {
    Io(Seq<char>),
    WebSocket(Seq<char>),
    NoRouteFound(Seq<char>),
    Config(Seq<char>),
}

/// Errors that can occur in the proxy library.
#[derive(Debug, Clone)]
pub struct Error {
    pub kind: ErrorKind,
}

/// Result type alias using the library's error type.
pub type Result<T> = core::result::Result<T, Error>;

impl View for Error {
    type V = ErrorView;

    open spec fn view(&self) -> ErrorView {
        match self.kind {
            ErrorKind::Io(m) => ErrorView::Io(m@),
            ErrorKind::WebSocket(m) => ErrorView::WebSocket(m@),
            ErrorKind::NoRouteFound(p) => ErrorView::NoRouteFound(p@),
            ErrorKind::Config(m) => ErrorView::Config(m@),
        }
    }
}

/// The text that an error displays.
pub open spec fn error_text(e: ErrorView) -> Seq<char> {
    match e {
        ErrorView::Io(m) => "I/O error: "@ + m,
        ErrorView::WebSocket(m) => "WebSocket error: "@ + m,
        ErrorView::NoRouteFound(p) => "No route found for path: "@ + p,
        ErrorView::Config(m) => "Configuration error: "@ + m,
    }
}

impl Error {
    /// Create a new NoRouteFound error.
    pub fn no_route_found(path: &str) -> (e: Error)
        ensures
            e@ == ErrorView::NoRouteFound(path@),
    {
        Error { kind: ErrorKind::NoRouteFound(path.to_owned()) }
    }

    /// Create a new Config error.
    pub fn config(message: &str) -> (e: Error)
        ensures
            e@ == ErrorView::Config(message@),
    {
        Error { kind: ErrorKind::Config(message.to_owned()) }
    }

    /// Create an I/O error carrying the given message.
    pub fn io(message: &str) -> (e: Error)
        ensures
            e@ == ErrorView::Io(message@),
    {
        Error { kind: ErrorKind::Io(message.to_owned()) }
    }

    /// Create a WebSocket error carrying the given message.
    pub fn websocket(message: &str) -> (e: Error)
        ensures
            e@ == ErrorView::WebSocket(message@),
    {
        Error { kind: ErrorKind::WebSocket(message.to_owned()) }
    }

    /// The text this error displays, e.g. `Configuration error: ...`.
    pub fn message(&self) -> (r: String)
        ensures
            r@ == error_text(self@),
    {
        match &self.kind {
            ErrorKind::Io(m) => join2("I/O error: ", m.as_str()),
            ErrorKind::WebSocket(m) => join2("WebSocket error: ", m.as_str()),
            ErrorKind::NoRouteFound(p) => join2("No route found for path: ", p.as_str()),
            ErrorKind::Config(m) => join2("Configuration error: ", m.as_str()),
        }
    }
}

} // verus!
