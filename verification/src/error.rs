//! Error values of the proxy and its parts.

use vstd::prelude::*;

verus! {

/// Failure of a language server process or of the handshake with it.
#[derive(Debug)]
pub enum BackendError {
    /// The process could not be launched, written to or read from; holds the
    /// operating system's message.
    SpawnFailed(String),
    /// No answer to `initialize` within the given number of seconds.
    InitializeTimeout(u64),
    /// Reading the answer to `initialize` failed.
    InitializeFailed(String),
    /// The server answered `initialize` with an error.
    InitializeResponseError(String),
}

/// Failure to read or write one length-prefixed frame.
#[derive(Debug)]
pub enum FramingError {
    /// The header block ended without a length header.
    MissingContentLength,
    /// The length header's value is not a decimal number that fits.
    InvalidContentLength,
    /// The byte stream failed or ended inside a frame.
    Io(String),
    /// The body is not a JSON-RPC message.
    Json(String),
}

/// Failure while probing the file system for a virtual environment.
#[derive(Debug)]
pub enum VenvError {
    Io(String),
}

/// Any failure the proxy can run into.
#[derive(Debug)]
pub enum ProxyError {
    Io(String),
    Json(String),
    /// A message that is well-formed JSON-RPC but breaks the protocol: a
    /// missing field, a position outside the text, a reversed range.
    InvalidMessage(String),
    Backend(BackendError),
    Framing(FramingError),
    Venv(VenvError),
}

} // verus!
