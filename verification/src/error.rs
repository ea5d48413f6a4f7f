//! The error taxonomy: what a failed operation surfaces as. An I/O failure
//! carries the underlying error; a missing configuration value names what
//! was missing. The channel primitives have their own closed/full taxonomy.

use vstd::prelude::*;

verus! {

/// The standard library's I/O error, carried through as an opaque value.
#[verifier::external_type_specification]
#[verifier::external_body]
pub struct ExIoError(std::io::Error);

/// Why an operation of the tunnel failed.
#[derive(Debug)]
pub enum Error {
    /// The underlying socket or file operation failed.
    IO(std::io::Error),
    /// A required configuration value is absent; the text names it.
    MissingConfig(String),
}

impl From<std::io::Error> for Error {
    fn from(cause: std::io::Error) -> (r: Error) {
        Error::IO(cause)
    }
}

impl vstd::std_specs::convert::FromSpecImpl<std::io::Error> for Error {
    open spec fn obeys_from_spec() -> bool {
        true
    }

    open spec fn from_spec(cause: std::io::Error) -> Error {
        Error::IO(cause)
    }
}

/// Why a send on a channel failed.
#[derive(Debug, PartialEq, Eq, Structural)]
pub enum SendError {
    /// The channel has no room (only a bounded channel can say this).
    Full,
    /// The receiving half is gone; nothing sent now can arrive.
    Closed,
}

/// Why a receive on a channel failed. Closure is sticky: once the sending
/// half is gone and the buffer drained, every receive says so.
#[derive(Debug, PartialEq, Eq, Structural)]
pub enum RecvError {
    /// The sending half is gone and nothing is left to take.
    Closed,
}

} // verus!
