use vstd::prelude::*;

verus! {

/// Errors reported by the library.
#[derive(Debug)]
pub enum Error {
    /// The caller passed an out-of-range value; nothing was sent.
    InvalidParameter(String),
    /// A reply was read but does not have the expected form.
    Protocol(String),
    /// No reply arrived within the deadline.
    Timeout,
    /// The stream reported a read or write failure.
    Io(String),
    /// The link task is gone or unreachable.
    NotConnected,
    /// The serial port could not be opened.
    Transport(String),
}

} // verus!
