//! The ways in which reading or writing a value can fail.

use vstd::prelude::*;

verus! {

/// A fault reported by a byte source or a byte sink.
#[derive(Clone, Copy, Debug, PartialEq, Eq, Structural)]
pub enum IoFault {
    /// The source ended before it had yielded the bytes asked of it.
    UnexpectedEof,
    /// Any other fault of the transport.
    Other,
}

/// Why a value could not be read or written.
#[derive(Clone, Copy, Debug, PartialEq, Eq, Structural)]
pub enum Error {
    /// The source or the sink reported a fault.
    IoError(IoFault),
    /// The source ended cleanly part of the way through a string.
    IncompleteNbtValue,
    /// The bytes of a string are not valid modified UTF-8.
    InvalidCesu8,
}

} // verus!
