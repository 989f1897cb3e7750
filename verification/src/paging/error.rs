//! Errors of in-memory pages and of the pager that holds them.
use vstd::prelude::*;

verus! {

/// Why the memory that holds pages refused a request.
#[derive(Debug, Clone, Copy, PartialEq, Eq, Structural)]
pub enum BufferError {
    /// Every slot of the buffer is taken.
    Full,
    /// No page of that identifier is held.
    UnknownPage,
    /// The memory given for a page is too short for its header.
    TooSmall,
}

/// Why a stream operation on a page stopped.
#[derive(Debug, Clone, Copy, PartialEq, Eq, Structural)]
pub enum IoError {
    /// The section ended before all the bytes were read.
    UnexpectedEof,
    /// The section ended before all the bytes were written.
    WriteZero,
}

#[derive(Debug, Clone, Copy, PartialEq, Eq, Structural)]
pub enum Error {
    BufferError(BufferError),
    IoError(IoError),
}

} // verus!
