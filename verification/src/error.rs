//! The failures that a transfer request can end in.

use vstd::prelude::*;

verus! {

/// Why a request failed.
#[derive(Clone, Copy, Debug, PartialEq, Eq, Structural)]
pub enum TransferError {
    /// The client broke the protocol: a field is missing or malformed, or a
    /// segment of the upload has not arrived yet.
    BadRequest,
    /// No file with the requested identifier is shared.
    NotFound,
    /// The storage directory could not be read or written.
    Storage,
}

impl TransferError {
    /// The HTTP status that reports this failure.
    pub open spec fn status(self) -> u16 {
        match self {
            TransferError::BadRequest => 400,
            TransferError::NotFound => 404,
            TransferError::Storage => 500,
        }
    }

    /// The HTTP status that reports this failure.
    pub fn status_code(&self) -> (code: u16)
        ensures
            code == self.status(),
    {
        match self {
            TransferError::BadRequest => 400,
            TransferError::NotFound => 404,
            TransferError::Storage => 500,
        }
    }
}

} // verus!
