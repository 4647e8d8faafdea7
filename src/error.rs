use vstd::prelude::*;

verus! {

/// Errors of the wider forge application, each with a message.
#[derive(Debug)]
pub enum Error {
    Auth(String),
    Authorization(String),
    Storage(String),
    Vcs(String),
    Config(String),
    Policy(String),
    Search(String),
    Validation(String),
    NotFound(String),
    Internal(String),
}

/// Why a transfer or a storage operation did not go through.
#[derive(Clone, Copy, Debug, PartialEq, Eq, Structural)]
pub enum TransferError {
    /// The push payload is larger than the push body limit.
    PayloadTooLarge,
    /// One object is larger than the per-object ceiling.
    ObjectTooLarge,
    /// An object's claimed hash differs from the hash of its bytes.
    HashMismatch,
    /// An object's bytes do not follow the object layout.
    MalformedObject,
    /// A ref update expected a value that the ref does not hold.
    RefConflict,
    /// The write section of the repository is held and its queue is full.
    Busy,
    /// Receiving and validating took longer than allowed.
    Timeout,
    /// An unknown repository, ref or object.
    NotFound,
    /// A disk or filesystem failure.
    StorageIo,
    /// A repository slug outside the accepted character set.
    InvalidSlug,
}

impl TransferError {
    /// Client-caused errors must not be retried without changing the request.
    pub open spec fn spec_is_client_error(self) -> bool {
        match self {
            TransferError::PayloadTooLarge | TransferError::ObjectTooLarge
            | TransferError::HashMismatch | TransferError::MalformedObject
            | TransferError::RefConflict | TransferError::InvalidSlug
            | TransferError::NotFound => true,
            _ => false,
        }
    }

    /// Whether the error was caused by the client's request.
    pub fn is_client_error(&self) -> (r: bool)
        ensures
            r == self.spec_is_client_error(),
    {
        match self {
            TransferError::PayloadTooLarge | TransferError::ObjectTooLarge
            | TransferError::HashMismatch | TransferError::MalformedObject
            | TransferError::RefConflict | TransferError::InvalidSlug
            | TransferError::NotFound => true,
            _ => false,
        }
    }

    /// Server-side faults and transient contention may be retried as they are.
    pub fn is_retryable(&self) -> (r: bool)
        ensures
            r == !self.spec_is_client_error(),
    {
        !self.is_client_error()
    }
}

} // verus!
