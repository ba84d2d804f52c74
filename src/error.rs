use vstd::prelude::*;
use crate::codec::DecodeError;

verus! {

/// Why a whole `send`, or building a producer, could not complete. A broker
/// that rejects a message is no error: that is a `Failure` receipt.
#[derive(Debug, PartialEq, Eq)]
pub enum ClientError {
    /// The endpoint could not be reached.
    ConnectError { endpoint: String, cause: String },
    /// The transport failed after the connection was made.
    ConnectionLost { endpoint: String, cause: String },
    /// The broker's reply could not be read; never retried.
    DecodeError { endpoint: String, error: DecodeError },
    /// The call's deadline passed before a reply came.
    Timeout { endpoint: String },
    /// Every allowed attempt failed; `last` is the last attempt's error.
    ExhaustedRetries { attempts: u32, last: Box<ClientError> },
    /// A field of the message is too long to be framed.
    InvalidMessage,
    /// An endpoint address is empty.
    InvalidTarget,
    /// The retry policy allows no attempt.
    InvalidRetryPolicy,
}

impl ClientError {
    /// A fault of the transport, which another attempt may not meet.
    pub open spec fn is_transient(&self) -> bool {
        self is ConnectError || self is ConnectionLost
    }

    pub fn transient(&self) -> (r: bool)
        ensures
            r == self.is_transient(),
    {
        match self {
            ClientError::ConnectError { .. } | ClientError::ConnectionLost { .. } => true,
            _ => false,
        }
    }
}

} // verus!
