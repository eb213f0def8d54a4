//! Failures of the service.

use vstd::prelude::*;

use crate::io;
use crate::service::endpoint::DisconnectReason;
use crate::service::Handle;

verus! {

/// What the service was doing when an input or output failure occurred.
#[derive(Debug, Clone, Copy, PartialEq, Eq, Hash, Structural)]
pub enum IOServiceOperation {
    /// Resolving the host of an endpoint.
    Resolve,
    /// Creating an endpoint.
    CreateEndpoint,
    /// Creating the target of an endpoint.
    CreateTarget,
    /// Registering an endpoint with the selector.
    Register,
    /// Unregistering an endpoint from the selector.
    Unregister,
    /// Polling the selector.
    PollSelector,
}

/// Failure of the service.
#[allow(inconsistent_fields)]
#[derive(Debug)]
pub enum IOServiceError {
    /// An input or output failure.
    Io {
        /// Endpoint that the failure concerns, if it concerns a single one.
        handle: Option<Handle>,
        /// What the service was doing.
        operation: IOServiceOperation,
        /// The failure.
        source: io::Error,
    },
    /// A disconnected endpoint declined to be recreated.
    EndpointNotRecreatable {
        /// The endpoint.
        handle: Handle,
        /// Cause of the disconnection.
        reason: DisconnectReason,
    },
    /// The service found its own records at odds.
    InvalidState {
        /// Endpoint that the records concern, if they concern a single one.
        handle: Option<Handle>,
        /// What is at odds.
        message: &'static str,
    },
}

impl IOServiceError {
    /// Wraps an input or output failure.
    pub fn io(handle: Option<Handle>, operation: IOServiceOperation, source: io::Error) -> (error:
        IOServiceError)
        ensures
            error == (IOServiceError::Io { handle, operation, source }),
    {
        IOServiceError::Io { handle, operation, source }
    }

    /// Reports records of one endpoint that are at odds.
    pub fn invalid_state(handle: Handle, message: &'static str) -> (error: IOServiceError)
        ensures
            error.is_invalid_state(handle, message@),
    {
        IOServiceError::InvalidState { handle: Some(handle), message }
    }

    /// This is the report, with the given text, of records of one endpoint that are at odds.
    pub open spec fn is_invalid_state(self, handle: Handle, text: Seq<char>) -> bool {
        self matches IOServiceError::InvalidState { handle: h, message } && h == Some(handle)
            && message@ == text
    }
}

} // verus!
