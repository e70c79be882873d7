use vstd::prelude::*;

verus! {

/// The connection-persistence directive sent with a request.
#[derive(Clone, Copy, Debug, PartialEq, Eq)]
pub enum ConnectionMode {
    Close,
    KeepAlive,
}

impl ConnectionMode {
    pub fn from_keep_alive(keep_alive: bool) -> (m: Self)
        ensures
            m == (if keep_alive { ConnectionMode::KeepAlive } else { ConnectionMode::Close }),
    {
        if keep_alive {
            ConnectionMode::KeepAlive
        } else {
            ConnectionMode::Close
        }
    }
}

/// The two points at which a request can fail.
#[derive(Clone, Copy, Debug, PartialEq, Eq)]
pub enum FailureKind {
    /// The request could not be sent or no response came back.
    Transport,
    /// A response came back but its body could not be read.
    BodyRead,
}

/// Result of one request: success, or a failure with its kind, a description
/// of the error and the time at which it occurred.
#[derive(Clone, Debug, PartialEq, Eq)]
pub enum RequestOutcome {
    Success,
    Failure { kind: FailureKind, detail: String, at: String },
}

impl RequestOutcome {
    pub fn is_success(&self) -> (r: bool)
        ensures
            r == (*self is Success),
    {
        match self {
            RequestOutcome::Success => true,
            RequestOutcome::Failure { .. } => false,
        }
    }

    pub fn failure_kind(&self) -> (r: Option<FailureKind>)
        ensures
            *self is Success ==> r is None,
            *self is Failure ==> r == Some(self->kind),
    {
        match self {
            RequestOutcome::Success => None,
            RequestOutcome::Failure { kind, .. } => Some(*kind),
        }
    }
}

} // verus!
