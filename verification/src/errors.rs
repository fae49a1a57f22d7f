//! Error kinds surfaced by the bridge operations.
//!
//! Every error is detected before any mutation, so a failing operation
//! leaves the stored state exactly as it was.

use vstd::prelude::*;

verus! {

/// Names a status variant without its payload; used to report which prior
/// status a refused transition expected.
#[derive(Clone, Copy, Debug, PartialEq, Eq, Structural)]
pub enum StatusTag {
    Created,
    Doing,
    Error,
    Done,
}

/// Failure of one-time setup.
#[derive(Clone, Copy, Debug, PartialEq, Eq, Structural)]
pub enum ConstructError {
    /// The operator identity fails basic syntactic identity validation.
    InvalidOwner,
    /// State already exists for this instance.
    AlreadyInitialized,
}

/// Failure of request creation.
#[derive(Clone, Copy, Debug, PartialEq, Eq, Structural)]
pub enum CreateError {
    /// A token-funded transfer was attempted; that path is unimplemented.
    NotImplemented,
    /// The caller's existing record is still in a non-terminal status.
    UnfinishedRequestExists,
}

/// Failure of an operator transition.
#[derive(Clone, Copy, Debug, PartialEq, Eq, Structural)]
pub enum TransitionError {
    /// The caller is not the fixed operator.
    NotOwner,
    /// No record is stored for the targeted requester.
    RequestNotFound,
    /// The stored status does not permit the requested transition; `expected`
    /// names the prior status the transition needs.
    InvalidTransition { expected: StatusTag },
}

impl ConstructError {
    pub open spec fn spec_message(self) -> Seq<char> {
        match self {
            ConstructError::InvalidOwner => "owner's account id is invalid"@,
            ConstructError::AlreadyInitialized => "already initialized"@,
        }
    }

    /// Human-readable description of the error.
    pub fn message(&self) -> (m: &'static str)
        ensures
            m@ == self.spec_message(),
    {
        match self {
            ConstructError::InvalidOwner => "owner's account id is invalid",
            ConstructError::AlreadyInitialized => "already initialized",
        }
    }
}

impl CreateError {
    pub open spec fn spec_message(self) -> Seq<char> {
        match self {
            CreateError::NotImplemented => "token-funded transfers are not implemented"@,
            CreateError::UnfinishedRequestExists => "an unfinished request exists"@,
        }
    }

    /// Human-readable description of the error.
    pub fn message(&self) -> (m: &'static str)
        ensures
            m@ == self.spec_message(),
    {
        match self {
            CreateError::NotImplemented => "token-funded transfers are not implemented",
            CreateError::UnfinishedRequestExists => "an unfinished request exists",
        }
    }
}

impl TransitionError {
    pub open spec fn spec_message(self) -> Seq<char> {
        match self {
            TransitionError::NotOwner => "caller is not the operator"@,
            TransitionError::RequestNotFound => "request not found"@,
            TransitionError::InvalidTransition { expected } => match expected {
                StatusTag::Created => "invalid transition: expected Created"@,
                StatusTag::Doing => "invalid transition: expected Doing"@,
                StatusTag::Error => "invalid transition: expected Error"@,
                StatusTag::Done => "invalid transition: expected Done"@,
            },
        }
    }

    /// Human-readable description of the error, naming the expected prior
    /// status for a refused transition.
    pub fn message(&self) -> (m: &'static str)
        ensures
            m@ == self.spec_message(),
    {
        match self {
            TransitionError::NotOwner => "caller is not the operator",
            TransitionError::RequestNotFound => "request not found",
            TransitionError::InvalidTransition { expected } => match expected {
                StatusTag::Created => "invalid transition: expected Created",
                StatusTag::Doing => "invalid transition: expected Doing",
                StatusTag::Error => "invalid transition: expected Error",
                StatusTag::Done => "invalid transition: expected Done",
            },
        }
    }
}

} // verus!
