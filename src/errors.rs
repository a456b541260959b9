use vstd::prelude::*;

verus! {

/// Broad classes of failure that callers react to in the same way.
#[derive(Clone, Copy, Debug, PartialEq, Eq, Structural)]
pub enum ErrorKind {
    NotFound,
    Unauthorized,
    InvalidInput,
    Conflict,
    UnreachableThreshold,
}

/// Every failure the escrow core reports; none of them leaves partial state behind.
#[derive(Clone, Copy, Debug, PartialEq, Eq, Structural)]
pub enum ContractError {
    CaseNotFound,
    ScopeNotFound,
    Unauthorized,
    InvalidRatio,
    InvalidThresholds,
    DuplicateSigner,
    DuplicateCase,
    CaseClosed,
    AlreadyResolved,
    AlreadyExecuted,
    UnreachableThreshold,
}

pub open spec fn kind_of(e: ContractError) -> ErrorKind {
    match e {
        ContractError::CaseNotFound => ErrorKind::NotFound,
        ContractError::ScopeNotFound => ErrorKind::NotFound,
        ContractError::Unauthorized => ErrorKind::Unauthorized,
        ContractError::InvalidRatio => ErrorKind::InvalidInput,
        ContractError::InvalidThresholds => ErrorKind::InvalidInput,
        ContractError::DuplicateSigner => ErrorKind::InvalidInput,
        ContractError::DuplicateCase => ErrorKind::Conflict,
        ContractError::CaseClosed => ErrorKind::Conflict,
        ContractError::AlreadyResolved => ErrorKind::Conflict,
        ContractError::AlreadyExecuted => ErrorKind::Conflict,
        ContractError::UnreachableThreshold => ErrorKind::UnreachableThreshold,
    }
}

impl ContractError {
    /// The class this error belongs to.
    pub fn kind(&self) -> (r: ErrorKind)
        ensures
            r == kind_of(*self),
    {
        match self {
            ContractError::CaseNotFound => ErrorKind::NotFound,
            ContractError::ScopeNotFound => ErrorKind::NotFound,
            ContractError::Unauthorized => ErrorKind::Unauthorized,
            ContractError::InvalidRatio => ErrorKind::InvalidInput,
            ContractError::InvalidThresholds => ErrorKind::InvalidInput,
            ContractError::DuplicateSigner => ErrorKind::InvalidInput,
            ContractError::DuplicateCase => ErrorKind::Conflict,
            ContractError::CaseClosed => ErrorKind::Conflict,
            ContractError::AlreadyResolved => ErrorKind::Conflict,
            ContractError::AlreadyExecuted => ErrorKind::Conflict,
            ContractError::UnreachableThreshold => ErrorKind::UnreachableThreshold,
        }
    }
}

} // verus!
