//! The rejection taxonomy of the admission gate.

use vstd::prelude::*;

verus! {

/// Every way a call can be turned away, or an operation can fail.
///
/// `RuleNotFound`, `AddressMismatch` and `QuotaExceeded` are raised by the
/// session layer; at the interceptor boundary they surface as `Internal`,
/// `PermissionDenied` and `ResourceExhausted` respectively.
/// `InvalidArgument` is raised at the boundary itself, for a malformed
/// identity or address, before any session state is touched.
#[derive(Debug, Clone, Copy, PartialEq, Eq, Structural)]
pub enum GateError {
    /// No quota rule is configured for the requested service: a deployment
    /// defect, never an ordinary client outcome.
    RuleNotFound,
    /// The client identity is already bound to a different source address.
    AddressMismatch,
    /// The token bucket for this (client, service) pair is empty.
    QuotaExceeded,
    /// The caller-supplied identity or address has the wrong shape.
    InvalidArgument,
    /// Boundary form of `AddressMismatch`.
    PermissionDenied,
    /// Boundary form of `QuotaExceeded`.
    ResourceExhausted,
    /// Boundary form of `RuleNotFound`: a configuration or storage failure.
    Internal,
}

impl GateError {
    /// The boundary form of a session-layer error, as the interceptor reports it
    /// to callers.
    pub fn to_boundary(self) -> (r: GateError)
        ensures
            r == self.spec_to_boundary(),
    {
        match self {
            GateError::RuleNotFound => GateError::Internal,
            GateError::AddressMismatch => GateError::PermissionDenied,
            GateError::QuotaExceeded => GateError::ResourceExhausted,
            e => e,
        }
    }

    pub open spec fn spec_to_boundary(self) -> GateError {
        match self {
            GateError::RuleNotFound => GateError::Internal,
            GateError::AddressMismatch => GateError::PermissionDenied,
            GateError::QuotaExceeded => GateError::ResourceExhausted,
            e => e,
        }
    }
}

} // verus!
