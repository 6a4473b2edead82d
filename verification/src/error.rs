//! Reasons for which an operation is rejected.

use vstd::prelude::*;

verus! {

/// Every rejection leaves the ledgers exactly as they were.
#[derive(Clone, Copy, Debug, PartialEq, Eq, Structural)]
pub enum FarmError {
    /// The caller may not do this: not the farm owner, not the item owner,
    /// wrong seed on a top-up, or a collateral source that is not whitelisted.
    NotAuthorized,
    /// The farm cannot take this: it has ended, does not accept the item, or
    /// names another collateral contract.
    InvalidState,
    /// Too early: no full session has elapsed, or the farm has not started.
    NotYetEligible,
    /// Unknown farm, item or staking position.
    NotFound,
    /// The ownership check did not confirm the requester.
    VerificationFailed,
    /// Staking now would let this position drain the whole remaining pool.
    ExhaustionGuard,
    /// A counter or balance would leave its machine range.
    Overflow,
}

impl FarmError {
    pub fn message(&self) -> (r: String)
        ensures
            r@ == (match *self {
                FarmError::NotAuthorized => "not authorized"@,
                FarmError::InvalidState => "invalid state"@,
                FarmError::NotYetEligible => "not yet eligible"@,
                FarmError::NotFound => "not found"@,
                FarmError::VerificationFailed => "verification failed"@,
                FarmError::ExhaustionGuard => "reward nearly exhausted"@,
                FarmError::Overflow => "overflow"@,
            }),
    {
        match *self {
            FarmError::NotAuthorized => "not authorized".to_owned(),
            FarmError::InvalidState => "invalid state".to_owned(),
            FarmError::NotYetEligible => "not yet eligible".to_owned(),
            FarmError::NotFound => "not found".to_owned(),
            FarmError::VerificationFailed => "verification failed".to_owned(),
            FarmError::ExhaustionGuard => "reward nearly exhausted".to_owned(),
            FarmError::Overflow => "overflow".to_owned(),
        }
    }
}

} // verus!
