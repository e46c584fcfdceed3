use vstd::prelude::*;

verus! {

/// Everything that can go wrong in the rental-agreement lifecycle, from
/// initialization through validation to signing.
#[derive(Clone, Copy, PartialEq, Eq, Structural, Debug)]
pub enum RentalError {
    /// Contract already initialized
    AlreadyInitialized,
    /// Invalid admin address
    InvalidAdmin,
    /// Invalid configuration parameters
    InvalidConfig,
    /// Agreement with this ID already exists
    AgreementAlreadyExists,
    /// Invalid amount provided
    InvalidAmount,
    /// Invalid date range
    InvalidDate,
    /// Invalid agent commission rate
    InvalidCommissionRate,
    /// Agreement is not active
    AgreementNotActive,
    /// Agreement not found
    AgreementNotFound,
    /// Caller is not the tenant
    NotTenant,
    /// Agreement is in invalid state for this operation
    InvalidState,
    /// Agreement has expired
    Expired,
}

} // verus!
