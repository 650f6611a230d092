use vstd::prelude::*;

verus! {

/// Errors surfaced across the billing service boundary.
///
/// `Io` and `Serialization` carry a description of a storage or decoding
/// failure; the remaining variants carry a human-readable reason.
#[derive(Debug, Clone, PartialEq, Eq)]
pub enum BillingError {
    Io(String),
    Serialization(String),
    ProviderUnavailable(String),
    Validation(String),
    NotFound(String),
    Conflict(String),
}

/// Errors raised at the payment-processor boundary; the service collapses
/// these into `BillingError::Validation` when they cross into its own layer.
#[derive(Debug, Clone, PartialEq, Eq)]
pub enum PaymentError {
    ProviderUnavailable(String),
    Validation(String),
    Transport(String),
    Unexpected(String),
}

} // verus!
