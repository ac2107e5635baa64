//! Errors of the bridge's operations.
use vstd::prelude::*;

verus! {

/// Relies on cosmwasm_std's error type only to carry it through unchanged.
#[verifier::external_type_specification]
#[verifier::external_body]
pub struct ExStdError(cosmwasm_std::StdError);

/// Why an operation was refused.
#[derive(Debug)]
pub enum ContractError {
    /// The host's serialization failed.
    Std(cosmwasm_std::StdError),
    /// The caller lacks the admin or operator capability that the operation needs.
    Unauthorized {},
    /// A token arrived from a collection that has no mapping.
    UnauthorizedCollection {},
    /// The host did not accept an address.
    InvalidAddress { address: String },
    /// A mapping for this address (source or destination) is already registered.
    MappingExists { source_addr: String },
    /// No mapping matches this address.
    MappingNotFound { source_addr: String },
    /// The effective pause flag of the collection is set.
    BridgePaused {},
}

} // verus!
