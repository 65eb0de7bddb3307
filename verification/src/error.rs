//! The operation errors, and their display text.
//!
//! Every fallible operation of the ledger reports one of these variants;
//! the contracts of the operations pin down exactly which variant is
//! returned on which inputs. `message` renders the text shown to callers.

use vstd::prelude::*;
use vstd::string::StringExecFns;

use crate::decimal::{dec_rep, u128_to_string};

verus! {

/// Everything that can go wrong in a ledger operation.
#[derive(Debug, PartialEq)]
pub enum ContractError {
    /// An action was attempted by an address that is not allowed to.
    Unauthorized {},
    /// A debit asked for more than the address holds.
    InsufficientBalance { required: u128, available: u128 },
    /// An address failed host-side validation.
    InvalidAddress { address: String },
    /// An invalid token amount was specified.
    InvalidAmount { amount: u128 },
    /// The token decimals exceed the allowed precision.
    InvalidDecimals { decimals: u8 },
    /// The initial supply differs from the fixed expected amount.
    InvalidInitialSupply { expected: u128, actual: u128 },
    /// An arithmetic operation would overflow or underflow.
    Overflow {},
    /// The metadata URL is not well formed.
    InvalidMetadata { url: String },
    /// Two distribution target addresses coincide.
    DuplicateAddresses { address: String },
    /// No release schedule exists for the caller.
    NotFound {},
}

/// The display text of each error, at the spec level.
pub open spec fn error_message(e: ContractError) -> Seq<char> {
    match e {
        ContractError::Unauthorized {  } => "Unauthorized"@,
        ContractError::InsufficientBalance { required, available } => "Insufficient balance: required "@
            + dec_rep(required as int) + ", available "@ + dec_rep(available as int),
        ContractError::InvalidAddress { address } => "Invalid address: "@ + address@,
        ContractError::InvalidAmount { amount } => "Invalid amount: "@ + dec_rep(amount as int),
        ContractError::InvalidDecimals { decimals } => "Invalid decimals: "@ + dec_rep(
            decimals as int,
        ) + " (must be <= 18)"@,
        ContractError::InvalidInitialSupply { expected, actual } => "Invalid initial supply: "@
            + dec_rep(actual as int) + " (expected "@ + dec_rep(expected as int) + ")"@,
        ContractError::Overflow {  } => "Arithmetic overflow/underflow"@,
        ContractError::InvalidMetadata { url } => "Invalid metadata URL: "@ + url@
            + " (must be a valid URL)"@,
        ContractError::DuplicateAddresses { address } => "Duplicate addresses: "@ + address@,
        ContractError::NotFound {  } => "Release schedule not found"@,
    }
}

impl ContractError {
    /// Renders the error text.
    pub fn message(&self) -> (s: String)
        ensures
            s@ == error_message(*self),
    {
        match self {
            ContractError::Unauthorized {  } => String::from_str("Unauthorized"),
            ContractError::InsufficientBalance { required, available } => {
                let mut s = String::from_str("Insufficient balance: required ");
                let r = u128_to_string(*required);
                s.append(r.as_str());
                s.append(", available ");
                let a = u128_to_string(*available);
                s.append(a.as_str());
                s
            },
            ContractError::InvalidAddress { address } => {
                let mut s = String::from_str("Invalid address: ");
                s.append(address.as_str());
                s
            },
            ContractError::InvalidAmount { amount } => {
                let mut s = String::from_str("Invalid amount: ");
                let a = u128_to_string(*amount);
                s.append(a.as_str());
                s
            },
            ContractError::InvalidDecimals { decimals } => {
                let mut s = String::from_str("Invalid decimals: ");
                let d = u128_to_string(*decimals as u128);
                s.append(d.as_str());
                s.append(" (must be <= 18)");
                s
            },
            ContractError::InvalidInitialSupply { expected, actual } => {
                let mut s = String::from_str("Invalid initial supply: ");
                let a = u128_to_string(*actual);
                s.append(a.as_str());
                s.append(" (expected ");
                let e = u128_to_string(*expected);
                s.append(e.as_str());
                s.append(")");
                s
            },
            ContractError::Overflow {  } => String::from_str("Arithmetic overflow/underflow"),
            ContractError::InvalidMetadata { url } => {
                let mut s = String::from_str("Invalid metadata URL: ");
                s.append(url.as_str());
                s.append(" (must be a valid URL)");
                s
            },
            ContractError::DuplicateAddresses { address } => {
                let mut s = String::from_str("Duplicate addresses: ");
                s.append(address.as_str());
                s
            },
            ContractError::NotFound {  } => String::from_str("Release schedule not found"),
        }
    }
}

} // verus!
