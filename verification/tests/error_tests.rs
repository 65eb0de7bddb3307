use seints_token::error::ContractError;

#[test]
fn test_unauthorized_error() {
    let err = ContractError::Unauthorized {};
    assert_eq!(err.message(), "Unauthorized");
}

#[test]
fn test_insufficient_balance_error() {
    let err = ContractError::InsufficientBalance { required: 100, available: 50 };
    assert_eq!(err.message(), "Insufficient balance: required 100, available 50");
}

#[test]
fn test_invalid_address_error() {
    let err = ContractError::InvalidAddress { address: "invalid_address".to_string() };
    assert_eq!(err.message(), "Invalid address: invalid_address");
}

#[test]
fn test_invalid_amount_error() {
    let err = ContractError::InvalidAmount { amount: 0 };
    assert_eq!(err.message(), "Invalid amount: 0");
}

#[test]
fn test_invalid_decimals_error() {
    let err = ContractError::InvalidDecimals { decimals: 19 };
    assert_eq!(err.message(), "Invalid decimals: 19 (must be <= 18)");
}

#[test]
fn test_invalid_initial_supply_error() {
    let err = ContractError::InvalidInitialSupply { expected: 1_000_000_000, actual: 500_000_000 };
    assert_eq!(err.message(), "Invalid initial supply: 500000000 (expected 1000000000)");
}

#[test]
fn test_overflow_error() {
    let err = ContractError::Overflow {};
    assert_eq!(err.message(), "Arithmetic overflow/underflow");
}

#[test]
fn test_invalid_metadata_error() {
    let err = ContractError::InvalidMetadata { url: "invalid_url".to_string() };
    assert_eq!(err.message(), "Invalid metadata URL: invalid_url (must be a valid URL)");
}

#[test]
fn test_duplicate_addresses_error() {
    let err = ContractError::DuplicateAddresses { address: "team_address".to_string() };
    assert_eq!(err.message(), "Duplicate addresses: team_address");
}
