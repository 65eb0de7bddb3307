//! The request and response types of the ledger's entry points, and the
//! attribute-carrying `Response` that state-changing operations return.

use vstd::prelude::*;
use vstd::string::StringExecFns;

verus! {

/// The initial configuration: token details, distribution addresses and
/// metadata location.
#[derive(Debug, PartialEq)]
pub struct InstantiateMsg {
    pub name: String,
    pub symbol: String,
    pub decimals: u8,
    pub initial_supply: u128,
    pub team_address: String,
    pub pool_address: String,
    pub metadata_url: String,
}

/// Requests that modify the contract's state.
#[derive(Debug, PartialEq)]
pub enum ExecuteMsg {
    /// Transfers tokens from the sender to a recipient.
    Transfer { recipient: String, amount: u128 },
    /// Burns tokens from the sender's balance.
    Burn { amount: u128 },
    /// Releases vested tokens for the sender.
    ReleaseVested {},
    /// Releases pool tokens for the sender.
    ReleasePool {},
    /// Updates the metadata URL (only callable by the owner).
    UpdateMetadata { metadata_url: String },
}

/// Read-only requests against the contract's state.
#[derive(Debug, PartialEq)]
pub enum QueryMsg {
    /// Returns information about the token.
    GetTokenInfo {},
    /// Returns the balance of a specific address.
    GetBalance { address: String },
    /// Returns vesting information for a specific address.
    GetVestingInfo { address: String },
    /// Returns pool release information for a specific address.
    GetPoolReleaseInfo { address: String },
    /// Returns the metadata URL.
    GetMetadata {},
}

/// Response for the `GetTokenInfo` query.
#[derive(Debug, PartialEq)]
pub struct TokenInfoResponse {
    pub name: String,
    pub symbol: String,
    pub decimals: u8,
    pub total_supply: u128,
    pub owner: String,
}

/// Response for the `GetVestingInfo` query.
#[derive(Debug, PartialEq)]
pub struct VestingInfoResponse {
    pub amount: u128,
    pub start_time: u64,
    pub release_schedule: Vec<(u64, u128)>,
}

/// Response for the `GetPoolReleaseInfo` query.
#[derive(Debug, PartialEq)]
pub struct PoolReleaseInfoResponse {
    pub amount: u128,
    pub release_schedule: Vec<(u64, u128)>,
}

/// Response for the `GetMetadata` query.
#[derive(Debug, PartialEq)]
pub struct MetadataResponse {
    pub metadata_url: String,
}

/// Response for a count query of the contract-template surface.
#[derive(Debug, PartialEq)]
pub struct GetCountResponse {
    pub count: u64,
}

/// The answer of the query dispatcher, one variant per query.
#[derive(Debug, PartialEq)]
pub enum QueryAnswer {
    TokenInfo(TokenInfoResponse),
    Balance(u128),
    VestingInfo(VestingInfoResponse),
    PoolReleaseInfo(PoolReleaseInfoResponse),
    Metadata(MetadataResponse),
}

/// What a state-changing operation reports back to the host: a list of
/// (key, value) attributes describing what was done.
#[derive(Debug, PartialEq)]
pub struct Response {
    pub attributes: Vec<(String, String)>,
}

impl Response {
    /// An empty response.
    pub fn new() -> (r: Response)
        ensures
            r.attributes@.len() == 0,
    {
        Response { attributes: Vec::new() }
    }

    /// Appends one attribute.
    pub fn add_attribute(self, key: &str, value: String) -> (r: Response)
        ensures
            r.attributes@.len() == self.attributes@.len() + 1,
            forall|i: int|
                0 <= i < self.attributes@.len() ==> r.attributes@[i] == self.attributes@[i],
            r.attributes@.last().0@ == key@,
            r.attributes@.last().1 == value,
    {
        let mut attributes = self.attributes;
        attributes.push((String::from_str(key), value));
        Response { attributes }
    }
}

} // verus!
