//! The contract surface: the execute dispatcher over the state-changing
//! operations and the read-only queries.
//!
//! The host hands every call a validated sender address and the current
//! logical time, and persists the state handle afterwards; the dispatcher
//! guarantees exactly what the dispatched operation guarantees.

use vstd::prelude::*;

use crate::error::ContractError;
use crate::ledger::{burn, burn_post, find_index, transfer, transfer_post};
use crate::metadata::{update_metadata, update_metadata_post};
use crate::msg::{
    ExecuteMsg, MetadataResponse, PoolReleaseInfoResponse, QueryAnswer, QueryMsg, Response,
    TokenInfoResponse, VestingInfoResponse,
};
use crate::release::{release_pool, release_pool_post, release_vested, release_vested_post};
use crate::state::{bal_of, has_key, key_index, State};

verus! {

/// Applies one state-changing request for `sender` at logical time `now`.
/// The guarantee is exactly that of the dispatched operation.
pub fn execute(state: &mut State, now: u64, sender: &String, msg: ExecuteMsg) -> (r: Result<
    Response,
    ContractError,
>)
    requires
        old(state).inv(),
    ensures
        match msg {
            ExecuteMsg::Transfer { recipient, amount } => transfer_post(
                *old(state),
                *final(state),
                sender@,
                recipient@,
                amount,
                r,
            ),
            ExecuteMsg::Burn { amount } => burn_post(*old(state), *final(state), sender@, amount, r),
            ExecuteMsg::ReleaseVested {  } => release_vested_post(
                *old(state),
                *final(state),
                now,
                sender@,
                r,
            ),
            ExecuteMsg::ReleasePool {  } => release_pool_post(
                *old(state),
                *final(state),
                now,
                sender@,
                r,
            ),
            ExecuteMsg::UpdateMetadata { metadata_url } => update_metadata_post(
                *old(state),
                *final(state),
                sender@,
                metadata_url,
                r,
            ),
        },
{
    match msg {
        ExecuteMsg::Transfer { recipient, amount } => transfer(state, sender, &recipient, amount),
        ExecuteMsg::Burn { amount } => burn(state, sender, amount),
        ExecuteMsg::ReleaseVested {  } => release_vested(state, now, sender),
        ExecuteMsg::ReleasePool {  } => release_pool(state, now, sender),
        ExecuteMsg::UpdateMetadata { metadata_url } => update_metadata(state, sender, metadata_url),
    }
}

/// Returns the token record.
pub fn token_info(state: &State) -> (r: TokenInfoResponse)
    ensures
        r == (TokenInfoResponse {
            name: state.token_info.name,
            symbol: state.token_info.symbol,
            decimals: state.token_info.decimals,
            total_supply: state.token_info.total_supply,
            owner: state.token_info.owner,
        }),
{
    TokenInfoResponse {
        name: state.token_info.name.clone(),
        symbol: state.token_info.symbol.clone(),
        decimals: state.token_info.decimals,
        total_supply: state.token_info.total_supply,
        owner: state.token_info.owner.clone(),
    }
}

/// Returns the balance of `address`; an address that never held tokens
/// has balance zero.
pub fn balance(state: &State, address: &String) -> (r: u128)
    ensures
        r == bal_of(state.balances@, address@),
{
    match find_index(&state.balances, address) {
        Some(i) => state.balances[i].1,
        None => 0,
    }
}

/// Copies the outstanding entries of a schedule for a response.
fn copy_entries(entries: &Vec<(u64, u128)>) -> (r: Vec<(u64, u128)>)
    ensures
        r@ == entries@,
{
    let mut out: Vec<(u64, u128)> = Vec::new();
    let mut i: usize = 0;
    while i < entries.len()
        invariant
            i <= entries@.len(),
            out@ =~= entries@.take(i as int),
        decreases entries@.len() - i,
    {
        out.push(entries[i]);
        i = i + 1;
    }
    proof {
        assert(out@ =~= entries@);
    }
    out
}

/// Returns the vesting schedule of `address`, or `NotFound` if it has
/// none — distinct from an exhausted schedule, which is reported with no
/// outstanding entries.
pub fn vesting_info(state: &State, address: &String) -> (r: Result<
    VestingInfoResponse,
    ContractError,
>)
    ensures
        r is Ok <==> has_key(state.vesting@, address@),
        r is Err ==> r == Err::<VestingInfoResponse, ContractError>(ContractError::NotFound {}),
        r matches Ok(v) ==> ({
            let sch = state.vesting@[key_index(state.vesting@, address@)].1;
            &&& v.amount == sch.amount
            &&& v.start_time == sch.start_time
            &&& v.release_schedule@ == sch.release_schedule@
        }),
{
    match find_index(&state.vesting, address) {
        Some(i) => {
            let sch = &state.vesting[i].1;
            Ok(VestingInfoResponse {
                amount: sch.amount,
                start_time: sch.start_time,
                release_schedule: copy_entries(&sch.release_schedule),
            })
        },
        None => Err(ContractError::NotFound {}),
    }
}

/// Returns the pool release schedule of `address`, or `NotFound` if it
/// has none.
pub fn pool_release_info(state: &State, address: &String) -> (r: Result<
    PoolReleaseInfoResponse,
    ContractError,
>)
    ensures
        r is Ok <==> has_key(state.pool_release_schedule@, address@),
        r is Err ==> r == Err::<PoolReleaseInfoResponse, ContractError>(ContractError::NotFound {}),
        r matches Ok(v) ==> ({
            let sch = state.pool_release_schedule@[key_index(
                state.pool_release_schedule@,
                address@,
            )].1;
            &&& v.amount == sch.amount
            &&& v.release_schedule@ == sch.release_schedule@
        }),
{
    match find_index(&state.pool_release_schedule, address) {
        Some(i) => {
            let sch = &state.pool_release_schedule[i].1;
            Ok(PoolReleaseInfoResponse {
                amount: sch.amount,
                release_schedule: copy_entries(&sch.release_schedule),
            })
        },
        None => Err(ContractError::NotFound {}),
    }
}

/// Returns the stored metadata URL.
pub fn metadata(state: &State) -> (r: MetadataResponse)
    ensures
        r == (MetadataResponse { metadata_url: state.metadata_url }),
{
    MetadataResponse { metadata_url: state.metadata_url.clone() }
}

/// Answers one read-only request. Queries never change state; a missing
/// balance reads as zero, while a missing schedule is a `NotFound` error.
pub fn query(state: &State, msg: QueryMsg) -> (r: Result<QueryAnswer, ContractError>)
    ensures
        match msg {
            QueryMsg::GetTokenInfo {  } => r == Ok::<QueryAnswer, ContractError>(
                QueryAnswer::TokenInfo(
                    TokenInfoResponse {
                        name: state.token_info.name,
                        symbol: state.token_info.symbol,
                        decimals: state.token_info.decimals,
                        total_supply: state.token_info.total_supply,
                        owner: state.token_info.owner,
                    },
                ),
            ),
            QueryMsg::GetBalance { address } => r == Ok::<QueryAnswer, ContractError>(
                QueryAnswer::Balance(bal_of(state.balances@, address@)),
            ),
            QueryMsg::GetVestingInfo { address } => {
                &&& (r is Ok <==> has_key(state.vesting@, address@))
                &&& r is Err ==> r == Err::<QueryAnswer, ContractError>(ContractError::NotFound {})
                &&& r matches Ok(ans) ==> ans matches QueryAnswer::VestingInfo(v) && ({
                    let sch = state.vesting@[key_index(state.vesting@, address@)].1;
                    &&& v.amount == sch.amount
                    &&& v.start_time == sch.start_time
                    &&& v.release_schedule@ == sch.release_schedule@
                })
            },
            QueryMsg::GetPoolReleaseInfo { address } => {
                &&& (r is Ok <==> has_key(state.pool_release_schedule@, address@))
                &&& r is Err ==> r == Err::<QueryAnswer, ContractError>(ContractError::NotFound {})
                &&& r matches Ok(ans) ==> ans matches QueryAnswer::PoolReleaseInfo(v) && ({
                    let sch = state.pool_release_schedule@[key_index(
                        state.pool_release_schedule@,
                        address@,
                    )].1;
                    &&& v.amount == sch.amount
                    &&& v.release_schedule@ == sch.release_schedule@
                })
            },
            QueryMsg::GetMetadata {  } => r == Ok::<QueryAnswer, ContractError>(
                QueryAnswer::Metadata(MetadataResponse { metadata_url: state.metadata_url }),
            ),
        },
{
    match msg {
        QueryMsg::GetTokenInfo {  } => Ok(QueryAnswer::TokenInfo(token_info(state))),
        QueryMsg::GetBalance { address } => Ok(QueryAnswer::Balance(balance(state, &address))),
        QueryMsg::GetVestingInfo { address } => match vesting_info(state, &address) {
            Ok(v) => Ok(QueryAnswer::VestingInfo(v)),
            Err(e) => Err(e),
        },
        QueryMsg::GetPoolReleaseInfo { address } => match pool_release_info(state, &address) {
            Ok(v) => Ok(QueryAnswer::PoolReleaseInfo(v)),
            Err(e) => Err(e),
        },
        QueryMsg::GetMetadata {  } => Ok(QueryAnswer::Metadata(metadata(state))),
    }
}

} // verus!
