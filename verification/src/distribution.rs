//! The one-time initial distribution: validation of the instantiation
//! request, the percentage split of the minted supply, and the seeding of
//! the two release schedules.
//!
//! Policy constants: the team receives 20% of the supply immediately; the
//! pool bucket is 50%, of which 40/50 is immediately spendable and 10/50
//! is locked behind the pool gradual-release schedule; the owner bucket is
//! the remaining 30%, all locked behind the vesting schedule. Integer
//! splits truncate toward zero and every rounding remainder is routed into
//! the last computed share of its bucket, so no supply is lost or created.

use vstd::prelude::*;
use vstd::string::StringExecFns;

use crate::decimal::u128_to_string;
use crate::error::ContractError;
use crate::metadata::{is_valid_url, url_well_formed};
use crate::msg::{InstantiateMsg, Response};
use crate::state::{
    bal_of, has_key, lemma_key_index, lemma_key_index_unique, sum_bal, sum_entries, sum_locked,
    ReleaseSchedule, State, TokenInfo,
};

verus! {

/// The only accepted initial supply.
pub const EXPECTED_INITIAL_SUPPLY: u128 = 1_000_000_000;

/// One logical year, in seconds (365 days).
pub const SECONDS_PER_YEAR: u64 = 31_536_000;

/// Half a logical year, in seconds.
pub const SECONDS_PER_HALF_YEAR: u64 = 15_768_000;

/// The team's immediate share of the supply.
pub open spec fn team_share(supply: int) -> int {
    supply * 20 / 100
}

/// The pool bucket: upfront share plus gradual-release remainder.
pub open spec fn pool_share(supply: int) -> int {
    supply * 50 / 100
}

/// The owner bucket: whatever the team and pool shares leave, so that the
/// three primary shares sum to the supply exactly.
pub open spec fn owner_share(supply: int) -> int {
    supply - team_share(supply) - pool_share(supply)
}

/// The part of the pool bucket that is immediately spendable.
pub open spec fn pool_upfront_share(supply: int) -> int {
    pool_share(supply) * 40 / 50
}

/// The part of the pool bucket locked behind the gradual-release schedule:
/// the remainder of the pool bucket, so that the pool sub-splits sum to
/// the pool share exactly.
pub open spec fn pool_gradual_share(supply: int) -> int {
    pool_share(supply) - pool_upfront_share(supply)
}

/// Conservation of the distribution: the immediate credits plus the two
/// locked buckets account for the whole supply, with no remainder lost or
/// created.
pub proof fn lemma_distribution_conservation(supply: int)
    ensures
        team_share(supply) + pool_upfront_share(supply) + pool_gradual_share(supply) + owner_share(
            supply,
        ) == supply,
{
}

/// Creates the token: validates the request, records the token info and
/// metadata URL, credits the team and pool their immediate shares, and
/// locks the owner bucket and the pool remainder behind fresh release
/// schedules starting at `now`.
pub fn instantiate(now: u64, sender: &String, msg: InstantiateMsg) -> (r: Result<
    (State, Response),
    ContractError,
>)
    requires
        now <= u64::MAX - 3 * SECONDS_PER_YEAR,
    ensures
        r is Ok <==> msg.decimals <= 18 && msg.initial_supply == EXPECTED_INITIAL_SUPPLY
            && msg.team_address@ != msg.pool_address@ && msg.team_address@ != sender@
            && msg.pool_address@ != sender@ && url_well_formed(msg.metadata_url@),
        msg.decimals > 18 ==> r == Err::<(State, Response), ContractError>(
            ContractError::InvalidDecimals { decimals: msg.decimals },
        ),
        msg.decimals <= 18 && msg.initial_supply != EXPECTED_INITIAL_SUPPLY ==> r == Err::<
            (State, Response),
            ContractError,
        >(
            ContractError::InvalidInitialSupply {
                expected: EXPECTED_INITIAL_SUPPLY,
                actual: msg.initial_supply,
            },
        ),
        msg.decimals <= 18 && msg.initial_supply == EXPECTED_INITIAL_SUPPLY && (msg.team_address@
            == msg.pool_address@ || msg.team_address@ == sender@) ==> r == Err::<
            (State, Response),
            ContractError,
        >(ContractError::DuplicateAddresses { address: msg.team_address }),
        msg.decimals <= 18 && msg.initial_supply == EXPECTED_INITIAL_SUPPLY && msg.team_address@
            != msg.pool_address@ && msg.team_address@ != sender@ && msg.pool_address@ == sender@
            ==> r == Err::<(State, Response), ContractError>(
            ContractError::DuplicateAddresses { address: msg.pool_address },
        ),
        msg.decimals <= 18 && msg.initial_supply == EXPECTED_INITIAL_SUPPLY && msg.team_address@
            != msg.pool_address@ && msg.team_address@ != sender@ && msg.pool_address@ != sender@
            && !url_well_formed(msg.metadata_url@) ==> r == Err::<(State, Response), ContractError>(
            ContractError::InvalidMetadata { url: msg.metadata_url },
        ),
        r matches Ok(sr) ==> ({
            let st = sr.0;
            let resp = sr.1;
            let supply = msg.initial_supply as int;
            let team_amt = team_share(supply);
            let pool_up = pool_upfront_share(supply);
            let pool_grad = pool_gradual_share(supply);
            let owner_amt = owner_share(supply);
            &&& st.inv()
            &&& st.token_info.name == msg.name
            &&& st.token_info.symbol == msg.symbol
            &&& st.token_info.decimals == msg.decimals
            &&& st.token_info.total_supply == msg.initial_supply
            &&& st.token_info.owner@ == sender@
            &&& st.metadata_url == msg.metadata_url
            &&& bal_of(st.balances@, msg.team_address@) == team_amt
            &&& bal_of(st.balances@, msg.pool_address@) == pool_up
            &&& forall|b: Seq<char>|
                b != msg.team_address@ && b != msg.pool_address@ ==> bal_of(st.balances@, b) == 0
            &&& sum_bal(st.balances@) == team_amt + pool_up
            &&& team_amt + pool_up + pool_grad + owner_amt == supply
            &&& st.vesting@.len() == 1
            &&& st.vesting@[0].0@ == sender@
            &&& has_key(st.vesting@, sender@)
            &&& st.vesting@[0].1.amount == owner_amt
            &&& st.vesting@[0].1.start_time == now
            &&& st.vesting@[0].1.last_processed_time is None
            &&& st.vesting@[0].1.release_schedule@.len() == 3
            &&& st.vesting@[0].1.release_schedule@[0].0 == now + SECONDS_PER_YEAR
            &&& st.vesting@[0].1.release_schedule@[0].1 == owner_amt / 3
            &&& st.vesting@[0].1.release_schedule@[1].0 == now + 2 * SECONDS_PER_YEAR
            &&& st.vesting@[0].1.release_schedule@[1].1 == owner_amt / 3
            &&& st.vesting@[0].1.release_schedule@[2].0 == now + 3 * SECONDS_PER_YEAR
            &&& st.vesting@[0].1.release_schedule@[2].1 == owner_amt - 2 * (owner_amt / 3)
            &&& sum_locked(st.vesting@) == owner_amt
            &&& st.pool_release_schedule@.len() == 1
            &&& st.pool_release_schedule@[0].0@ == msg.pool_address@
            &&& has_key(st.pool_release_schedule@, msg.pool_address@)
            &&& st.pool_release_schedule@[0].1.amount == pool_grad
            &&& st.pool_release_schedule@[0].1.start_time == now
            &&& st.pool_release_schedule@[0].1.last_processed_time is None
            &&& st.pool_release_schedule@[0].1.release_schedule@.len() == 3
            &&& st.pool_release_schedule@[0].1.release_schedule@[0].0 == now
                + SECONDS_PER_HALF_YEAR
            &&& st.pool_release_schedule@[0].1.release_schedule@[0].1 == pool_grad * 5 / 10
            &&& st.pool_release_schedule@[0].1.release_schedule@[1].0 == now + 2
                * SECONDS_PER_HALF_YEAR
            &&& st.pool_release_schedule@[0].1.release_schedule@[1].1 == pool_grad * 25 / 100
            &&& st.pool_release_schedule@[0].1.release_schedule@[2].0 == now + 3
                * SECONDS_PER_HALF_YEAR
            &&& st.pool_release_schedule@[0].1.release_schedule@[2].1 == pool_grad - pool_grad * 5
                / 10 - pool_grad * 25 / 100
            &&& sum_locked(st.pool_release_schedule@) == pool_grad
            &&& resp.attributes@.len() == 4
            &&& resp.attributes@[0].0@ == "method"@ && resp.attributes@[0].1@ == "instantiate"@
            &&& resp.attributes@[1].0@ == "owner"@ && resp.attributes@[1].1@ == sender@
            &&& resp.attributes@[2].0@ == "total_supply"@ && resp.attributes@[2].1@
                == crate::decimal::dec_rep(msg.initial_supply as int)
            &&& resp.attributes@[3].0@ == "metadata_url"@ && resp.attributes@[3].1@
                == msg.metadata_url@
        }),
{
    if msg.decimals > 18 {
        return Err(ContractError::InvalidDecimals { decimals: msg.decimals });
    }
    if msg.initial_supply != EXPECTED_INITIAL_SUPPLY {
        return Err(ContractError::InvalidInitialSupply {
            expected: EXPECTED_INITIAL_SUPPLY,
            actual: msg.initial_supply,
        });
    }
    if msg.team_address == msg.pool_address || msg.team_address == *sender {
        return Err(ContractError::DuplicateAddresses { address: msg.team_address });
    }
    if msg.pool_address == *sender {
        return Err(ContractError::DuplicateAddresses { address: msg.pool_address });
    }
    if !is_valid_url(msg.metadata_url.as_str()) {
        return Err(ContractError::InvalidMetadata { url: msg.metadata_url });
    }
    let supply = msg.initial_supply;
    let team_amount = supply * 20 / 100;
    let pool_amount = supply * 50 / 100;
    let owner_amount = supply - team_amount - pool_amount;
    let pool_upfront_amount = pool_amount * 40 / 50;
    let pool_gradual_amount = pool_amount - pool_upfront_amount;

    let token_info = TokenInfo {
        name: msg.name,
        symbol: msg.symbol,
        decimals: msg.decimals,
        total_supply: supply,
        owner: sender.clone(),
    };

    let mut balances: Vec<(String, u128)> = Vec::new();
    balances.push((msg.team_address, team_amount));
    balances.push((msg.pool_address.clone(), pool_upfront_amount));

    // Owner bucket: three yearly unlocks of a third each, remainder in the
    // last entry.
    let third = owner_amount / 3;
    let last_third = owner_amount - 2 * third;
    let mut vesting_entries: Vec<(u64, u128)> = Vec::new();
    vesting_entries.push((now + SECONDS_PER_YEAR, third));
    vesting_entries.push((now + 2 * SECONDS_PER_YEAR, third));
    vesting_entries.push((now + 3 * SECONDS_PER_YEAR, last_third));
    let vesting_info = ReleaseSchedule {
        amount: owner_amount,
        start_time: now,
        release_schedule: vesting_entries,
        last_processed_time: None,
    };
    let mut vesting: Vec<(String, ReleaseSchedule)> = Vec::new();
    vesting.push((sender.clone(), vesting_info));

    // Pool remainder: half after six months, then a quarter each at one
    // year and eighteen months, remainder in the last entry.
    let pool_first = pool_gradual_amount * 5 / 10;
    let pool_second = pool_gradual_amount * 25 / 100;
    let pool_last = pool_gradual_amount - pool_first - pool_second;
    let mut pool_entries: Vec<(u64, u128)> = Vec::new();
    pool_entries.push((now + SECONDS_PER_HALF_YEAR, pool_first));
    pool_entries.push((now + 2 * SECONDS_PER_HALF_YEAR, pool_second));
    pool_entries.push((now + 3 * SECONDS_PER_HALF_YEAR, pool_last));
    let pool_info = ReleaseSchedule {
        amount: pool_gradual_amount,
        start_time: now,
        release_schedule: pool_entries,
        last_processed_time: None,
    };
    let mut pool_release_schedule: Vec<(String, ReleaseSchedule)> = Vec::new();
    pool_release_schedule.push((msg.pool_address, pool_info));

    let resp = Response::new()
        .add_attribute("method", String::from_str("instantiate"))
        .add_attribute("owner", sender.clone())
        .add_attribute("total_supply", u128_to_string(supply))
        .add_attribute("metadata_url", msg.metadata_url.clone());

    let state = State {
        token_info,
        balances,
        vesting,
        pool_release_schedule,
        metadata_url: msg.metadata_url,
    };

    proof {
        reveal_with_fuel(sum_bal, 3);
        reveal_with_fuel(sum_locked, 2);
        reveal_with_fuel(sum_entries, 4);
        let bs = state.balances@;
        assert(bs.len() == 2);
        assert(bs[0].0@ == msg.team_address@);
        assert(bs[1].0@ == msg.pool_address@);
        lemma_key_index_unique(bs, msg.team_address@, 0);
        lemma_key_index_unique(bs, msg.pool_address@, 1);
        assert forall|b: Seq<char>|
            b != msg.team_address@ && b != msg.pool_address@ implies bal_of(bs, b) == 0 by {
            lemma_key_index(bs, b);
        }
        assert(bs.drop_first().drop_first() =~= Seq::<(String, u128)>::empty());
        assert(sum_bal(bs) == team_amount + pool_upfront_amount);
        let vs = state.vesting@;
        assert(vs.drop_first() =~= Seq::<(String, ReleaseSchedule)>::empty());
        lemma_key_index_unique(vs, sender@, 0);
        let ps = state.pool_release_schedule@;
        assert(ps.drop_first() =~= Seq::<(String, ReleaseSchedule)>::empty());
        lemma_key_index_unique(ps, msg.pool_address@, 0);
        let ves = vs[0].1.release_schedule@;
        assert(ves.drop_first().drop_first().drop_first() =~= Seq::<(u64, u128)>::empty());
        assert(sum_entries(ves) == owner_amount);
        let pes = ps[0].1.release_schedule@;
        assert(pes.drop_first().drop_first().drop_first() =~= Seq::<(u64, u128)>::empty());
        assert(sum_entries(pes) == pool_gradual_amount);
    }
    Ok((state, resp))
}

} // verus!
