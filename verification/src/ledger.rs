//! The balance ledger: credit/debit primitives over the balance map and
//! the transfer and burn operations built on them.
//!
//! Every operation maintains key uniqueness and is specified through
//! `bal_of` (per-address balance) and `sum_bal` (total of all balances),
//! so that the supply-conservation invariant of [`crate::state::State`]
//! can be carried through each entry point.

use vstd::prelude::*;

use crate::decimal::{dec_rep, u128_to_string};
use crate::error::ContractError;
use crate::msg::Response;
use crate::state::{
    bal_of, has_key, key_index, lemma_bal_of_le_sum, lemma_elem_le_sum_bal, lemma_key_index,
    lemma_key_index_push, lemma_key_index_same_keys, lemma_sum_bal_nonneg, lemma_sum_bal_push,
    lemma_sum_bal_update, lemma_sum_locked_nonneg, sum_bal, unique_keys, State,
};

verus! {

/// Index of the first entry of `v` keyed by `key`, if any.
pub(crate) fn find_index<T>(v: &Vec<(String, T)>, key: &String) -> (r: Option<usize>)
    ensures
        match r {
            Some(i) => i < v@.len() && i as int == key_index(v@, key@),
            None => !has_key(v@, key@),
        },
{
    let mut i: usize = 0;
    while i < v.len()
        invariant
            i <= v@.len(),
            forall|j: int| 0 <= j < i ==> v@[j].0@ != key@,
        decreases v@.len() - i,
    {
        if v[i].0 == *key {
            proof {
                lemma_key_index(v@, key@);
            }
            return Some(i);
        }
        i = i + 1;
    }
    proof {
        lemma_key_index(v@, key@);
    }
    None
}

/// Adds `amount` to the balance of `addr`, creating the entry on first
/// credit. Always succeeds; the caller accounts for the increase of the
/// balance sum.
pub fn credit(balances: &mut Vec<(String, u128)>, addr: &String, amount: u128)
    requires
        unique_keys(old(balances)@),
        sum_bal(old(balances)@) + amount <= u128::MAX,
    ensures
        unique_keys(final(balances)@),
        bal_of(final(balances)@, addr@) as int == bal_of(old(balances)@, addr@) + amount,
        forall|b: Seq<char>|
            b != addr@ ==> bal_of(final(balances)@, b) == bal_of(old(balances)@, b),
        forall|b: Seq<char>|
            has_key(final(balances)@, b) <==> has_key(old(balances)@, b) || b == addr@,
        sum_bal(final(balances)@) == sum_bal(old(balances)@) + amount,
{
    let ghost s0 = balances@;
    match find_index(balances, addr) {
        Some(i) => {
            proof {
                lemma_key_index(s0, addr@);
                lemma_elem_le_sum_bal(s0, i as int);
                lemma_sum_bal_nonneg(s0);
            }
            let cur = balances[i].1;
            let entry = &mut balances[i];
            entry.1 = cur + amount;
            proof {
                let s1 = balances@;
                assert(s1 == s0.update(i as int, (s0[i as int].0, (cur + amount) as u128)));
                lemma_sum_bal_update(s0, i as int, (s0[i as int].0, (cur + amount) as u128));
                assert(forall|k: int| 0 <= k < s1.len() ==> s0[k].0@ == s1[k].0@);
                assert forall|b: Seq<char>| b != addr@ implies bal_of(s1, b) == bal_of(s0, b) by {
                    lemma_key_index_same_keys(s0, s1, b);
                    lemma_key_index(s0, b);
                }
                assert forall|b: Seq<char>|
                    has_key(s1, b) <==> has_key(s0, b) || b == addr@ by {
                    lemma_key_index_same_keys(s0, s1, b);
                }
                lemma_key_index_same_keys(s0, s1, addr@);
            }
        },
        None => {
            proof {
                lemma_key_index(s0, addr@);
                lemma_sum_bal_nonneg(s0);
            }
            balances.push((addr.clone(), amount));
            proof {
                let s1 = balances@;
                assert(s1 == s0.push(s1.last()));
                assert(s1.last().0@ == addr@);
                lemma_sum_bal_push(s0, s1.last());
                assert forall|b: Seq<char>| b != addr@ implies bal_of(s1, b) == bal_of(s0, b) by {
                    lemma_key_index_push(s0, s1.last(), b);
                    lemma_key_index(s0, b);
                }
                assert forall|b: Seq<char>|
                    has_key(s1, b) <==> has_key(s0, b) || b == addr@ by {
                    lemma_key_index_push(s0, s1.last(), b);
                    lemma_key_index(s0, b);
                }
                lemma_key_index_push(s0, s1.last(), addr@);
                assert(bal_of(s1, addr@) == amount);
            }
        },
    }
}

/// Removes `amount` from the balance of `addr`. Fails with
/// `InsufficientBalance` — and changes nothing — when the address holds
/// less than `amount`.
pub fn debit(balances: &mut Vec<(String, u128)>, addr: &String, amount: u128) -> (r: Result<
    (),
    ContractError,
>)
    requires
        unique_keys(old(balances)@),
    ensures
        r is Ok <==> amount <= bal_of(old(balances)@, addr@),
        r is Ok ==> {
            &&& unique_keys(final(balances)@)
            &&& bal_of(final(balances)@, addr@) as int == bal_of(old(balances)@, addr@) - amount
            &&& forall|b: Seq<char>|
                b != addr@ ==> bal_of(final(balances)@, b) == bal_of(old(balances)@, b)
            &&& forall|b: Seq<char>| has_key(final(balances)@, b) <==> has_key(old(balances)@, b)
            &&& sum_bal(final(balances)@) == sum_bal(old(balances)@) - amount
        },
        r is Err ==> final(balances)@ == old(balances)@ && r == Err::<(), ContractError>(
            ContractError::InsufficientBalance {
                required: amount,
                available: bal_of(old(balances)@, addr@),
            },
        ),
{
    let ghost s0 = balances@;
    match find_index(balances, addr) {
        Some(i) => {
            let cur = balances[i].1;
            proof {
                lemma_key_index(s0, addr@);
            }
            if cur < amount {
                return Err(ContractError::InsufficientBalance {
                    required: amount,
                    available: cur,
                });
            }
            let entry = &mut balances[i];
            entry.1 = cur - amount;
            proof {
                let s1 = balances@;
                assert(s1 == s0.update(i as int, (s0[i as int].0, (cur - amount) as u128)));
                lemma_sum_bal_update(s0, i as int, (s0[i as int].0, (cur - amount) as u128));
                assert(forall|k: int| 0 <= k < s1.len() ==> s0[k].0@ == s1[k].0@);
                assert forall|b: Seq<char>| b != addr@ implies bal_of(s1, b) == bal_of(s0, b) by {
                    lemma_key_index_same_keys(s0, s1, b);
                    lemma_key_index(s0, b);
                }
                assert forall|b: Seq<char>| has_key(s1, b) <==> has_key(s0, b) by {
                    lemma_key_index_same_keys(s0, s1, b);
                }
                lemma_key_index_same_keys(s0, s1, addr@);
            }
            Ok(())
        },
        None => {
            if amount == 0 {
                Ok(())
            } else {
                Err(ContractError::InsufficientBalance { required: amount, available: 0 })
            }
        },
    }
}

/// What a transfer at `amount` from `sender` to `recipient` guarantees:
/// exactly when the sender's balance covers the amount it moves, the
/// balance sum and everything outside the two balances is untouched, and
/// on failure nothing changes and the exact error is reported.
pub open spec fn transfer_post(
    pre: State,
    post: State,
    sender: Seq<char>,
    recipient: Seq<char>,
    amount: u128,
    r: Result<Response, ContractError>,
) -> bool {
    &&& post.inv()
    &&& post.token_info == pre.token_info
    &&& post.vesting@ == pre.vesting@
    &&& post.pool_release_schedule@ == pre.pool_release_schedule@
    &&& post.metadata_url == pre.metadata_url
    &&& (r is Ok <==> amount <= bal_of(pre.balances@, sender))
    &&& r is Err ==> post.balances@ == pre.balances@ && r == Err::<Response, ContractError>(
        ContractError::InsufficientBalance {
            required: amount,
            available: bal_of(pre.balances@, sender),
        },
    )
    &&& r is Ok ==> {
        &&& sum_bal(post.balances@) == sum_bal(pre.balances@)
        &&& sender != recipient ==> bal_of(post.balances@, sender) as int == bal_of(
            pre.balances@,
            sender,
        ) - amount && bal_of(post.balances@, recipient) as int == bal_of(
            pre.balances@,
            recipient,
        ) + amount
        &&& sender == recipient ==> forall|b: Seq<char>|
            bal_of(post.balances@, b) == bal_of(pre.balances@, b)
        &&& forall|b: Seq<char>|
            b != sender && b != recipient ==> bal_of(post.balances@, b) == bal_of(
                pre.balances@,
                b,
            )
    }
    &&& r matches Ok(resp) ==> {
        &&& resp.attributes@.len() == 4
        &&& resp.attributes@[0].0@ == "method"@ && resp.attributes@[0].1@ == "transfer"@
        &&& resp.attributes@[1].0@ == "from"@ && resp.attributes@[1].1@ == sender
        &&& resp.attributes@[2].0@ == "to"@ && resp.attributes@[2].1@ == recipient
        &&& resp.attributes@[3].0@ == "amount"@ && resp.attributes@[3].1@ == dec_rep(amount as int)
    }
}

/// Moves `amount` from `sender` to `recipient`: the debit is validated
/// first, and nothing changes when it fails. A self-transfer is a net
/// no-op that still requires a sufficient balance.
pub fn transfer(state: &mut State, sender: &String, recipient: &String, amount: u128) -> (r:
    Result<Response, ContractError>)
    requires
        old(state).inv(),
    ensures
        transfer_post(*old(state), *final(state), sender@, recipient@, amount, r),
{
    proof {
        lemma_sum_bal_nonneg(old(state).balances@);
        lemma_sum_locked_nonneg(old(state).vesting@);
        lemma_sum_locked_nonneg(old(state).pool_release_schedule@);
        lemma_bal_of_le_sum(old(state).balances@, sender@);
    }
    match debit(&mut state.balances, sender, amount) {
        Ok(()) => {},
        Err(e) => {
            return Err(e);
        },
    }
    credit(&mut state.balances, recipient, amount);
    let resp = Response::new()
        .add_attribute("method", String::from_str("transfer"))
        .add_attribute("from", sender.clone())
        .add_attribute("to", recipient.clone())
        .add_attribute("amount", u128_to_string(amount));
    Ok(resp)
}

/// What a burn of `amount` by `sender` guarantees: exactly when the
/// balance covers it, both the balance and the total supply shrink by the
/// amount (so conservation is kept), and on failure nothing changes and
/// the exact error is reported. Under the invariant the defensive supply
/// underflow check can never fire, so `Overflow` is never returned.
pub open spec fn burn_post(
    pre: State,
    post: State,
    sender: Seq<char>,
    amount: u128,
    r: Result<Response, ContractError>,
) -> bool {
    &&& post.inv()
    &&& post.vesting@ == pre.vesting@
    &&& post.pool_release_schedule@ == pre.pool_release_schedule@
    &&& post.metadata_url == pre.metadata_url
    &&& post.token_info.name == pre.token_info.name
    &&& post.token_info.symbol == pre.token_info.symbol
    &&& post.token_info.decimals == pre.token_info.decimals
    &&& post.token_info.owner == pre.token_info.owner
    &&& (r is Ok <==> amount <= bal_of(pre.balances@, sender))
    &&& r is Err ==> post.balances@ == pre.balances@ && post.token_info.total_supply
        == pre.token_info.total_supply && r == Err::<Response, ContractError>(
        ContractError::InsufficientBalance {
            required: amount,
            available: bal_of(pre.balances@, sender),
        },
    )
    &&& r is Ok ==> {
        &&& bal_of(post.balances@, sender) as int == bal_of(pre.balances@, sender) - amount
        &&& forall|b: Seq<char>|
            b != sender ==> bal_of(post.balances@, b) == bal_of(pre.balances@, b)
        &&& post.token_info.total_supply as int == pre.token_info.total_supply - amount
    }
    &&& r matches Ok(resp) ==> {
        &&& resp.attributes@.len() == 3
        &&& resp.attributes@[0].0@ == "method"@ && resp.attributes@[0].1@ == "burn"@
        &&& resp.attributes@[1].0@ == "from"@ && resp.attributes@[1].1@ == sender
        &&& resp.attributes@[2].0@ == "amount"@ && resp.attributes@[2].1@ == dec_rep(amount as int)
    }
}

/// Destroys `amount` from `sender`'s balance and reduces the total supply
/// by the same amount. The supply subtraction is checked defensively, but
/// under the state invariant it can never underflow, so the only error is
/// an insufficient balance.
pub fn burn(state: &mut State, sender: &String, amount: u128) -> (r: Result<
    Response,
    ContractError,
>)
    requires
        old(state).inv(),
    ensures
        burn_post(*old(state), *final(state), sender@, amount, r),
{
    proof {
        lemma_sum_bal_nonneg(old(state).balances@);
        lemma_sum_locked_nonneg(old(state).vesting@);
        lemma_sum_locked_nonneg(old(state).pool_release_schedule@);
        lemma_bal_of_le_sum(old(state).balances@, sender@);
    }
    match debit(&mut state.balances, sender, amount) {
        Ok(()) => {},
        Err(e) => {
            return Err(e);
        },
    }
    // Under the invariant the supply covers every balance, so this
    // defensive underflow check can never fire.
    if amount > state.token_info.total_supply {
        proof {
            assert(false);
        }
        return Err(ContractError::Overflow {});
    }
    state.token_info.total_supply = state.token_info.total_supply - amount;
    let resp = Response::new()
        .add_attribute("method", String::from_str("burn"))
        .add_attribute("from", sender.clone())
        .add_attribute("amount", u128_to_string(amount));
    Ok(resp)
}

} // verus!
