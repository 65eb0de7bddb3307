//! The time-gated release engine, one generic state machine used by both
//! the owner-vesting and the pool gradual-release instances.
//!
//! A release at logical time `now` applies exactly the leading entries of
//! the (strictly ascending) schedule whose unlock time has been reached:
//! their amounts are credited, they are removed, and the baseline advances
//! to the last applied unlock time. The spec functions `cut`,
//! `released_of` and `release_applied` describe one such step exactly, and
//! the lemmas below state the idempotence and monotonicity laws of the
//! engine.

use vstd::prelude::*;
use vstd::string::StringExecFns;

use crate::decimal::{dec_rep, u128_to_string};
use crate::error::ContractError;
use crate::ledger::{credit, find_index};
use crate::msg::Response;
use crate::state::{
    bal_of, baseline_of, entries_sorted, has_key, key_index, lemma_elem_le_sum_locked,
    lemma_key_index, lemma_key_index_same_keys, lemma_sum_bal_nonneg, lemma_sum_entries_nonneg,
    lemma_sum_entries_split, lemma_sum_locked_nonneg, lemma_sum_locked_update, sched_wf, sum_bal,
    sum_entries, sum_locked, unique_keys, ReleaseSchedule, State,
};

verus! {

/// Number of leading entries whose unlock time has been reached at `now`.
/// With a strictly ascending schedule these are exactly the entries due.
pub open spec fn cut(es: Seq<(u64, u128)>, now: u64) -> int
    decreases es.len(),
{
    if es.len() == 0 || es[0].0 > now {
        0
    } else {
        1 + cut(es.drop_first(), now)
    }
}

/// Everything before the cut is due, and the entry at the cut (if any) is
/// not.
pub proof fn lemma_cut(es: Seq<(u64, u128)>, now: u64)
    ensures
        0 <= cut(es, now) <= es.len(),
        forall|j: int| 0 <= j < cut(es, now) ==> es[j].0 <= now,
        cut(es, now) < es.len() ==> es[cut(es, now)].0 > now,
    decreases es.len(),
{
    if es.len() > 0 && es[0].0 <= now {
        lemma_cut(es.drop_first(), now);
        assert forall|j: int| 0 <= j < cut(es, now) implies es[j].0 <= now by {
            if j > 0 {
                assert(es.drop_first()[j - 1].0 <= now);
            }
        }
    }
}

/// A scan point with everything due before it and the entry at it (if
/// any) not yet due is the cut.
pub proof fn lemma_cut_at(es: Seq<(u64, u128)>, now: u64, i: int)
    requires
        0 <= i <= es.len(),
        forall|j: int| 0 <= j < i ==> es[j].0 <= now,
        i < es.len() ==> es[i].0 > now,
    ensures
        cut(es, now) == i,
    decreases es.len(),
{
    if es.len() > 0 && es[0].0 <= now {
        assert(i > 0);
        assert(forall|j: int| 0 <= j < i - 1 ==> es.drop_first()[j].0 <= now);
        lemma_cut_at(es.drop_first(), now, i - 1);
    }
}

/// The amount newly unlocked by a release of `s` at `now`.
pub open spec fn released_of(s: ReleaseSchedule, now: u64) -> int {
    sum_entries(s.release_schedule@.take(cut(s.release_schedule@, now)))
}

/// The baseline after a release of `s` at `now`: the unlock time of the
/// last entry applied, or the old baseline when nothing was due.
pub open spec fn baseline_after(s: ReleaseSchedule, now: u64) -> u64 {
    let k = cut(s.release_schedule@, now);
    if k > 0 {
        s.release_schedule@[k - 1].0
    } else {
        baseline_of(s)
    }
}

/// `post` is exactly `pre` after one release step at `now`: the due prefix
/// is gone, the locked amount shrank by what was released, and the
/// baseline was recorded.
pub open spec fn release_applied(pre: ReleaseSchedule, post: ReleaseSchedule, now: u64) -> bool {
    let k = cut(pre.release_schedule@, now);
    &&& post.release_schedule@ == pre.release_schedule@.skip(k)
    &&& post.amount == pre.amount - released_of(pre, now)
    &&& post.start_time == pre.start_time
    &&& post.last_processed_time == Some(baseline_after(pre, now))
}

/// Appending an entry adds its amount to the entry sum.
proof fn lemma_sum_entries_push(es: Seq<(u64, u128)>, e: (u64, u128))
    ensures
        sum_entries(es.push(e)) == sum_entries(es) + e.1,
    decreases es.len(),
{
    reveal_with_fuel(sum_entries, 2);
    assert(es.push(e)[0] == if es.len() == 0 { e } else { es[0] });
    if es.len() == 0 {
        assert(es.push(e).drop_first() =~= Seq::<(u64, u128)>::empty());
        assert(sum_entries(es.push(e)) == e.1 + sum_entries(Seq::<(u64, u128)>::empty()));
    } else {
        assert(es.push(e).drop_first() =~= es.drop_first().push(e));
        lemma_sum_entries_push(es.drop_first(), e);
    }
}

/// Performs one release step on a single schedule at logical time `now`
/// and returns the newly unlocked amount (possibly zero — that is not an
/// error, it signals that nothing new was due).
pub fn process_release(s: &mut ReleaseSchedule, now: u64) -> (released: u128)
    requires
        sched_wf(*old(s)),
    ensures
        sched_wf(*final(s)),
        release_applied(*old(s), *final(s), now),
        released as int == released_of(*old(s), now),
        released as int == sum_entries(old(s).release_schedule@) - sum_entries(
            final(s).release_schedule@,
        ),
        baseline_of(*final(s)) >= baseline_of(*old(s)),
{
    let ghost pre = *s;
    let ghost es = pre.release_schedule@;
    let baseline = match s.last_processed_time {
        Some(t) => t,
        None => s.start_time,
    };
    let n = s.release_schedule.len();
    let mut i: usize = 0;
    let mut released: u128 = 0;
    while i < n && s.release_schedule[i].0 <= now
        invariant
            *s == pre,
            sched_wf(pre),
            es == pre.release_schedule@,
            n == es.len(),
            0 <= i <= n,
            forall|j: int| 0 <= j < i ==> es[j].0 <= now,
            released as int == sum_entries(es.take(i as int)),
        decreases n - i,
    {
        proof {
            lemma_sum_entries_split(es, i + 1);
            lemma_sum_entries_nonneg(es.skip(i + 1));
            assert(es.take(i + 1) =~= es.take(i as int).push(es[i as int]));
            lemma_sum_entries_push(es.take(i as int), es[i as int]);
            assert(sum_entries(es.take(i + 1)) <= sum_entries(es));
        }
        released = released + s.release_schedule[i].1;
        i = i + 1;
    }
    proof {
        lemma_cut_at(es, now, i as int);
        lemma_sum_entries_split(es, i as int);
        lemma_sum_entries_nonneg(es.skip(i as int));
        lemma_sum_entries_nonneg(es.take(i as int));
    }
    let new_last = if i > 0 {
        s.release_schedule[i - 1].0
    } else {
        baseline
    };
    s.last_processed_time = Some(new_last);
    let ghost mid = *s;
    let mut rest: Vec<(u64, u128)> = Vec::new();
    let mut j: usize = i;
    while j < n
        invariant
            *s == mid,
            mid.release_schedule@ == es,
            n == es.len(),
            i <= j <= n,
            rest@ =~= es.subrange(i as int, j as int),
        decreases n - j,
    {
        rest.push(s.release_schedule[j]);
        j = j + 1;
    }
    proof {
        assert(rest@ =~= es.skip(i as int));
    }
    s.release_schedule = rest;
    s.amount = s.amount - released;
    proof {
        let post = *s;
        assert(post.release_schedule@ =~= es.skip(cut(es, now)));
        // Well-formedness of the remaining schedule.
        assert(entries_sorted(post.release_schedule@));
        assert forall|k: int|
            0 <= k < post.release_schedule@.len() implies post.release_schedule@[k].0
            > baseline_of(post) by {
            assert(post.release_schedule@[k] == es[i + k]);
            if i > 0 {
                assert(es[i - 1].0 < es[i + k].0);
            } else {
                assert(es[i + k].0 > baseline_of(pre));
            }
        }
        if i > 0 {
            assert(baseline_of(post) == es[i - 1].0);
            assert(es[i - 1].0 > baseline_of(pre));
        }
    }
    released
}

/// Idempotence of the engine: a second release at the same time releases
/// nothing and leaves the schedule exactly as the first release left it.
pub proof fn lemma_release_idempotent(
    s0: ReleaseSchedule,
    s1: ReleaseSchedule,
    s2: ReleaseSchedule,
    now: u64,
)
    requires
        sched_wf(s0),
        sched_wf(s1),
        release_applied(s0, s1, now),
        release_applied(s1, s2, now),
    ensures
        released_of(s1, now) == 0,
        s2.release_schedule@ == s1.release_schedule@,
        s2.amount == s1.amount,
        s2.last_processed_time == s1.last_processed_time,
        s2.start_time == s1.start_time,
{
    let es0 = s0.release_schedule@;
    let es1 = s1.release_schedule@;
    lemma_cut(es0, now);
    if es1.len() > 0 {
        assert(es1[0] == es0[cut(es0, now)]);
        assert(es1[0].0 > now);
    }
    assert(cut(es1, now) == 0);
    assert(es1.take(0) =~= Seq::<(u64, u128)>::empty());
    assert(released_of(s1, now) == 0);
    assert(s2.release_schedule@ =~= es1.skip(0));
    assert(es1.skip(0) =~= es1);
    assert(baseline_after(s1, now) == baseline_of(s1));
}

/// Boundary of the time gate: an unlock time equal to `now` is included
/// in a release, one strictly after `now` is not. In particular a release
/// strictly before the first outstanding unlock releases nothing.
pub proof fn lemma_release_boundary(s: ReleaseSchedule, now: u64)
    requires
        sched_wf(s),
        s.release_schedule@.len() > 0,
    ensures
        now < s.release_schedule@[0].0 ==> released_of(s, now) == 0,
        now >= s.release_schedule@[0].0 ==> released_of(s, now) >= s.release_schedule@[0].1,
{
    let es = s.release_schedule@;
    lemma_cut(es, now);
    if now < es[0].0 {
        assert(es.take(0) =~= Seq::<(u64, u128)>::empty());
    } else {
        assert(cut(es, now) >= 1);
        let t = es.take(cut(es, now));
        assert(t[0] == es[0]);
        lemma_sum_entries_nonneg(t.drop_first());
        assert(sum_entries(t) == t[0].1 + sum_entries(t.drop_first()));
    }
}

/// A release that reaches exactly one outstanding entry releases exactly
/// that entry's amount and removes exactly that entry.
pub proof fn lemma_release_single_entry(s: ReleaseSchedule, now: u64)
    requires
        sched_wf(s),
        s.release_schedule@.len() > 0,
        s.release_schedule@[0].0 <= now,
        s.release_schedule@.len() > 1 ==> now < s.release_schedule@[1].0,
    ensures
        cut(s.release_schedule@, now) == 1,
        released_of(s, now) == s.release_schedule@[0].1,
{
    let es = s.release_schedule@;
    lemma_cut_at(es, now, 1);
    let t = es.take(1);
    assert(t[0] == es[0]);
    assert(t.drop_first() =~= Seq::<(u64, u128)>::empty());
    assert(sum_entries(t) == t[0].1 + sum_entries(t.drop_first()));
}

/// Monotonicity of the baseline: a release step never moves
/// `last_processed_time` backwards.
pub proof fn lemma_release_monotone(pre: ReleaseSchedule, post: ReleaseSchedule, now: u64)
    requires
        sched_wf(pre),
        release_applied(pre, post, now),
    ensures
        baseline_of(post) >= baseline_of(pre),
{
    let es = pre.release_schedule@;
    lemma_cut(es, now);
    if cut(es, now) > 0 {
        assert(es[cut(es, now) - 1].0 > baseline_of(pre));
    }
}

/// Idempotence of the vesting entry point: when a release for `sender`
/// succeeded, a second release with no elapsed-time change also succeeds,
/// releases zero, and leaves the schedule state and every balance exactly
/// as the first release left them.
pub proof fn lemma_release_vested_idempotent(
    s0: State,
    s1: State,
    s2: State,
    now: u64,
    sender: Seq<char>,
    r1: Result<Response, ContractError>,
    r2: Result<Response, ContractError>,
)
    requires
        s0.inv(),
        release_vested_post(s0, s1, now, sender, r1),
        release_vested_post(s1, s2, now, sender, r2),
        r1 is Ok,
    ensures
        r2 is Ok,
        ({
            let ki = key_index(s1.vesting@, sender);
            let sch1 = s1.vesting@[ki].1;
            let sch2 = s2.vesting@[ki].1;
            &&& released_of(sch1, now) == 0
            &&& sch2.release_schedule@ == sch1.release_schedule@
            &&& sch2.amount == sch1.amount
            &&& sch2.last_processed_time == sch1.last_processed_time
            &&& sch2.start_time == sch1.start_time
        }),
        forall|b: Seq<char>| bal_of(s2.balances@, b) == bal_of(s1.balances@, b),
{
    let ki0 = key_index(s0.vesting@, sender);
    lemma_key_index(s0.vesting@, sender);
    assert(forall|j: int| 0 <= j < s0.vesting@.len() ==> s0.vesting@[j].0@ == s1.vesting@[j].0@);
    lemma_key_index_same_keys(s0.vesting@, s1.vesting@, sender);
    let ki = key_index(s1.vesting@, sender);
    assert(ki == ki0);
    let sch0 = s0.vesting@[ki].1;
    let sch1 = s1.vesting@[ki].1;
    let sch2 = s2.vesting@[ki].1;
    assert(sched_wf(sch0));
    assert(sched_wf(sch1));
    lemma_release_idempotent(sch0, sch1, sch2, now);
    assert forall|b: Seq<char>| bal_of(s2.balances@, b) == bal_of(s1.balances@, b) by {
        if b == sender {
            assert(bal_of(s2.balances@, sender) as int == bal_of(s1.balances@, sender)
                + released_of(sch1, now));
        }
    }
}

/// Releases whatever is due for `sender` in one schedule map and credits
/// it to `sender`'s balance. Fails with `NotFound` — and changes nothing —
/// when `sender` has no schedule there.
fn release_for(
    schedules: &mut Vec<(String, ReleaseSchedule)>,
    balances: &mut Vec<(String, u128)>,
    sender: &String,
    now: u64,
) -> (r: Result<u128, ContractError>)
    requires
        unique_keys(old(schedules)@),
        unique_keys(old(balances)@),
        forall|i: int|
            0 <= i < old(schedules)@.len() ==> sched_wf(#[trigger] old(schedules)@[i].1),
        sum_bal(old(balances)@) + sum_locked(old(schedules)@) <= u128::MAX,
    ensures
        r is Ok <==> has_key(old(schedules)@, sender@),
        r is Err ==> final(schedules)@ == old(schedules)@ && final(balances)@ == old(balances)@
            && r == Err::<u128, ContractError>(ContractError::NotFound {}),
        r matches Ok(rel) ==> {
            let ki = key_index(old(schedules)@, sender@);
            let pre = old(schedules)@[ki].1;
            &&& rel as int == released_of(pre, now)
            &&& final(schedules)@.len() == old(schedules)@.len()
            &&& final(schedules)@[ki].0 == old(schedules)@[ki].0
            &&& sched_wf(final(schedules)@[ki].1)
            &&& release_applied(pre, final(schedules)@[ki].1, now)
            &&& baseline_of(final(schedules)@[ki].1) >= baseline_of(pre)
            &&& forall|j: int|
                0 <= j < old(schedules)@.len() && j != ki ==> final(schedules)@[j] == old(schedules)@[j]
            &&& unique_keys(final(schedules)@)
            &&& forall|i: int|
                0 <= i < final(schedules)@.len() ==> sched_wf(#[trigger] final(schedules)@[i].1)
            &&& sum_locked(final(schedules)@) == sum_locked(old(schedules)@) - rel
            &&& unique_keys(final(balances)@)
            &&& bal_of(final(balances)@, sender@) as int == bal_of(old(balances)@, sender@) + rel
            &&& forall|b: Seq<char>|
                b != sender@ ==> bal_of(final(balances)@, b) == bal_of(old(balances)@, b)
            &&& forall|b: Seq<char>|
                has_key(final(balances)@, b) <==> has_key(old(balances)@, b) || b == sender@
            &&& sum_bal(final(balances)@) == sum_bal(old(balances)@) + rel
        },
{
    let ghost ss0 = schedules@;
    let i = match find_index(schedules, sender) {
        Some(i) => i,
        None => {
            return Err(ContractError::NotFound {});
        },
    };
    proof {
        lemma_key_index(ss0, sender@);
        lemma_elem_le_sum_locked(ss0, i as int);
        lemma_sum_locked_nonneg(ss0);
        lemma_sum_bal_nonneg(balances@);
    }
    let mut pair = schedules.remove(i);
    let ghost pre = pair.1;
    let released = process_release(&mut pair.1, now);
    proof {
        // The released amount is bounded by the schedule's locked amount.
        assert(released as int == pre.amount - pair.1.amount);
    }
    schedules.insert(i, pair);
    proof {
        let ss1 = schedules@;
        assert(ss1 =~= ss0.update(i as int, ss1[i as int]));
        assert(ss1[i as int].0 == ss0[i as int].0);
        lemma_sum_locked_update(ss0, i as int, ss1[i as int]);
        assert(forall|k: int| 0 <= k < ss1.len() ==> ss0[k].0@ == ss1[k].0@);
        assert(unique_keys(ss1));
    }
    credit(balances, sender, released);
    Ok(released)
}

/// What releasing the vesting schedule of `sender` at `now` guarantees:
/// it succeeds exactly when a schedule exists, applies one release step
/// to it, credits exactly the released amount to the sender, and touches
/// nothing else.
pub open spec fn release_vested_post(
    pre: State,
    post: State,
    now: u64,
    sender: Seq<char>,
    r: Result<Response, ContractError>,
) -> bool {
    &&& post.inv()
    &&& post.token_info == pre.token_info
    &&& post.pool_release_schedule@ == pre.pool_release_schedule@
    &&& post.metadata_url == pre.metadata_url
    &&& (r is Ok <==> has_key(pre.vesting@, sender))
    &&& r is Err ==> post.vesting@ == pre.vesting@ && post.balances@ == pre.balances@ && r
        == Err::<Response, ContractError>(ContractError::NotFound {})
    &&& r is Ok ==> {
        let ki = key_index(pre.vesting@, sender);
        let sch = pre.vesting@[ki].1;
        &&& post.vesting@.len() == pre.vesting@.len()
        &&& post.vesting@[ki].0 == pre.vesting@[ki].0
        &&& release_applied(sch, post.vesting@[ki].1, now)
        &&& baseline_of(post.vesting@[ki].1) >= baseline_of(sch)
        &&& forall|j: int|
            0 <= j < pre.vesting@.len() && j != ki ==> post.vesting@[j] == pre.vesting@[j]
        &&& bal_of(post.balances@, sender) as int == bal_of(pre.balances@, sender)
            + released_of(sch, now)
        &&& forall|b: Seq<char>|
            b != sender ==> bal_of(post.balances@, b) == bal_of(pre.balances@, b)
    }
    &&& r matches Ok(resp) ==> {
        &&& resp.attributes@.len() == 2
        &&& resp.attributes@[0].0@ == "method"@ && resp.attributes@[0].1@ == "release_vested"@
        &&& resp.attributes@[1].0@ == "amount"@ && resp.attributes@[1].1@ == dec_rep(
            released_of(pre.vesting@[key_index(pre.vesting@, sender)].1, now),
        )
    }
}

/// Releases the sender's vested tokens that have become due at `now`.
pub fn release_vested(state: &mut State, now: u64, sender: &String) -> (r: Result<
    Response,
    ContractError,
>)
    requires
        old(state).inv(),
    ensures
        release_vested_post(*old(state), *final(state), now, sender@, r),
{
    proof {
        lemma_sum_bal_nonneg(old(state).balances@);
        lemma_sum_locked_nonneg(old(state).vesting@);
        lemma_sum_locked_nonneg(old(state).pool_release_schedule@);
    }
    let released = match release_for(&mut state.vesting, &mut state.balances, sender, now) {
        Ok(released) => released,
        Err(e) => {
            return Err(e);
        },
    };
    let resp = Response::new()
        .add_attribute("method", String::from_str("release_vested"))
        .add_attribute("amount", u128_to_string(released));
    Ok(resp)
}

/// What releasing the pool schedule of `sender` at `now` guarantees:
/// the exact counterpart of `release_vested_post` on the pool map.
pub open spec fn release_pool_post(
    pre: State,
    post: State,
    now: u64,
    sender: Seq<char>,
    r: Result<Response, ContractError>,
) -> bool {
    &&& post.inv()
    &&& post.token_info == pre.token_info
    &&& post.vesting@ == pre.vesting@
    &&& post.metadata_url == pre.metadata_url
    &&& (r is Ok <==> has_key(pre.pool_release_schedule@, sender))
    &&& r is Err ==> post.pool_release_schedule@ == pre.pool_release_schedule@ && post.balances@
        == pre.balances@ && r == Err::<Response, ContractError>(ContractError::NotFound {})
    &&& r is Ok ==> {
        let ki = key_index(pre.pool_release_schedule@, sender);
        let sch = pre.pool_release_schedule@[ki].1;
        &&& post.pool_release_schedule@.len() == pre.pool_release_schedule@.len()
        &&& post.pool_release_schedule@[ki].0 == pre.pool_release_schedule@[ki].0
        &&& release_applied(sch, post.pool_release_schedule@[ki].1, now)
        &&& baseline_of(post.pool_release_schedule@[ki].1) >= baseline_of(sch)
        &&& forall|j: int|
            0 <= j < pre.pool_release_schedule@.len() && j != ki ==> post.pool_release_schedule@[j]
                == pre.pool_release_schedule@[j]
        &&& bal_of(post.balances@, sender) as int == bal_of(pre.balances@, sender)
            + released_of(sch, now)
        &&& forall|b: Seq<char>|
            b != sender ==> bal_of(post.balances@, b) == bal_of(pre.balances@, b)
    }
    &&& r matches Ok(resp) ==> {
        &&& resp.attributes@.len() == 2
        &&& resp.attributes@[0].0@ == "method"@ && resp.attributes@[0].1@ == "release_pool"@
        &&& resp.attributes@[1].0@ == "amount"@ && resp.attributes@[1].1@ == dec_rep(
            released_of(pre.pool_release_schedule@[key_index(pre.pool_release_schedule@, sender)].1, now),
        )
    }
}

/// Releases the sender's pool tokens that have become due at `now`.
pub fn release_pool(state: &mut State, now: u64, sender: &String) -> (r: Result<
    Response,
    ContractError,
>)
    requires
        old(state).inv(),
    ensures
        release_pool_post(*old(state), *final(state), now, sender@, r),
{
    proof {
        lemma_sum_bal_nonneg(old(state).balances@);
        lemma_sum_locked_nonneg(old(state).vesting@);
        lemma_sum_locked_nonneg(old(state).pool_release_schedule@);
    }
    let released = match release_for(
        &mut state.pool_release_schedule,
        &mut state.balances,
        sender,
        now,
    ) {
        Ok(released) => released,
        Err(e) => {
            return Err(e);
        },
    };
    let resp = Response::new()
        .add_attribute("method", String::from_str("release_pool"))
        .add_attribute("amount", u128_to_string(released));
    Ok(resp)
}

} // verus!
