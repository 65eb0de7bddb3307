//! Data model of the ledger: token record, balance map, release schedules,
//! and the state invariant that every operation preserves.
//!
//! The balance map and the two schedule maps are association lists keyed by
//! address, with unique keys. An absent entry means a zero balance. The
//! conservation invariant ties them together: the spendable balances plus
//! the amounts still locked in schedules always equal the total supply.

use vstd::prelude::*;

verus! {

/// Global information about the token: display strings, precision,
/// remaining total supply and the owner address.
#[derive(Debug)]
pub struct TokenInfo {
    pub name: String,
    pub symbol: String,
    pub decimals: u8,
    pub total_supply: u128,
    pub owner: String,
}

/// A time-gated release schedule: the remaining locked amount, the creation
/// time, the ordered (unlock_time, unlock_amount) pairs still outstanding,
/// and the highest unlock time already applied (`None` before the first
/// release).
#[derive(Debug)]
pub struct ReleaseSchedule {
    pub amount: u128,
    pub start_time: u64,
    pub release_schedule: Vec<(u64, u128)>,
    pub last_processed_time: Option<u64>,
}

/// The owner-vesting instance of the release-schedule engine.
pub type VestingInfo = ReleaseSchedule;

/// The pool gradual-release instance of the release-schedule engine.
pub type PoolReleaseInfo = ReleaseSchedule;

/// The whole persisted contract state, threaded explicitly through every
/// operation.
#[derive(Debug)]
pub struct State {
    pub token_info: TokenInfo,
    pub balances: Vec<(String, u128)>,
    pub vesting: Vec<(String, ReleaseSchedule)>,
    pub pool_release_schedule: Vec<(String, ReleaseSchedule)>,
    pub metadata_url: String,
}

/// No two entries of an association list share a key.
pub open spec fn unique_keys<T>(s: Seq<(String, T)>) -> bool {
    forall|i: int, j: int| 0 <= i < j < s.len() ==> s[i].0@ != s[j].0@
}

/// Index of the first entry whose key is `a`, or `s.len()` if there is none.
pub open spec fn key_index<T>(s: Seq<(String, T)>, a: Seq<char>) -> int
    decreases s.len(),
{
    if s.len() == 0 {
        0
    } else if s[0].0@ == a {
        0
    } else {
        1 + key_index(s.drop_first(), a)
    }
}

/// Whether the association list has an entry keyed by `a`.
pub open spec fn has_key<T>(s: Seq<(String, T)>, a: Seq<char>) -> bool {
    key_index(s, a) < s.len()
}

/// The balance recorded for address `a`; an absent entry means zero.
pub open spec fn bal_of(s: Seq<(String, u128)>, a: Seq<char>) -> u128 {
    if has_key(s, a) {
        s[key_index(s, a)].1
    } else {
        0
    }
}

/// Sum of all recorded balances.
pub open spec fn sum_bal(s: Seq<(String, u128)>) -> int
    decreases s.len(),
{
    if s.len() == 0 {
        0
    } else {
        s[0].1 + sum_bal(s.drop_first())
    }
}

/// Sum of the `unlock_amount` components of a schedule's entries.
pub open spec fn sum_entries(es: Seq<(u64, u128)>) -> int
    decreases es.len(),
{
    if es.len() == 0 {
        0
    } else {
        es[0].1 + sum_entries(es.drop_first())
    }
}

/// Sum of the locked amounts of all schedules in a schedule map.
pub open spec fn sum_locked(s: Seq<(String, ReleaseSchedule)>) -> int
    decreases s.len(),
{
    if s.len() == 0 {
        0
    } else {
        s[0].1.amount + sum_locked(s.drop_first())
    }
}

/// Entries are strictly increasing by unlock time.
pub open spec fn entries_sorted(es: Seq<(u64, u128)>) -> bool {
    forall|i: int, j: int| 0 <= i < j < es.len() ==> es[i].0 < es[j].0
}

/// The baseline of a schedule: the highest unlock time already applied, or
/// the creation time if none has been.
pub open spec fn baseline_of(s: ReleaseSchedule) -> u64 {
    match s.last_processed_time {
        Some(t) => t,
        None => s.start_time,
    }
}

/// Well-formedness of a single schedule: entries strictly ascending and
/// positive, all still ahead of the baseline, and the locked amount equal
/// to the sum of the outstanding entries.
pub open spec fn sched_wf(s: ReleaseSchedule) -> bool {
    &&& entries_sorted(s.release_schedule@)
    &&& forall|i: int| 0 <= i < s.release_schedule@.len() ==> s.release_schedule@[i].1 > 0
    &&& forall|i: int| 0 <= i < s.release_schedule@.len() ==> s.release_schedule@[i].0
        > baseline_of(s)
    &&& sum_entries(s.release_schedule@) == s.amount
}

impl State {
    /// The state invariant. Every entry point requires it of the state it is
    /// handed and re-establishes it; instantiation establishes it. It bundles
    /// key uniqueness, per-schedule well-formedness, and conservation: the
    /// spendable balances plus all locked amounts equal the total supply.
    pub open spec fn inv(self) -> bool {
        &&& unique_keys(self.balances@)
        &&& unique_keys(self.vesting@)
        &&& unique_keys(self.pool_release_schedule@)
        &&& forall|i: int| 0 <= i < self.vesting@.len() ==> sched_wf(#[trigger] self.vesting@[i].1)
        &&& forall|i: int| 0 <= i < self.pool_release_schedule@.len() ==> sched_wf(
            #[trigger] self.pool_release_schedule@[i].1,
        )
        &&& sum_bal(self.balances@) + sum_locked(self.vesting@) + sum_locked(
            self.pool_release_schedule@,
        ) == self.token_info.total_supply
        &&& self.token_info.decimals <= 18
    }
}

/// `key_index` points at the first entry keyed by `a`: everything before it
/// has a different key, and if it is in range it is a match.
pub proof fn lemma_key_index<T>(s: Seq<(String, T)>, a: Seq<char>)
    ensures
        0 <= key_index(s, a) <= s.len(),
        key_index(s, a) < s.len() ==> s[key_index(s, a)].0@ == a,
        forall|j: int| 0 <= j < key_index(s, a) ==> s[j].0@ != a,
    decreases s.len(),
{
    if s.len() > 0 && s[0].0@ != a {
        lemma_key_index(s.drop_first(), a);
        assert forall|j: int| 0 <= j < key_index(s, a) implies s[j].0@ != a by {
            if j > 0 {
                assert(s.drop_first()[j - 1].0@ != a);
            }
        }
    }
}

/// With unique keys, any entry keyed by `a` is the one `key_index` finds.
pub proof fn lemma_key_index_unique<T>(s: Seq<(String, T)>, a: Seq<char>, i: int)
    requires
        unique_keys(s),
        0 <= i < s.len(),
        s[i].0@ == a,
    ensures
        key_index(s, a) == i,
{
    lemma_key_index(s, a);
    if key_index(s, a) < i {
        assert(s[key_index(s, a)].0@ != s[i].0@);
    }
}

/// Two association lists with the same keys in the same order have the same
/// `key_index` for every key.
pub proof fn lemma_key_index_same_keys<T, U>(s1: Seq<(String, T)>, s2: Seq<(String, U)>, a: Seq<char>)
    requires
        s1.len() == s2.len(),
        forall|i: int| 0 <= i < s1.len() ==> s1[i].0@ == s2[i].0@,
    ensures
        key_index(s1, a) == key_index(s2, a),
    decreases s1.len(),
{
    if s1.len() > 0 {
        assert(s1[0].0@ == s2[0].0@);
        if s1[0].0@ != a {
            assert(forall|i: int|
                0 <= i < s1.drop_first().len() ==> s1.drop_first()[i].0@ == s2.drop_first()[i].0@);
            lemma_key_index_same_keys(s1.drop_first(), s2.drop_first(), a);
        }
    }
}

/// Where `key_index` lands after appending one entry: an existing first
/// match is unaffected; otherwise the appended entry is found exactly when
/// its key matches.
pub proof fn lemma_key_index_push<T>(s: Seq<(String, T)>, e: (String, T), a: Seq<char>)
    ensures
        key_index(s.push(e), a) == if key_index(s, a) < s.len() {
            key_index(s, a)
        } else if e.0@ == a {
            s.len() as int
        } else {
            s.len() + 1 as int
        },
    decreases s.len(),
{
    lemma_key_index(s, a);
    if s.len() == 0 {
        assert(s.push(e)[0] == e);
        if e.0@ != a {
            assert(s.push(e).drop_first() =~= Seq::<(String, T)>::empty());
            assert(key_index(Seq::<(String, T)>::empty(), a) == 0);
        }
    } else {
        assert(s.push(e)[0] == s[0]);
        if s[0].0@ != a {
            assert(s.push(e).drop_first() =~= s.drop_first().push(e));
            lemma_key_index_push(s.drop_first(), e, a);
        }
    }
}

/// The recorded balance of any address is at most the sum of all balances.
pub proof fn lemma_bal_of_le_sum(s: Seq<(String, u128)>, a: Seq<char>)
    ensures
        bal_of(s, a) <= sum_bal(s),
{
    lemma_key_index(s, a);
    if has_key(s, a) {
        lemma_elem_le_sum_bal(s, key_index(s, a));
    } else {
        lemma_sum_bal_nonneg(s);
    }
}

/// Balance sums are non-negative.
pub proof fn lemma_sum_bal_nonneg(s: Seq<(String, u128)>)
    ensures
        sum_bal(s) >= 0,
    decreases s.len(),
{
    if s.len() > 0 {
        lemma_sum_bal_nonneg(s.drop_first());
    }
}

/// Each recorded balance is at most the sum of all of them.
pub proof fn lemma_elem_le_sum_bal(s: Seq<(String, u128)>, i: int)
    requires
        0 <= i < s.len(),
    ensures
        s[i].1 <= sum_bal(s),
    decreases s.len(),
{
    if i == 0 {
        lemma_sum_bal_nonneg(s.drop_first());
    } else {
        lemma_elem_le_sum_bal(s.drop_first(), i - 1);
    }
}

/// Replacing one entry changes the sum by the difference of the amounts.
pub proof fn lemma_sum_bal_update(s: Seq<(String, u128)>, i: int, e: (String, u128))
    requires
        0 <= i < s.len(),
    ensures
        sum_bal(s.update(i, e)) == sum_bal(s) - s[i].1 + e.1,
    decreases s.len(),
{
    if i == 0 {
        assert(s.update(0, e).drop_first() =~= s.drop_first());
    } else {
        assert(s.update(i, e).drop_first() =~= s.drop_first().update(i - 1, e));
        lemma_sum_bal_update(s.drop_first(), i - 1, e);
    }
}

/// Appending an entry adds its amount to the sum.
pub proof fn lemma_sum_bal_push(s: Seq<(String, u128)>, e: (String, u128))
    ensures
        sum_bal(s.push(e)) == sum_bal(s) + e.1,
    decreases s.len(),
{
    reveal_with_fuel(sum_bal, 2);
    assert(s.push(e)[0] == if s.len() == 0 { e } else { s[0] });
    if s.len() == 0 {
        assert(s.push(e).drop_first() =~= Seq::<(String, u128)>::empty());
        assert(sum_bal(s.push(e)) == e.1 + sum_bal(Seq::<(String, u128)>::empty()));
    } else {
        assert(s.push(e).drop_first() =~= s.drop_first().push(e));
        lemma_sum_bal_push(s.drop_first(), e);
    }
}

/// Locked sums are non-negative.
pub proof fn lemma_sum_locked_nonneg(s: Seq<(String, ReleaseSchedule)>)
    ensures
        sum_locked(s) >= 0,
    decreases s.len(),
{
    if s.len() > 0 {
        lemma_sum_locked_nonneg(s.drop_first());
    }
}

/// Each schedule's locked amount is at most the sum of all of them.
pub proof fn lemma_elem_le_sum_locked(s: Seq<(String, ReleaseSchedule)>, i: int)
    requires
        0 <= i < s.len(),
    ensures
        s[i].1.amount <= sum_locked(s),
    decreases s.len(),
{
    if i == 0 {
        lemma_sum_locked_nonneg(s.drop_first());
    } else {
        lemma_elem_le_sum_locked(s.drop_first(), i - 1);
    }
}

/// Replacing one schedule changes the locked sum by the difference of the
/// locked amounts.
pub proof fn lemma_sum_locked_update(s: Seq<(String, ReleaseSchedule)>, i: int, e: (String, ReleaseSchedule))
    requires
        0 <= i < s.len(),
    ensures
        sum_locked(s.update(i, e)) == sum_locked(s) - s[i].1.amount + e.1.amount,
    decreases s.len(),
{
    if i == 0 {
        assert(s.update(0, e).drop_first() =~= s.drop_first());
    } else {
        assert(s.update(i, e).drop_first() =~= s.drop_first().update(i - 1, e));
        lemma_sum_locked_update(s.drop_first(), i - 1, e);
    }
}

/// Entry sums are non-negative.
pub proof fn lemma_sum_entries_nonneg(es: Seq<(u64, u128)>)
    ensures
        sum_entries(es) >= 0,
    decreases es.len(),
{
    if es.len() > 0 {
        lemma_sum_entries_nonneg(es.drop_first());
    }
}

/// The entry sum splits at any cut point into the sum of the prefix and the
/// sum of the suffix.
pub proof fn lemma_sum_entries_split(es: Seq<(u64, u128)>, k: int)
    requires
        0 <= k <= es.len(),
    ensures
        sum_entries(es) == sum_entries(es.take(k)) + sum_entries(es.skip(k)),
    decreases k,
{
    if k == 0 {
        assert(es.take(0) =~= Seq::<(u64, u128)>::empty());
        assert(es.skip(0) =~= es);
    } else {
        assert(es.take(k).drop_first() =~= es.drop_first().take(k - 1));
        assert(es.skip(k) =~= es.drop_first().skip(k - 1));
        assert(sum_entries(es.take(k)) == es[0].1 + sum_entries(es.drop_first().take(k - 1)));
        lemma_sum_entries_split(es.drop_first(), k - 1);
    }
}

} // verus!
