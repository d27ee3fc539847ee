//! The limit on failed logins, counted for each account on its own.

use vstd::prelude::*;
use vstd::string::*;

use crate::state::{
    counts_below_limit, LoginRateLimit, WebState, WebStateView, LOCKOUT_SECS, MAX_ATTEMPTS,
    MAX_TRACKED, NANOS_PER_SEC,
};
use crate::table::Table;
use crate::text::{ascii_lowercase, to_ascii_lowercase};

verus! {

/// Is the account locked at `now`?
pub open spec fn locked(limit: LoginRateLimit, now: u128) -> bool {
    limit.locked_until is Some && limit.locked_until->Some_0 > now
}

/// For how many whole seconds the account is still locked, if it is.
pub open spec fn seconds_left(
    limits: Map<Seq<char>, LoginRateLimit>,
    key: Seq<char>,
    now: u128,
) -> Option<nat> {
    if limits.contains_key(key) && locked(limits[key], now) {
        Some(((limits[key].locked_until->Some_0 - now) / NANOS_PER_SEC as int) as nat)
    } else {
        None
    }
}

/// The entry still matters at `now`: the account is locked, or failed logins have
/// been counted.
pub open spec fn in_use(limit: LoginRateLimit, now: u128) -> bool {
    locked(limit, now) || limit.fail_count > 0
}

/// The entries that still matter at `now`.
pub open spec fn entries_in_use(
    limits: Map<Seq<char>, LoginRateLimit>,
    now: u128,
) -> Map<Seq<char>, LoginRateLimit> {
    limits.restrict(
        Set::new(|key: Seq<char>| limits.contains_key(key) && in_use(limits[key], now)),
    )
}

/// The instant at which a lock set at `now` ends.
pub open spec fn lock_end(now: u128) -> int {
    now + LOCKOUT_SECS * NANOS_PER_SEC
}

/// One more failed login on top of `limit`. The one that reaches the limit
/// locks the account and starts the count anew.
pub open spec fn one_more_failure(limit: LoginRateLimit, now: u128) -> LoginRateLimit {
    if limit.fail_count + 1 >= MAX_ATTEMPTS {
        LoginRateLimit { fail_count: 0, locked_until: Some(lock_end(now) as u128) }
    } else {
        LoginRateLimit { fail_count: (limit.fail_count + 1) as u32, ..limit }
    }
}

/// The entries that stay when a failed login of the account is noted: all of
/// them, unless the account is new and the table is full. Those leave then that
/// are neither locked nor counting.
pub open spec fn entries_kept(
    limits: Map<Seq<char>, LoginRateLimit>,
    key: Seq<char>,
    now: u128,
) -> Map<Seq<char>, LoginRateLimit> {
    if !limits.contains_key(key) && limits.len() >= MAX_TRACKED {
        entries_in_use(limits, now)
    } else {
        limits
    }
}

/// The entry of an account; that of one without failed logins if it has none.
pub open spec fn entry_of(
    limits: Map<Seq<char>, LoginRateLimit>,
    key: Seq<char>,
) -> LoginRateLimit {
    if limits.contains_key(key) {
        limits[key]
    } else {
        LoginRateLimit { fail_count: 0, locked_until: None }
    }
}

/// The entries after a failed login of the account.
pub open spec fn after_failure(
    limits: Map<Seq<char>, LoginRateLimit>,
    key: Seq<char>,
    now: u128,
) -> Map<Seq<char>, LoginRateLimit> {
    entries_kept(limits, key, now).insert(key, one_more_failure(entry_of(limits, key), now))
}

/// The name under which the failed logins of an account are counted. Accounts
/// match in any casing of ASCII letters, so each of them has one such name.
pub fn login_limit_key(username: &str) -> (res: String)
    ensures
        res@ == ascii_lowercase(username@),
{
    to_ascii_lowercase(username)
}

/// Makes the entries leave that do not matter any more at `now`.
fn retain_in_use(limits: &mut Table<LoginRateLimit>, now: u128)
    requires
        old(limits).wf(),
    ensures
        final(limits).wf(),
        final(limits)@ == entries_in_use(old(limits)@, now),
{
    let ghost before = limits@;
    let mut i: usize = limits.len();
    while i > 0
        invariant
            limits.wf(),
            i <= limits.keys().len(),
            forall|key: Seq<char>|
                #![trigger limits@.contains_key(key)]
                #![trigger before.contains_key(key)]
                limits@.contains_key(key) ==> before.contains_key(key) && limits@[key]
                    == before[key],
            forall|key: Seq<char>| #[trigger]
                before.contains_key(key) && in_use(before[key], now) ==> limits@.contains_key(key),
            forall|j: int|
                i <= j < limits.keys().len() ==> in_use(before[#[trigger] limits.keys()[j]], now),
        decreases i,
    {
        i = i - 1;
        let limit: LoginRateLimit = *limits.value_at(i);
        let keep: bool = limit.fail_count > 0 || match limit.locked_until {
            Some(locked_until) => locked_until > now,
            None => false,
        };
        let ghost keys = limits.keys();
        let ghost key = keys[i as int];
        assert(before.contains_key(key) && limit == before[key]);
        if !keep {
            limits.remove_at(i);
            assert forall|j: int| i <= j < limits.keys().len() implies in_use(
                before[#[trigger] limits.keys()[j]],
                now,
            ) by {
                if j == i {
                    assert(limits.keys()[j] == keys[keys.len() - 1]);
                } else {
                    assert(limits.keys()[j] == keys[j]);
                }
            }
        }
    }
    proof {
        limits.lemma_keys();
        assert forall|key: Seq<char>| #[trigger] limits@.contains_key(key) implies in_use(
            before[key],
            now,
        ) by {
            let j = limits.keys().index_of(key);
            assert(limits.keys()[j] == key);
        }
        assert(limits@ =~= entries_in_use(before, now));
    }
}

/// For how many whole seconds logins to the account are still refused, if they
/// are.
pub fn login_locked_for(state: &WebState, username: &str, now: u128) -> (res: Option<u128>)
    requires
        state.wf(),
    ensures
        seconds_left(state@.login_rate_limit, ascii_lowercase(username@), now) == (match res {
            Some(seconds) => Some(seconds as nat),
            None => None,
        }),
{
    let key: String = login_limit_key(username);
    match state.login_rate_limit.get(key.as_str()) {
        Some(limit) => match limit.locked_until {
            Some(locked_until) => if locked_until > now {
                Some((locked_until - now) / NANOS_PER_SEC)
            } else {
                None
            },
            None => None,
        },
        None => None,
    }
}

/// Notes a failed login of the account.
pub fn note_login_failure(state: &mut WebState, username: &str, now: u128)
    requires
        old(state).wf(),
        lock_end(now) <= u128::MAX,
    ensures
        final(state).wf(),
        final(state)@ == (WebStateView {
            login_rate_limit: after_failure(
                old(state)@.login_rate_limit,
                ascii_lowercase(username@),
                now,
            ),
            ..old(state)@
        }),
{
    let key: String = login_limit_key(username);
    let known: bool = state.login_rate_limit.contains_key(key.as_str());
    if !known && state.login_rate_limit.len() >= MAX_TRACKED {
        retain_in_use(&mut state.login_rate_limit, now);
    }
    let limit: LoginRateLimit = match state.login_rate_limit.get(key.as_str()) {
        Some(limit) => *limit,
        None => LoginRateLimit { fail_count: 0, locked_until: None },
    };
    assert(limit == entry_of(old(state)@.login_rate_limit, key@));
    let fail_count: u32 = limit.fail_count + 1;
    let next: LoginRateLimit = if fail_count >= MAX_ATTEMPTS {
        LoginRateLimit {
            fail_count: 0,
            locked_until: Some(now + LOCKOUT_SECS * NANOS_PER_SEC),
        }
    } else {
        LoginRateLimit { fail_count, locked_until: limit.locked_until }
    };
    state.login_rate_limit.insert(key, next);
}

/// Forgets the failed logins of the account.
pub fn clear_login_failures(state: &mut WebState, username: &str)
    requires
        old(state).wf(),
    ensures
        final(state).wf(),
        final(state)@ == (WebStateView {
            login_rate_limit: old(state)@.login_rate_limit.remove(ascii_lowercase(username@)),
            ..old(state)@
        }),
{
    let key: String = login_limit_key(username);
    state.login_rate_limit.remove(key.as_str());
}

/// The entries after failed logins of the account at the given times.
pub open spec fn after_failures(
    limits: Map<Seq<char>, LoginRateLimit>,
    key: Seq<char>,
    times: Seq<u128>,
) -> Map<Seq<char>, LoginRateLimit>
    decreases times.len(),
{
    if times.len() == 0 {
        limits
    } else {
        after_failure(after_failures(limits, key, times.drop_last()), key, times.last())
    }
}

/// Fewer failed logins than the limit lock nobody: they are only counted.
pub proof fn few_failures_do_not_lock(
    limits: Map<Seq<char>, LoginRateLimit>,
    key: Seq<char>,
    times: Seq<u128>,
)
    requires
        entry_of(limits, key).fail_count + times.len() < MAX_ATTEMPTS,
    ensures
        entry_of(after_failures(limits, key, times), key).fail_count == entry_of(
            limits,
            key,
        ).fail_count + times.len(),
        entry_of(after_failures(limits, key, times), key).locked_until == entry_of(
            limits,
            key,
        ).locked_until,
        forall|t: u128| #[trigger]
            seconds_left(after_failures(limits, key, times), key, t) == seconds_left(
                limits,
                key,
                t,
            ),
    decreases times.len(),
{
    if times.len() > 0 {
        few_failures_do_not_lock(limits, key, times.drop_last());
    }
}

/// As many failed logins in a row as the limit allows lock the account for the
/// whole lockout time after the last of them, and for no longer.
pub proof fn enough_failures_lock(
    limits: Map<Seq<char>, LoginRateLimit>,
    key: Seq<char>,
    times: Seq<u128>,
    t: u128,
)
    requires
        times.len() > 0,
        entry_of(limits, key).fail_count + times.len() == MAX_ATTEMPTS,
        lock_end(times.last()) <= u128::MAX,
    ensures
        after_failures(limits, key, times)[key].fail_count == 0,
        seconds_left(after_failures(limits, key, times), key, t) is Some <==> t < lock_end(
            times.last(),
        ),
        times.last() <= t < lock_end(times.last()) ==> seconds_left(
            after_failures(limits, key, times),
            key,
            t,
        )->Some_0 <= LOCKOUT_SECS,
{
    few_failures_do_not_lock(limits, key, times.drop_last());
}

/// A failed login never locks or unlocks another account.
pub proof fn failure_spares_other_accounts(
    limits: Map<Seq<char>, LoginRateLimit>,
    key: Seq<char>,
    now: u128,
    other: Seq<char>,
    t: u128,
)
    requires
        other != key,
        now <= t,
    ensures
        seconds_left(after_failure(limits, key, now), other, t) == seconds_left(limits, other, t),
{
}

/// A failed login never changes the count of another account.
pub proof fn failure_never_counts_for_others(
    limits: Map<Seq<char>, LoginRateLimit>,
    key: Seq<char>,
    now: u128,
    other: Seq<char>,
)
    requires
        other != key,
    ensures
        entry_of(after_failure(limits, key, now), other).fail_count == entry_of(
            limits,
            other,
        ).fail_count,
{
}

/// No count ever reaches the limit: the failure that would make it do so starts
/// it anew.
pub proof fn counts_stay_below_limit(
    limits: Map<Seq<char>, LoginRateLimit>,
    key: Seq<char>,
    now: u128,
)
    requires
        counts_below_limit(limits),
    ensures
        counts_below_limit(after_failure(limits, key, now)),
        counts_below_limit(limits.remove(key)),
{
}

/// An entry leaves only where a new account comes to a full table, and only if
/// it is neither locked nor counting; there, all of those leave.
pub proof fn only_settled_entries_leave(
    limits: Map<Seq<char>, LoginRateLimit>,
    key: Seq<char>,
    now: u128,
    other: Seq<char>,
)
    requires
        limits.contains_key(other),
        other != key,
    ensures
        after_failure(limits, key, now).contains_key(other) <==> limits.contains_key(key)
            || limits.len() < MAX_TRACKED || locked(limits[other], now)
            || limits[other].fail_count > 0,
        after_failure(limits, key, now).contains_key(other) ==> after_failure(
            limits,
            key,
            now,
        )[other] == limits[other],
{
}

/// How many accounts are tracked after a failed login: a known one adds nothing,
/// and a new one is added to those whose entries stay.
pub proof fn tracked_accounts_are_counted(
    limits: Map<Seq<char>, LoginRateLimit>,
    key: Seq<char>,
    now: u128,
)
    requires
        limits.dom().finite(),
    ensures
        after_failure(limits, key, now).dom().finite(),
        limits.contains_key(key) ==> after_failure(limits, key, now).len() == limits.len(),
        !limits.contains_key(key) && limits.len() < MAX_TRACKED ==> after_failure(
            limits,
            key,
            now,
        ).len() == limits.len() + 1,
        !limits.contains_key(key) && limits.len() >= MAX_TRACKED ==> after_failure(
            limits,
            key,
            now,
        ).len() == entries_in_use(limits, now).len() + 1,
{
    let kept = entries_kept(limits, key, now);
    assert(kept.dom().subset_of(limits.dom()));
    vstd::set_lib::lemma_len_subset(kept.dom(), limits.dom());
    let after = after_failure(limits, key, now);
    assert(after.dom() =~= kept.dom().insert(key));
}

/// Forgetting the failed logins of an account unlocks it, and leaves the others
/// as they are.
pub proof fn cleared_account_is_unlocked(
    limits: Map<Seq<char>, LoginRateLimit>,
    key: Seq<char>,
    other: Seq<char>,
    t: u128,
)
    ensures
        seconds_left(limits.remove(key), key, t) is None,
        entry_of(limits.remove(key), key).fail_count == 0,
        other != key ==> seconds_left(limits.remove(key), other, t) == seconds_left(
            limits,
            other,
            t,
        ),
{
}

/// An account is locked until the instant in its entry, for as many whole seconds
/// as are left till then; without an entry, or without such an instant, it is
/// not.
pub proof fn account_is_locked_until_its_instant(
    limits: Map<Seq<char>, LoginRateLimit>,
    key: Seq<char>,
    now: u128,
)
    ensures
        !limits.contains_key(key) ==> seconds_left(limits, key, now) is None,
        limits.contains_key(key) && limits[key].locked_until is None ==> seconds_left(
            limits,
            key,
            now,
        ) is None,
        limits.contains_key(key) ==> (limits[key].locked_until matches Some(until) ==> if now
            < until {
            &&& seconds_left(limits, key, now) matches Some(seconds) && {
                &&& seconds * 1_000_000_000 <= until - now
                &&& until - now < (seconds + 1) * 1_000_000_000
            }
        } else {
            seconds_left(limits, key, now) is None
        }),
{
}

/// A failed login counts one for its account; the fifth in a row starts the count
/// anew and locks the account for a minute.
pub proof fn failure_counts_one_or_locks(
    limits: Map<Seq<char>, LoginRateLimit>,
    key: Seq<char>,
    now: u128,
)
    requires
        counts_below_limit(limits),
        now + 60_000_000_000 <= u128::MAX,
    ensures
        after_failure(limits, key, now).contains_key(key),
        !limits.contains_key(key) ==> after_failure(limits, key, now)[key].fail_count == 1
            && after_failure(limits, key, now)[key].locked_until is None,
        limits.contains_key(key) && limits[key].fail_count < 4 ==> {
            &&& after_failure(limits, key, now)[key].fail_count == limits[key].fail_count + 1
            &&& after_failure(limits, key, now)[key].locked_until == limits[key].locked_until
        },
        limits.contains_key(key) && limits[key].fail_count == 4 ==> {
            &&& after_failure(limits, key, now)[key].fail_count == 0
            &&& after_failure(limits, key, now)[key].locked_until matches Some(until) && until
                == now + 60_000_000_000
        },
        limits.contains_key(key) ==> limits[key].fail_count <= 4,
{
}

/// A failed login leaves the entry of every other account as it is. Only where a
/// new account comes to a table of 4096 entries or more do others leave, and then
/// exactly those without a lock to come and without a count.
pub proof fn failure_leaves_other_entries(
    limits: Map<Seq<char>, LoginRateLimit>,
    key: Seq<char>,
    now: u128,
    other: Seq<char>,
)
    requires
        other != key,
    ensures
        after_failure(limits, key, now).contains_key(other) ==> limits.contains_key(other)
            && after_failure(limits, key, now)[other] == limits[other],
        limits.contains_key(other) ==> (after_failure(limits, key, now).contains_key(other)
            <==> limits.contains_key(key) || limits.len() < 4096 || limits[other].fail_count > 0
            || (limits[other].locked_until matches Some(until) && until > now)),
{
}

} // verus!
