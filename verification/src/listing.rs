//! The list of all accounts.

use vstd::prelude::*;
use vstd::string::*;

use crate::account::AdminSession;
use crate::reply::Status;
use crate::request::{UserSummary, UserSummaryView};
use crate::state::{
    distinct_names, BootstrapUser, BootstrapUserView, WebState, WebStateView,
};
use crate::store::{records, ListedUsers, UserRecord, UserRecordView};
use crate::text::{
    ascii_lowercase, at_most, lowercase, text_le, text_le_total, text_le_transitive, to_lowercase,
};

verus! {

/// How an account in the users table is listed.
pub open spec fn stored_summary(user: UserRecordView) -> UserSummaryView {
    UserSummaryView {
        id: Some(user.id),
        username: user.username,
        created_at: Some(user.created_at),
        managed_by_env: false,
        is_admin: user.is_admin,
    }
}

/// How an account of the host is listed.
pub open spec fn env_summary(user: BootstrapUserView) -> UserSummaryView {
    UserSummaryView {
        id: None,
        username: user.username,
        created_at: None,
        managed_by_env: true,
        is_admin: true,
    }
}

/// All accounts: those in the users table, then those of the host.
pub open spec fn all_accounts(
    state: WebStateView,
    stored: Seq<UserRecordView>,
) -> Seq<UserSummaryView> {
    let rows = stored.map_values(|user: UserRecordView| stored_summary(user));
    let hosts = state.bootstrap_users.map_values(|user: BootstrapUserView| env_summary(user));
    rows + hosts
}

/// The contents of a list of accounts.
pub open spec fn summaries(users: Seq<UserSummary>) -> Seq<UserSummaryView> {
    users.map_values(|user: UserSummary| user@)
}

/// By what accounts are sorted: the name in lower case.
pub open spec fn sort_key(user: UserSummaryView) -> Seq<char> {
    lowercase(user.username)
}

/// The sort key of a name made of ASCII characters is that name with its capitals
/// in lower case.
pub open spec fn ascii_keys(users: Seq<UserSummaryView>) -> bool {
    forall|i: int|
        0 <= i < users.len() && vstd::utf8::is_ascii_chars((#[trigger] users[i]).username)
            ==> sort_key(users[i]) == ascii_lowercase(users[i].username)
}

/// The accounts with this sort key, in the order of the list.
pub open spec fn with_key(users: Seq<UserSummaryView>, key: Seq<char>) -> Seq<UserSummaryView> {
    users.filter(|user: UserSummaryView| sort_key(user) == key)
}

/// No account comes before one with a smaller sort key.
pub open spec fn sorted(users: Seq<UserSummaryView>) -> bool {
    forall|i: int, j: int|
        0 <= i <= j < users.len() ==> text_le(
            sort_key(#[trigger] users[i]),
            sort_key(#[trigger] users[j]),
        )
}

/// `after` is `before`, sorted; accounts with the same sort key keep their
/// order.
pub open spec fn stably_sorted(
    before: Seq<UserSummaryView>,
    after: Seq<UserSummaryView>,
) -> bool {
    &&& sorted(after)
    &&& forall|key: Seq<char>| #[trigger] with_key(after, key) == with_key(before, key)
    &&& after.to_multiset() == before.to_multiset()
}

proof fn lemma_text_le_reflexive(a: Seq<char>)
    ensures
        text_le(a, a),
{
    text_le_total(a, a);
}

/// What inserting an account behind those that are not greater does to a sorted
/// list.
proof fn lemma_insert_sorted(
    before: Seq<UserSummaryView>,
    users: Seq<UserSummaryView>,
    at: int,
    user: UserSummaryView,
)
    requires
        stably_sorted(before, users),
        0 <= at <= users.len(),
        at > 0 ==> text_le(sort_key(users[at - 1]), sort_key(user)),
        forall|j: int|
            at <= j < users.len() ==> !text_le(sort_key(#[trigger] users[j]), sort_key(user)),
    ensures
        stably_sorted(before.push(user), users.insert(at, user)),
{
    let after = users.insert(at, user);
    let head = users.take(at);
    let tail = users.skip(at);
    assert(after =~= head + seq![user] + tail);
    assert(users =~= head + tail);
    assert forall|i: int, j: int| 0 <= i <= j < after.len() implies text_le(
        sort_key(#[trigger] after[i]),
        sort_key(#[trigger] after[j]),
    ) by {
        assert(i < at ==> after[i] == users[i]);
        assert(i > at ==> after[i] == users[i - 1]);
        assert(j < at ==> after[j] == users[j]);
        assert(j > at ==> after[j] == users[j - 1]);
        lemma_text_le_reflexive(sort_key(user));
        if i < at && j == at {
            assert(text_le(sort_key(users[i]), sort_key(users[at - 1])));
            text_le_transitive(sort_key(users[i]), sort_key(users[at - 1]), sort_key(user));
        }
        if i == at && j > at {
            text_le_total(sort_key(users[j - 1]), sort_key(user));
        }
    }
    assert forall|key: Seq<char>| #[trigger] with_key(after, key) == with_key(
        before.push(user),
        key,
    ) by {
        let same = |u: UserSummaryView| sort_key(u) == key;
        Seq::filter_distributes_over_add(head + seq![user], tail, same);
        Seq::filter_distributes_over_add(head, seq![user], same);
        Seq::filter_distributes_over_add(head, tail, same);
        Seq::filter_distributes_over_add(before, seq![user], same);
        assert(before.push(user) =~= before + seq![user]);
        assert(with_key(users, key) == with_key(before, key));
        lemma_filter_one(user, same);
        if sort_key(user) == key {
            assert forall|i: int| 0 <= i < tail.len() implies !same(#[trigger] tail[i]) by {
                assert(tail[i] == users[at + i]);
                lemma_text_le_reflexive(key);
            }
            lemma_filter_none(tail, same);
        }
    }
    broadcast use vstd::seq_lib::group_to_multiset_ensures;

}

proof fn lemma_filter_one(user: UserSummaryView, pred: spec_fn(UserSummaryView) -> bool)
    ensures
        seq![user].filter(pred) == (if pred(user) {
            seq![user]
        } else {
            seq![]
        }),
{
    reveal(Seq::filter);
    let one = seq![user];
    assert(one.drop_last() =~= Seq::<UserSummaryView>::empty());
    assert(one.last() == user);
    assert(one.drop_last().filter(pred) =~= Seq::<UserSummaryView>::empty());
}

proof fn lemma_filter_none(
    users: Seq<UserSummaryView>,
    pred: spec_fn(UserSummaryView) -> bool,
)
    requires
        forall|i: int| 0 <= i < users.len() ==> !pred(#[trigger] users[i]),
    ensures
        users.filter(pred) == Seq::<UserSummaryView>::empty(),
    decreases users.len(),
{
    reveal(Seq::filter);
    if users.len() > 0 {
        lemma_filter_none(users.drop_last(), pred);
    }
}

/// Puts an account behind those that are not greater.
fn insert_sorted(
    users: &mut Vec<UserSummary>,
    keys: &mut Vec<String>,
    user: UserSummary,
    Ghost(before): Ghost<Seq<UserSummaryView>>,
)
    requires
        stably_sorted(before, summaries(old(users)@)),
        ascii_keys(summaries(old(users)@)),
        old(keys)@.len() == old(users)@.len(),
        forall|i: int|
            0 <= i < old(keys)@.len() ==> (#[trigger] old(keys)@[i])@ == sort_key(
                old(users)@[i]@,
            ),
    ensures
        stably_sorted(before.push(user@), summaries(final(users)@)),
        ascii_keys(summaries(final(users)@)),
        final(keys)@.len() == final(users)@.len(),
        forall|i: int|
            0 <= i < final(keys)@.len() ==> (#[trigger] final(keys)@[i])@ == sort_key(
                final(users)@[i]@,
            ),
{
    let key: String = to_lowercase(user.username.as_str());
    let ghost list = summaries(users@);
    let ghost added = user@;
    let mut at: usize = users.len();
    while at > 0 && !at_most(keys[at - 1].as_str(), key.as_str())
        invariant
            at <= users@.len(),
            keys@.len() == users@.len(),
            list == summaries(users@),
            key@ == sort_key(added),
            forall|i: int|
                0 <= i < keys@.len() ==> (#[trigger] keys@[i])@ == sort_key(users@[i]@),
            forall|j: int|
                at <= j < list.len() ==> !text_le(sort_key(#[trigger] list[j]), sort_key(added)),
        decreases at,
    {
        at = at - 1;
        assert(list[at as int] == users@[at as int]@);
    }
    proof {
        if at > 0 {
            assert(list[at - 1] == users@[at - 1]@);
        }
        lemma_insert_sorted(before, list, at as int, added);
    }
    users.insert(at, user);
    keys.insert(at, key);
    assert(summaries(users@) =~= list.insert(at as int, added));
}

/// Lists all accounts for an admin, sorted by name without regard to case.
pub fn list_users(_admin: &AdminSession, state: &WebState, listed: ListedUsers) -> (res: Result<
    Vec<UserSummary>,
    Status,
>)
    ensures
        match listed {
            Err(_) => res == Err::<Vec<UserSummary>, Status>(Status::InternalServerError),
            Ok(stored) => res matches Ok(users) && stably_sorted(
                all_accounts(state@, records(stored@)),
                summaries(users@),
            ) && ascii_keys(summaries(users@)),
        },
{
    let stored: Vec<UserRecord> = match listed {
        Ok(stored) => stored,
        Err(_) => {
            return Err(Status::InternalServerError);
        },
    };
    let mut users: Vec<UserSummary> = Vec::new();
    let mut keys: Vec<String> = Vec::new();
    let ghost rows = records(stored@).map_values(|user: UserRecordView| stored_summary(user));
    let ghost hosts = state@.bootstrap_users.map_values(
        |user: BootstrapUserView| env_summary(user),
    );
    let ghost accounts = all_accounts(state@, records(stored@));
    assert(accounts == rows + hosts);
    let mut i: usize = 0;
    assert(summaries(users@) =~= Seq::<UserSummaryView>::empty());
    assert(accounts.take(0) =~= Seq::<UserSummaryView>::empty());
    while i < stored.len()
        invariant
            i <= stored@.len(),
            accounts == rows + hosts,
            rows == records(stored@).map_values(|user: UserRecordView| stored_summary(user)),
            stably_sorted(accounts.take(i as int), summaries(users@)),
            ascii_keys(summaries(users@)),
            keys@.len() == users@.len(),
            forall|j: int|
                0 <= j < keys@.len() ==> (#[trigger] keys@[j])@ == sort_key(users@[j]@),
        decreases stored.len() - i,
    {
        let row: &UserRecord = &stored[i];
        let user = UserSummary {
            id: Some(row.id),
            username: row.username.clone(),
            created_at: Some(row.created_at),
            managed_by_env: false,
            is_admin: row.is_admin,
        };
        assert(records(stored@)[i as int] == stored@[i as int]@);
        assert(accounts[i as int] == user@);
        assert(accounts.take(i + 1) =~= accounts.take(i as int).push(user@));
        insert_sorted(&mut users, &mut keys, user, Ghost(accounts.take(i as int)));
        i = i + 1;
    }
    let mut k: usize = 0;
    while k < state.bootstrap_users.len()
        invariant
            k <= state.bootstrap_users@.len(),
            accounts == rows + hosts,
            rows.len() == stored@.len(),
            hosts == state@.bootstrap_users.map_values(
                |user: BootstrapUserView| env_summary(user),
            ),
            stably_sorted(accounts.take(stored@.len() + k), summaries(users@)),
            ascii_keys(summaries(users@)),
            keys@.len() == users@.len(),
            forall|j: int|
                0 <= j < keys@.len() ==> (#[trigger] keys@[j])@ == sort_key(users@[j]@),
        decreases state.bootstrap_users.len() - k,
    {
        let host: &BootstrapUser = &state.bootstrap_users[k];
        let user = UserSummary {
            id: None,
            username: host.username.clone(),
            created_at: None,
            managed_by_env: true,
            is_admin: true,
        };
        let ghost at = stored@.len() + k;
        assert(state@.bootstrap_users[k as int] == state.bootstrap_users@[k as int]@);
        assert(accounts[at] == user@);
        assert(accounts.take(at + 1) =~= accounts.take(at).push(user@));
        insert_sorted(&mut users, &mut keys, user, Ghost(accounts.take(at)));
        k = k + 1;
    }
    assert(accounts.take(stored@.len() + k) =~= accounts);
    Ok(users)
}

/// There is only one way to sort a list stably: what is listed, and in what
/// order, follows from the accounts alone.
pub proof fn stable_sort_is_unique(
    before: Seq<UserSummaryView>,
    a: Seq<UserSummaryView>,
    b: Seq<UserSummaryView>,
)
    requires
        stably_sorted(before, a),
        stably_sorted(before, b),
    ensures
        a == b,
{
    assert forall|key: Seq<char>| #[trigger] with_key(a, key) == with_key(b, key) by {
        assert(with_key(a, key) == with_key(before, key));
        assert(with_key(b, key) == with_key(before, key));
    }
    lemma_same_sorted(a, b);
}

proof fn lemma_same_sorted(a: Seq<UserSummaryView>, b: Seq<UserSummaryView>)
    requires
        sorted(a),
        sorted(b),
        forall|key: Seq<char>| #[trigger] with_key(a, key) == with_key(b, key),
    ensures
        a == b,
    decreases a.len(),
{
    if a.len() == 0 {
        if b.len() > 0 {
            lemma_with_key_first(b);
            assert(with_key(a, sort_key(b[0])) == with_key(b, sort_key(b[0])));
            reveal(Seq::filter);
        }
    } else {
        let x = a[0];
        let y = b[0];
        lemma_with_key_first(a);
        assert(with_key(a, sort_key(x)) == with_key(b, sort_key(x)));
        lemma_with_key_member(b, sort_key(x));
        lemma_with_key_first(b);
        assert(with_key(a, sort_key(y)) == with_key(b, sort_key(y)));
        lemma_with_key_member(a, sort_key(y));
        lemma_text_le_antisymmetric(sort_key(x), sort_key(y));
        assert(x == y);
        assert forall|key: Seq<char>| #[trigger] with_key(a.drop_first(), key) == with_key(
            b.drop_first(),
            key,
        ) by {
            lemma_with_key_rest(a, key);
            lemma_with_key_rest(b, key);
            assert(with_key(a, key) == with_key(b, key));
        }
        lemma_same_sorted(a.drop_first(), b.drop_first());
        assert(a =~= seq![x] + a.drop_first());
        assert(b =~= seq![y] + b.drop_first());
    }
}

/// The first account of a list comes first among those with its key.
proof fn lemma_with_key_first(users: Seq<UserSummaryView>)
    requires
        users.len() > 0,
    ensures
        with_key(users, sort_key(users[0])).len() > 0,
        with_key(users, sort_key(users[0]))[0] == users[0],
{
    lemma_with_key_split(users, sort_key(users[0]));
}

/// What the first account adds to those with a given key.
proof fn lemma_with_key_split(users: Seq<UserSummaryView>, key: Seq<char>)
    requires
        users.len() > 0,
    ensures
        with_key(users, key) == (if sort_key(users[0]) == key {
            seq![users[0]]
        } else {
            seq![]
        }) + with_key(users.drop_first(), key),
{
    let same = |u: UserSummaryView| sort_key(u) == key;
    assert(users =~= seq![users[0]] + users.drop_first());
    Seq::filter_distributes_over_add(seq![users[0]], users.drop_first(), same);
    lemma_filter_one(users[0], same);
}

/// Those with a given key are the same without the first account, or one fewer
/// at the front.
proof fn lemma_with_key_rest(users: Seq<UserSummaryView>, key: Seq<char>)
    requires
        users.len() > 0,
    ensures
        with_key(users.drop_first(), key) == (if sort_key(users[0]) == key {
            with_key(users, key).drop_first()
        } else {
            with_key(users, key)
        }),
{
    lemma_with_key_split(users, key);
    assert((seq![users[0]] + with_key(users.drop_first(), key)).drop_first() =~= with_key(
        users.drop_first(),
        key,
    ));
    assert(Seq::<UserSummaryView>::empty() + with_key(users.drop_first(), key) =~= with_key(
        users.drop_first(),
        key,
    ));
}

/// In a sorted list that holds the key, the first account has no greater one.
proof fn lemma_with_key_member(users: Seq<UserSummaryView>, key: Seq<char>)
    requires
        sorted(users),
        with_key(users, key).len() > 0,
    ensures
        users.len() > 0,
        text_le(sort_key(users[0]), key),
{
    let same = |u: UserSummaryView| sort_key(u) == key;
    users.lemma_filter_pred(same, 0);
    let u = with_key(users, key)[0];
    assert(with_key(users, key).contains(u));
    users.lemma_filter_contains_rev(same, u);
    let i = users.index_of(u);
    assert(users[i] == u);
    assert(text_le(sort_key(users[0]), sort_key(users[i])));
}

proof fn lemma_text_le_antisymmetric(a: Seq<char>, b: Seq<char>)
    requires
        text_le(a, b),
        text_le(b, a),
    ensures
        a == b,
    decreases a.len(),
{
    if a.len() > 0 {
        lemma_text_le_antisymmetric(a.drop_first(), b.drop_first());
        assert(a =~= seq![a[0]] + a.drop_first());
        assert(b =~= seq![b[0]] + b.drop_first());
    }
}

/// Every account is listed once, and nothing else is.
pub proof fn every_account_is_listed(
    state: WebStateView,
    stored: Seq<UserRecordView>,
    users: Seq<UserSummaryView>,
)
    requires
        stably_sorted(all_accounts(state, stored), users),
    ensures
        users.len() == stored.len() + state.bootstrap_users.len(),
        forall|i: int|
            0 <= i < stored.len() ==> users.contains(stored_summary(#[trigger] stored[i])),
        forall|i: int|
            0 <= i < state.bootstrap_users.len() ==> users.contains(
                env_summary(#[trigger] state.bootstrap_users[i]),
            ),
{
    broadcast use vstd::seq_lib::group_to_multiset_ensures;

    let accounts = all_accounts(state, stored);
    assert(users.len() == users.to_multiset().len());
    assert(accounts.len() == accounts.to_multiset().len());
    assert forall|i: int| 0 <= i < stored.len() implies users.contains(
        stored_summary(#[trigger] stored[i]),
    ) by {
        assert(accounts[i] == stored_summary(stored[i]));
        assert(accounts.contains(accounts[i]));
        assert(users.to_multiset().count(accounts[i]) > 0);
    }
    assert forall|i: int| 0 <= i < state.bootstrap_users.len() implies users.contains(
        env_summary(#[trigger] state.bootstrap_users[i]),
    ) by {
        assert(accounts[stored.len() + i] == env_summary(state.bootstrap_users[i]));
        assert(accounts.contains(accounts[stored.len() + i]));
        assert(users.to_multiset().count(accounts[stored.len() + i]) > 0);
    }
}

/// Every account of the host is listed exactly once.
pub proof fn each_host_is_listed_once(
    state: WebStateView,
    stored: Seq<UserRecordView>,
    users: Seq<UserSummaryView>,
    i: int,
)
    requires
        distinct_names(state.bootstrap_users),
        stably_sorted(all_accounts(state, stored), users),
        0 <= i < state.bootstrap_users.len(),
    ensures
        users.to_multiset().count(env_summary(state.bootstrap_users[i])) == 1,
{
    broadcast use vstd::seq_lib::group_to_multiset_ensures;

    let rows = stored.map_values(|user: UserRecordView| stored_summary(user));
    let hosts = state.bootstrap_users.map_values(|user: BootstrapUserView| env_summary(user));
    let host = env_summary(state.bootstrap_users[i]);
    assert(hosts[i] == host);
    assert forall|a: int, b: int| 0 <= a < hosts.len() && 0 <= b < hosts.len() && a
        != b implies hosts[a] != hosts[b] by {
        assert(hosts[a].username == state.bootstrap_users[a].username);
        assert(hosts[b].username == state.bootstrap_users[b].username);
    }
    hosts.lemma_multiset_has_no_duplicates();
    assert(hosts.contains(host));
    assert(hosts.to_multiset().contains(host));
    assert(!rows.contains(host));
    vstd::seq_lib::lemma_multiset_commutative(rows, hosts);
}

/// The list is made from every row, as an account that can be managed and with its
/// id, date and rights, and from every account of the host, as an admin that
/// cannot; and from nothing else.
pub proof fn accounts_are_listed_as_they_are(
    state: WebStateView,
    stored: Seq<UserRecordView>,
    i: int,
)
    ensures
        all_accounts(state, stored).len() == stored.len() + state.bootstrap_users.len(),
        0 <= i < stored.len() ==> {
            let user = all_accounts(state, stored)[i];
            &&& user.id == Some(stored[i].id)
            &&& user.username == stored[i].username
            &&& user.created_at == Some(stored[i].created_at)
            &&& !user.managed_by_env
            &&& user.is_admin == stored[i].is_admin
        },
        0 <= i < state.bootstrap_users.len() ==> {
            let user = all_accounts(state, stored)[stored.len() + i];
            &&& user.id is None
            &&& user.username == state.bootstrap_users[i].username
            &&& user.created_at is None
            &&& user.managed_by_env
            &&& user.is_admin
        },
{
}

/// A sorted list holds what it held before, as often as before, in the order of
/// the names in lower case; accounts whose names agree in lower case stay in
/// their order.
pub proof fn sorting_rearranges_by_lowercase_name(
    before: Seq<UserSummaryView>,
    after: Seq<UserSummaryView>,
    i: int,
    j: int,
    key: Seq<char>,
)
    requires
        stably_sorted(before, after),
    ensures
        after.to_multiset() == before.to_multiset(),
        0 <= i <= j < after.len() ==> text_le(
            lowercase(after[i].username),
            lowercase(after[j].username),
        ),
        after.filter(|u: UserSummaryView| lowercase(u.username) == key) == before.filter(
            |u: UserSummaryView| lowercase(u.username) == key,
        ),
{
    let plain = |u: UserSummaryView| lowercase(u.username) == key;
    let keyed = |u: UserSummaryView| sort_key(u) == key;
    assert(with_key(after, key) == with_key(before, key));
    assert(plain =~= keyed);
    if 0 <= i <= j < after.len() {
        assert(text_le(sort_key(after[i]), sort_key(after[j])));
    }
}

/// The accounts of a list are seen one by one as they are.
pub proof fn listed_accounts_are_seen_one_by_one(users: Seq<UserSummary>, i: int)
    requires
        0 <= i < users.len(),
    ensures
        summaries(users).len() == users.len(),
        summaries(users)[i].id == users[i].id,
        summaries(users)[i].username == users[i].username@,
        summaries(users)[i].created_at == users[i].created_at,
        summaries(users)[i].managed_by_env == users[i].managed_by_env,
        summaries(users)[i].is_admin == users[i].is_admin,
{
}

} // verus!
