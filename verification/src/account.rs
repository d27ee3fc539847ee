//! Accounts: those that the host provides and those in the users table.

use axum::http::HeaderMap;
use vstd::prelude::*;
use vstd::string::*;

use crate::cookie::request_token;
use crate::reply::Status;
use crate::session::{after_request, request_user, session_username};
use crate::state::{BootstrapUserView, WebState, WebStateView};
use crate::store::{LoadedUser, UserRecordView};
use crate::text::{
    eq_ignore_ascii_case, owned_text_of, same_ignoring_case, text_of, trim, trimmed, trimmed_end,
    trimmed_start, trimming_finds_the_core, whitespace,
};

verus! {

/// The account that is meant where no name is given.
pub const DEFAULT_USERNAME: &'static str = "admin";

/// The name without the whitespace around it, if anything is left of it.
pub open spec fn given_name(username: Option<Seq<char>>) -> Option<Seq<char>> {
    match username {
        Some(name) => if trimmed(name).len() > 0 {
            Some(trimmed(name))
        } else {
            None
        },
        None => None,
    }
}

/// The account name that is meant: the given one, or the default.
pub open spec fn normalized(username: Option<Seq<char>>) -> Seq<char> {
    match given_name(username) {
        Some(name) => name,
        None => DEFAULT_USERNAME@,
    }
}

/// The account name that is meant: the given one without the whitespace around
/// it, or "admin" where nothing is left of it.
pub fn normalize_username(username: Option<&str>) -> (res: String)
    ensures
        res@ == normalized(text_of(username)),
{
    if let Some(name) = username {
        let name: &str = trim(name);
        if !name.is_empty() {
            return name.to_string();
        }
    }
    DEFAULT_USERNAME.to_string()
}

/// There is an account at all, of the host or in the users table.
pub open spec fn any_account(state: WebStateView) -> bool {
    state.bootstrap_users.len() > 0 || state.has_db_users
}

/// Is there an account at all, of the host or in the users table?
pub fn has_any_account(state: &WebState) -> (res: bool)
    ensures
        res == any_account(state@),
{
    state.bootstrap_users.len() > 0 || state.has_db_users
}

/// One of these accounts bears the name, in any casing.
pub open spec fn named_among(users: Seq<BootstrapUserView>, username: Seq<char>) -> bool {
    exists|i: int|
        0 <= i < users.len() && same_ignoring_case(#[trigger] users[i].username, username)
}

/// The host provides an account of this name, in any casing.
pub open spec fn env_account(state: WebStateView, username: Seq<char>) -> bool {
    named_among(state.bootstrap_users, username)
}

/// Where the first account of this name stands among those of the host.
fn env_position(state: &WebState, username: &str) -> (res: Option<usize>)
    ensures
        match res {
            Some(at) => at < state.bootstrap_users.len() && same_ignoring_case(
                state@.bootstrap_users[at as int].username,
                username@,
            ) && forall|i: int|
                0 <= i < at ==> !same_ignoring_case(
                    #[trigger] state@.bootstrap_users[i].username,
                    username@,
                ),
            None => !env_account(state@, username@),
        },
{
    let mut at: usize = 0;
    while at < state.bootstrap_users.len()
        invariant
            at <= state.bootstrap_users.len(),
            forall|i: int|
                0 <= i < at ==> !same_ignoring_case(
                    #[trigger] state@.bootstrap_users[i].username,
                    username@,
                ),
        decreases state.bootstrap_users.len() - at,
    {
        if eq_ignore_ascii_case(state.bootstrap_users[at].username.as_str(), username) {
            return Some(at);
        }
        at = at + 1;
    }
    None
}

/// Does the host provide an account of this name, in any casing?
pub fn is_env_account(state: &WebState, username: &str) -> (res: bool)
    ensures
        res == env_account(state@, username@),
{
    match env_position(state, username) {
        Some(at) => {
            assert(same_ignoring_case(state@.bootstrap_users[at as int].username, username@));
            true
        },
        None => false,
    }
}

/// The first of these accounts that bears the name, in any casing.
pub open spec fn first_named(users: Seq<BootstrapUserView>, username: Seq<char>) -> Option<
    BootstrapUserView,
>
    decreases users.len(),
{
    if users.len() == 0 {
        None
    } else if same_ignoring_case(users[0].username, username) {
        Some(users[0])
    } else {
        first_named(users.drop_first(), username)
    }
}

proof fn lemma_first_named(users: Seq<BootstrapUserView>, username: Seq<char>, at: int)
    requires
        0 <= at <= users.len(),
        forall|i: int|
            0 <= i < at ==> !same_ignoring_case(#[trigger] users[i].username, username),
        at < users.len() ==> same_ignoring_case(users[at].username, username),
    ensures
        first_named(users, username) == (if at < users.len() {
            Some(users[at])
        } else {
            None
        }),
    decreases at,
{
    if at > 0 {
        let rest = users.drop_first();
        assert forall|i: int| 0 <= i < at - 1 implies !same_ignoring_case(
            #[trigger] rest[i].username,
            username,
        ) by {
            assert(rest[i] == users[i + 1]);
        }
        lemma_first_named(rest, username, at - 1);
    }
}

/// The account that was found in the users table. A failed lookup found none.
pub open spec fn found(loaded: LoadedUser) -> Option<UserRecordView> {
    match loaded {
        Ok(Some(user)) => Some(user@),
        _ => None,
    }
}

/// The password hash of an account. Those of the host win over those in the
/// users table.
pub open spec fn resolved_hash(
    state: WebStateView,
    username: Seq<char>,
    stored: Option<UserRecordView>,
) -> Option<Seq<char>> {
    match first_named(state.bootstrap_users, username) {
        Some(user) => Some(user.password_hash),
        None => match stored {
            Some(user) => Some(user.password_hash),
            None => None,
        },
    }
}

/// The password hash of an account that the host provides.
pub fn env_user_hash(state: &WebState, username: &str) -> (res: Option<String>)
    ensures
        owned_text_of(res) == resolved_hash(state@, username@, None),
        res is Some == env_account(state@, username@),
{
    match env_position(state, username) {
        Some(at) => {
            proof {
                lemma_first_named(state@.bootstrap_users, username@, at as int);
            }
            Some(state.bootstrap_users[at].password_hash.clone())
        },
        None => {
            proof {
                lemma_first_named(
                    state@.bootstrap_users,
                    username@,
                    state@.bootstrap_users.len() as int,
                );
            }
            None
        },
    }
}

/// The password hash of an account, given what the users table holds under its
/// name. Accounts of the host win.
pub fn resolve_user_hash(state: &WebState, username: &str, loaded: LoadedUser) -> (res: Option<
    String,
>)
    ensures
        owned_text_of(res) == resolved_hash(state@, username@, found(loaded)),
        !env_account(state@, username@) ==> match loaded {
            Ok(Some(user)) => res matches Some(hash) && hash@ == user.password_hash@,
            _ => res is None,
        },
{
    if let Some(hash) = env_user_hash(state, username) {
        return Some(hash);
    }
    match loaded {
        Ok(Some(user)) => Some(user.password_hash),
        _ => None,
    }
}

/// Accounts of the host are admins; those in the users table are if they carry
/// the flag.
pub open spec fn admin(
    state: WebStateView,
    username: Seq<char>,
    stored: Option<UserRecordView>,
) -> bool {
    env_account(state, username) || (stored is Some && stored->Some_0.is_admin)
}

/// Is the account an admin, given what the users table holds under its name?
pub fn is_admin_username(state: &WebState, username: &str, loaded: &LoadedUser) -> (res: bool)
    ensures
        res == admin(state@, username@, found(*loaded)),
        !env_account(state@, username@) ==> res == (loaded matches Ok(Some(user))
            && user.is_admin),
{
    if is_env_account(state, username) {
        return true;
    }
    match loaded {
        Ok(Some(user)) => user.is_admin,
        _ => false,
    }
}

/// The right to manage accounts, held by a signed-in admin. Only
/// [`require_admin_session`] and [`admin_session_loaded`] grant it.
#[derive(Debug)]
pub struct AdminSession {
    username: String,
}

impl View for AdminSession {
    type V = Seq<char>;

    closed spec fn view(&self) -> Seq<char> {
        self.username@
    }
}

impl AdminSession {
    /// The admin's username, as typed at login.
    pub fn username(&self) -> (res: &str)
        ensures
            res@ == self@,
    {
        self.username.as_str()
    }
}

/// A signed-in user of whom it is still to be looked up whether they are an
/// admin.
#[derive(Debug)]
pub struct PendingAdmin {
    username: String,
}

impl View for PendingAdmin {
    type V = Seq<char>;

    closed spec fn view(&self) -> Seq<char> {
        self.username@
    }
}

impl PendingAdmin {
    /// The name to look up in the users table.
    pub fn username(&self) -> (res: &str)
        ensures
            res@ == self@,
    {
        self.username.as_str()
    }
}

/// How far a request got on the way to the management of accounts.
#[derive(Debug)]
pub enum AdminStep {
    /// It is answered with this status.
    Refused(Status),
    /// It comes from an admin.
    Granted(AdminSession),
    /// The user is to be looked up in the users table.
    Load(PendingAdmin),
}

/// The contents of an [`AdminStep`].
pub enum AdminStepView {
    Refused(Status),
    Granted(Seq<char>),
    Load(Seq<char>),
}

impl View for AdminStep {
    type V = AdminStepView;

    open spec fn view(&self) -> AdminStepView {
        match self {
            AdminStep::Refused(status) => AdminStepView::Refused(*status),
            AdminStep::Granted(session) => AdminStepView::Granted(session@),
            AdminStep::Load(pending) => AdminStepView::Load(pending@),
        }
    }
}

/// The first step towards the management of accounts: a request needs a
/// session, and the users table is asked about accounts that are not the
/// host's.
pub open spec fn admin_step(
    state: WebStateView,
    token: Option<Seq<char>>,
    now: u128,
) -> AdminStepView {
    match request_user(state, token, now) {
        None => AdminStepView::Refused(Status::Unauthorized),
        Some(username) => if env_account(state, username) {
            AdminStepView::Granted(username)
        } else {
            AdminStepView::Load(username)
        },
    }
}

/// The second step: the account must be an admin's.
pub open spec fn admin_loaded(
    state: WebStateView,
    username: Seq<char>,
    stored: Option<UserRecordView>,
) -> Result<Seq<char>, Status> {
    if admin(state, username, stored) {
        Ok(username)
    } else {
        Err(Status::Forbidden)
    }
}

/// Admits a request to the management of accounts if it carries the session of
/// an account of the host. For another signed-in user the users table is to be
/// asked, and [`admin_session_loaded`] goes on.
pub fn require_admin_session(state: &mut WebState, headers: &HeaderMap, now: u128) -> (res:
    AdminStep)
    requires
        old(state).wf(),
    ensures
        final(state).wf(),
        res@ == admin_step(old(state)@, request_token(*headers), now),
        final(state)@ == after_request(old(state)@, request_token(*headers), now),
{
    match session_username(state, headers, now) {
        None => AdminStep::Refused(Status::Unauthorized),
        Some(username) => if is_env_account(state, username.as_str()) {
            AdminStep::Granted(AdminSession { username })
        } else {
            AdminStep::Load(PendingAdmin { username })
        },
    }
}

/// Admits a signed-in user to the management of accounts if they are an admin,
/// after they were looked up in the users table.
pub fn admin_session_loaded(state: &WebState, pending: PendingAdmin, loaded: LoadedUser) -> (res:
    Result<AdminSession, Status>)
    ensures
        admin_loaded(state@, pending@, found(loaded)) == (match res {
            Ok(session) => Ok::<Seq<char>, Status>(session@),
            Err(status) => Err(status),
        }),
{
    if is_admin_username(state, pending.username.as_str(), &loaded) {
        Ok(AdminSession { username: pending.username })
    } else {
        Err(Status::Forbidden)
    }
}

/// Both steps together let exactly the signed-in admins through: without a live
/// session a request is unauthorized, and with that of anyone else forbidden.
pub proof fn management_requires_admin(
    state: WebStateView,
    token: Option<Seq<char>>,
    stored: Option<UserRecordView>,
    now: u128,
)
    ensures
        (match admin_step(state, token, now) {
            AdminStepView::Refused(status) => Err::<Seq<char>, Status>(status),
            AdminStepView::Granted(username) => Ok(username),
            AdminStepView::Load(username) => admin_loaded(state, username, stored),
        }) == (match request_user(state, token, now) {
            None => Err(Status::Unauthorized),
            Some(username) => if admin(state, username, stored) {
                Ok(username)
            } else {
                Err(Status::Forbidden)
            },
        }),
{
}

/// The password hash of an account of the host is the one that the host
/// provides, whatever the users table holds under its name.
pub proof fn env_account_wins(
    state: WebStateView,
    username: Seq<char>,
    stored: Option<UserRecordView>,
)
    requires
        env_account(state, username),
    ensures
        resolved_hash(state, username, stored) == resolved_hash(state, username, None),
        resolved_hash(state, username, stored) is Some,
        exists|i: int|
            0 <= i < state.bootstrap_users.len() && same_ignoring_case(
                (#[trigger] state.bootstrap_users[i]).username,
                username,
            ) && resolved_hash(state, username, stored) == Some(
                state.bootstrap_users[i].password_hash,
            ),
        admin(state, username, stored),
{
    lemma_first_named_found(state.bootstrap_users, username);
}

proof fn lemma_first_named_found(users: Seq<BootstrapUserView>, username: Seq<char>)
    requires
        named_among(users, username),
    ensures
        exists|i: int|
            0 <= i < users.len() && same_ignoring_case(
                (#[trigger] users[i]).username,
                username,
            ) && first_named(users, username) == Some(users[i]),
    decreases users.len(),
{
    let at = choose|i: int|
        0 <= i < users.len() && same_ignoring_case(#[trigger] users[i].username, username);
    if same_ignoring_case(users[0].username, username) {
        assert(first_named(users, username) == Some(users[0]));
    } else {
        let rest = users.drop_first();
        assert(rest[at - 1] == users[at]);
        assert(same_ignoring_case(rest[at - 1].username, username));
        lemma_first_named_found(rest, username);
        let i = choose|i: int|
            0 <= i < rest.len() && same_ignoring_case((#[trigger] rest[i]).username, username)
                && first_named(rest, username) == Some(rest[i]);
        assert(users[i + 1] == rest[i]);
    }
}

/// The casing of a name does not matter for accounts of the host.
pub proof fn env_account_ignores_case(state: WebStateView, a: Seq<char>, b: Seq<char>)
    requires
        same_ignoring_case(a, b),
    ensures
        env_account(state, a) == env_account(state, b),
        first_named(state.bootstrap_users, a) == first_named(state.bootstrap_users, b),
{
    lemma_first_named_ignores_case(state.bootstrap_users, a, b);
}

proof fn lemma_first_named_ignores_case(users: Seq<BootstrapUserView>, a: Seq<char>, b: Seq<char>)
    requires
        same_ignoring_case(a, b),
    ensures
        first_named(users, a) == first_named(users, b),
    decreases users.len(),
{
    if users.len() > 0 {
        lemma_first_named_ignores_case(users.drop_first(), a, b);
    }
}

/// The name that is meant is never empty, and settled: taking it once more
/// changes nothing.
pub proof fn normalized_name_is_settled(username: Option<Seq<char>>)
    ensures
        normalized(username).len() > 0,
        normalized(Some(normalized(username))) == normalized(username),
{
    reveal_strlit("admin");
    let name = normalized(username);
    if given_name(username) is Some {
        let start = trimmed_start(username->Some_0);
        lemma_trimmed_start_done(username->Some_0);
        lemma_trimmed_end_done(start);
    }
    assert(!whitespace(name[0]) && !whitespace(name.last()));
    assert(trimmed_start(name) == name);
    assert(trimmed_end(name) == name);
}

proof fn lemma_trimmed_start_done(s: Seq<char>)
    ensures
        trimmed_start(s).len() > 0 ==> !whitespace(trimmed_start(s)[0]),
    decreases s.len(),
{
    if s.len() > 0 && whitespace(s[0]) {
        lemma_trimmed_start_done(s.drop_first());
    }
}

proof fn lemma_trimmed_end_done(s: Seq<char>)
    ensures
        trimmed_end(s).len() > 0 ==> !whitespace(trimmed_end(s).last()) && trimmed_end(s)[0]
            == s[0],
    decreases s.len(),
{
    if s.len() > 0 && whitespace(s.last()) {
        lemma_trimmed_end_done(s.drop_last());
    }
}

/// The name that is meant is the given one without the whitespace around it.
pub proof fn given_name_is_meant(before: Seq<char>, name: Seq<char>, after: Seq<char>)
    requires
        forall|i: int| 0 <= i < before.len() ==> whitespace(#[trigger] before[i]),
        forall|i: int| 0 <= i < after.len() ==> whitespace(#[trigger] after[i]),
        name.len() > 0,
        !whitespace(name[0]),
        !whitespace(name.last()),
    ensures
        given_name(Some(before + name + after)) == Some(name),
        normalized(Some(before + name + after)) == name,
{
    trimming_finds_the_core(before, name, after);
}

/// A name that is left out or blank stands for "admin".
pub proof fn blank_name_stands_for_admin(blank: Seq<char>)
    requires
        forall|i: int| 0 <= i < blank.len() ==> whitespace(#[trigger] blank[i]),
    ensures
        given_name(None) is None,
        given_name(Some(blank)) is None,
        normalized(None) == "admin"@,
        normalized(Some(blank)) == "admin"@,
{
    let none = Seq::<char>::empty();
    trimming_finds_the_core(none, none, blank);
    assert(none + none + blank =~= blank);
}

/// There is an account if the host provides one or the users table holds one, and
/// only then.
pub proof fn accounts_are_of_the_host_or_stored(state: WebStateView)
    ensures
        state.bootstrap_users.len() > 0 ==> any_account(state),
        state.has_db_users ==> any_account(state),
        state.bootstrap_users.len() == 0 && !state.has_db_users ==> !any_account(state),
{
}

/// An account is the host's exactly if one of the host's accounts bears its name
/// up to the case of ASCII letters.
pub proof fn host_accounts_are_found_by_name(state: WebStateView, username: Seq<char>, i: int)
    ensures
        0 <= i < state.bootstrap_users.len() && same_ignoring_case(
            state.bootstrap_users[i].username,
            username,
        ) ==> env_account(state, username),
        (forall|j: int|
            0 <= j < state.bootstrap_users.len() ==> !same_ignoring_case(
                (#[trigger] state.bootstrap_users[j]).username,
                username,
            )) ==> !env_account(state, username),
{
}

/// A stored account has the hash of its row, whatever other accounts the host
/// provides, and without a row there is no hash.
pub proof fn stored_account_has_its_rows_hash(
    state: WebStateView,
    username: Seq<char>,
    stored: Option<UserRecordView>,
)
    requires
        forall|j: int|
            0 <= j < state.bootstrap_users.len() ==> !same_ignoring_case(
                (#[trigger] state.bootstrap_users[j]).username,
                username,
            ),
    ensures
        stored matches Some(user) ==> resolved_hash(state, username, stored) == Some(
            user.password_hash,
        ),
        stored is None ==> resolved_hash(state, username, stored) is None,
{
    lemma_first_named(state.bootstrap_users, username, state.bootstrap_users.len() as int);
}

/// An account of the host has the hash that the host gives it; of several whose
/// names differ in case alone, the first one counts.
pub proof fn first_host_account_of_a_name_counts(
    state: WebStateView,
    username: Seq<char>,
    stored: Option<UserRecordView>,
    i: int,
)
    requires
        0 <= i < state.bootstrap_users.len(),
        same_ignoring_case(state.bootstrap_users[i].username, username),
        forall|j: int|
            0 <= j < i ==> !same_ignoring_case(
                (#[trigger] state.bootstrap_users[j]).username,
                username,
            ),
    ensures
        resolved_hash(state, username, stored) == Some(state.bootstrap_users[i].password_hash),
{
    lemma_first_named(state.bootstrap_users, username, i);
}

/// Every account of the host is an admin.
pub proof fn host_accounts_are_admins(
    state: WebStateView,
    username: Seq<char>,
    stored: Option<UserRecordView>,
    i: int,
)
    requires
        0 <= i < state.bootstrap_users.len(),
        same_ignoring_case(state.bootstrap_users[i].username, username),
    ensures
        admin(state, username, stored),
{
}

/// A stored account is an admin exactly if its row says so, whatever other
/// accounts the host provides; without a row nobody is.
pub proof fn stored_account_is_admin_by_its_row(
    state: WebStateView,
    username: Seq<char>,
    stored: Option<UserRecordView>,
)
    requires
        forall|j: int|
            0 <= j < state.bootstrap_users.len() ==> !same_ignoring_case(
                (#[trigger] state.bootstrap_users[j]).username,
                username,
            ),
    ensures
        stored matches Some(user) ==> admin(state, username, stored) == user.is_admin,
        stored is None ==> !admin(state, username, stored),
{
}

/// A lookup is taken for what it says: the row that it found, or none if it found
/// none or failed.
pub proof fn lookup_is_taken_for_what_it_says(loaded: LoadedUser)
    ensures
        loaded matches Ok(Some(user)) ==> found(loaded) == Some(
            UserRecordView {
                id: user.id,
                username: user.username@,
                password_hash: user.password_hash@,
                is_admin: user.is_admin,
                created_at: user.created_at,
            },
        ),
        loaded matches Ok(None) ==> found(loaded) is None,
        loaded is Err ==> found(loaded) is None,
{
}

/// A request without a live session is unauthorized, whatever the users table
/// says.
pub proof fn management_needs_a_session(
    state: WebStateView,
    token: Option<Seq<char>>,
    now: u128,
)
    requires
        token is None || !state.sessions.contains_key(token->Some_0) || (
        state.session_idle_timeout matches Some(allowed) && now
            > state.sessions[token->Some_0].last_active + allowed),
    ensures
        admin_step(state, token, now) == AdminStepView::Refused(Status::Unauthorized),
{
}

/// The live session of an account of the host opens the management at once.
pub proof fn host_accounts_manage(
    state: WebStateView,
    token: Seq<char>,
    now: u128,
    i: int,
)
    requires
        state.sessions.contains_key(token),
        state.session_idle_timeout matches Some(allowed) ==> now
            <= state.sessions[token].last_active + allowed,
        0 <= i < state.bootstrap_users.len(),
        same_ignoring_case(
            state.bootstrap_users[i].username,
            state.sessions[token].username,
        ),
    ensures
        admin_step(state, Some(token), now) == AdminStepView::Granted(
            state.sessions[token].username,
        ),
{
}

/// The live session of a stored account opens the management exactly if its row
/// says that it is an admin, whatever other accounts the host provides. Anyone
/// else is forbidden.
pub proof fn stored_accounts_manage_by_their_row(
    state: WebStateView,
    token: Seq<char>,
    now: u128,
    stored: Option<UserRecordView>,
)
    requires
        state.sessions.contains_key(token),
        state.session_idle_timeout matches Some(allowed) ==> now
            <= state.sessions[token].last_active + allowed,
        forall|j: int|
            0 <= j < state.bootstrap_users.len() ==> !same_ignoring_case(
                (#[trigger] state.bootstrap_users[j]).username,
                state.sessions[token].username,
            ),
    ensures
        admin_step(state, Some(token), now) == AdminStepView::Load(
            state.sessions[token].username,
        ),
        (stored matches Some(user) && user.is_admin) ==> admin_loaded(
            state,
            state.sessions[token].username,
            stored,
        ) == Ok::<Seq<char>, Status>(state.sessions[token].username),
        !(stored matches Some(user) && user.is_admin) ==> admin_loaded(
            state,
            state.sessions[token].username,
            stored,
        ) == Err::<Seq<char>, Status>(Status::Forbidden),
{
}

/// A step towards the management is seen as the one it is.
pub proof fn admin_steps_are_seen_as_they_are(
    status: Status,
    session: AdminSession,
    pending: PendingAdmin,
)
    ensures
        AdminStep::Refused(status)@ == AdminStepView::Refused(status),
        AdminStep::Granted(session)@ == AdminStepView::Granted(session@),
        AdminStep::Load(pending)@ == AdminStepView::Load(pending@),
{
}

} // verus!
