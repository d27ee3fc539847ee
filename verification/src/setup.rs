//! Creating the first account.

use vstd::prelude::*;
use vstd::string::*;

use crate::account::{any_account, has_any_account};
use crate::cookie::{
    cookie_gives_back_token, cookie_safe, cookie_token, session_cookie, session_cookie_text,
};
use crate::password::{hash_outcome, hash_password, password_fits, text_or_status};
use crate::reply::{cookie_reply, reply_of, Reply, ReplyBodyView, ReplyView, Status};
use crate::request::SetupRequest;
use crate::session::{
    elapsed, is_uuid, new_session_token, open_session, session_user, with_session,
};
use crate::state::{same_but_for_sessions, WebState, WebStateView};
use crate::store::{NewUser, NewUserView};
use crate::text::{trim, trimmed, trimming_finds_the_core, whitespace};

verus! {

/// A name and a password for the first account.
#[derive(Debug)]
pub struct FirstAccount {
    pub username: String,
    pub password: String,
}

/// The contents of a [`FirstAccount`].
pub struct FirstAccountView {
    pub username: Seq<char>,
    pub password: Seq<char>,
}

impl View for FirstAccount {
    type V = FirstAccountView;

    open spec fn view(&self) -> FirstAccountView {
        FirstAccountView { username: self.username@, password: self.password@ }
    }
}

/// Setup is open as long as the server wants passwords and has no account. It
/// takes a name that is not blank and a password that is not empty.
pub open spec fn setup_step(
    state: WebStateView,
    username: Seq<char>,
    password: Seq<char>,
) -> Result<FirstAccountView, Status> {
    if state.password_disabled || any_account(state) {
        Err(Status::Forbidden)
    } else if trimmed(username).len() == 0 || password.len() == 0 {
        Err(Status::BadRequest)
    } else {
        Ok(FirstAccountView { username: trimmed(username), password })
    }
}

/// Begins the setup.
pub fn setup(state: &WebState, body: SetupRequest) -> (res: Result<FirstAccount, Status>)
    ensures
        setup_step(state@, body.username@, body.password@) == (match res {
            Ok(account) => Ok::<FirstAccountView, Status>(account@),
            Err(status) => Err(status),
        }),
        res matches Ok(account) ==> account.username@ == trimmed(body.username@)
            && account.password@ == body.password@,
{
    if state.password_disabled {
        return Err(Status::Forbidden);
    }
    if has_any_account(state) {
        return Err(Status::Forbidden);
    }
    let username: &str = trim(body.username.as_str());
    if username.is_empty() || body.password.as_str().is_empty() {
        return Err(Status::BadRequest);
    }
    Ok(FirstAccount { username: username.to_string(), password: body.password })
}

/// The row of a new account, with the hash of its password.
pub open spec fn row_for(
    username: Seq<char>,
    is_admin: bool,
    hashed: Result<Seq<char>, Status>,
) -> Result<NewUserView, Status> {
    match hashed {
        Ok(password_hash) => Ok(NewUserView { username, password_hash, is_admin }),
        Err(status) => Err(status),
    }
}

/// The view of a row or of the status that stands in its place.
pub open spec fn row_of(res: Result<NewUser, Status>) -> Result<NewUserView, Status> {
    match res {
        Ok(user) => Ok(user@),
        Err(status) => Err(status),
    }
}

/// The row of a new account once its password was hashed.
pub fn new_user(username: String, is_admin: bool, hashed: Result<String, Status>) -> (res: Result<
    NewUser,
    Status,
>)
    ensures
        row_of(res) == row_for(username@, is_admin, text_or_status(hashed)),
{
    match hashed {
        Ok(password_hash) => Ok(NewUser { username, password_hash, is_admin }),
        Err(status) => Err(status),
    }
}

/// Goes on with the setup: hashes the password. The first account is an admin.
pub fn first_user(account: FirstAccount) -> (res: Result<NewUser, Status>)
    ensures
        exists|hashed: Result<Seq<char>, Status>| #[trigger]
            hash_outcome(account.password@, hashed) && row_of(res) == row_for(
                account.username@,
                true,
                hashed,
            ),
        res matches Ok(user) ==> user.username@ == account.username@ && user.is_admin
            && password_fits(account.password@, user.password_hash@),
{
    let hashed: Result<String, Status> = hash_password(account.password.as_str());
    let ghost outcome = text_or_status(hashed);
    assert(hash_outcome(account.password@, outcome));
    new_user(account.username, true, hashed)
}

/// The state after the first account was created: it is known that there is
/// one, and it is signed in.
pub open spec fn after_setup(
    state: WebStateView,
    username: Seq<char>,
    token: Seq<char>,
    now: u128,
) -> WebStateView {
    with_session(WebStateView { has_db_users: true, ..state }, token, username, now)
}

/// The status with which the setup is refused after it tried to create the
/// account; another setup may have come first.
pub open spec fn creation_refused(created: Result<Option<i64>, String>) -> Option<Status> {
    match created {
        Err(_) => Some(Status::InternalServerError),
        Ok(None) => Some(Status::Forbidden),
        Ok(Some(_)) => None,
    }
}

/// The answer to a setup, from what the users table said.
pub open spec fn setup_reply(
    state: WebStateView,
    created: Result<Option<i64>, String>,
    token: Seq<char>,
) -> Result<ReplyView, Status> {
    match creation_refused(created) {
        Some(status) => Err(status),
        None => Ok(cookie_reply(session_cookie_text(state, token))),
    }
}

/// The state after a setup: only one that the users table accepted changes it.
pub open spec fn after_creation(
    state: WebStateView,
    username: Seq<char>,
    created: Result<Option<i64>, String>,
    token: Seq<char>,
    now: u128,
) -> WebStateView {
    match creation_refused(created) {
        Some(_) => state,
        None => after_setup(state, username, token, now),
    }
}

/// Ends the setup after the users table was asked to create the account if it
/// is still empty. The new account is signed in under the given token.
pub fn setup_created_with_token(
    state: &mut WebState,
    username: String,
    created: Result<Option<i64>, String>,
    token: String,
    now: u128,
) -> (res: Result<Reply, Status>)
    requires
        old(state).wf(),
    ensures
        final(state).wf(),
        reply_of(res) == setup_reply(old(state)@, created, token@),
        final(state)@ == after_creation(old(state)@, username@, created, token@, now),
{
    match created {
        Err(_) => Err(Status::InternalServerError),
        Ok(None) => Err(Status::Forbidden),
        Ok(Some(_)) => {
            state.has_db_users = true;
            let cookie: String = session_cookie(state, token.as_str());
            open_session(state, token, username, now);
            Ok(Reply::with_cookie(cookie))
        },
    }
}

/// Ends the setup after the users table was asked to create the account if it
/// is still empty. The new account is signed in under a random token.
pub fn setup_created(
    state: &mut WebState,
    username: String,
    created: Result<Option<i64>, String>,
    now: u128,
) -> (res: Result<Reply, Status>)
    requires
        old(state).wf(),
    ensures
        final(state).wf(),
        exists|token: Seq<char>|
            {
                &&& is_uuid(token)
                &&& reply_of(res) == setup_reply(old(state)@, created, token)
                &&& final(state)@ == #[trigger] after_creation(
                    old(state)@,
                    username@,
                    created,
                    token,
                    now,
                )
            },
{
    let token: String = new_session_token();
    let ghost text = token@;
    assert(is_uuid(text));
    setup_created_with_token(state, username, created, token, now)
}

/// Setup works once: after it created an account, every further one is
/// forbidden.
pub proof fn setup_works_once(
    state: WebStateView,
    username: Seq<char>,
    token: Seq<char>,
    now: u128,
    other: Seq<char>,
    password: Seq<char>,
)
    ensures
        setup_step(after_setup(state, username, token, now), other, password) == Err::<
            FirstAccountView,
            Status,
        >(Status::Forbidden),
{
}

/// A setup that came through the first step: what was asked for, what the users
/// table said, and the session that was at hand.
pub struct SetupRun {
    pub username: Seq<char>,
    pub password: Seq<char>,
    pub created: Result<Option<i64>, String>,
    pub token: Seq<char>,
    pub now: u128,
}

/// The state after setups that end one after another.
pub open spec fn after_setups(state: WebStateView, runs: Seq<SetupRun>) -> WebStateView
    decreases runs.len(),
{
    if runs.len() == 0 {
        state
    } else {
        let run = runs.last();
        after_creation(
            after_setups(state, runs.drop_last()),
            trimmed(run.username),
            run.created,
            run.token,
            run.now,
        )
    }
}

/// The answer to one of several setups that end one after another.
pub open spec fn setup_run_reply(state: WebStateView, runs: Seq<SetupRun>, i: int) -> Result<
    ReplyView,
    Status,
> {
    setup_reply(after_setups(state, runs.take(i)), runs[i].created, runs[i].token)
}

/// Of several setups that all came through the first step before any of them
/// ended, and of which the users table accepted one, that one is answered with
/// its session, and every other is forbidden. What is left behind is what the
/// accepted one alone would have left.
pub proof fn one_of_several_setups_wins(
    state: WebStateView,
    runs: Seq<SetupRun>,
    accepted: int,
)
    requires
        0 <= accepted < runs.len(),
        forall|i: int|
            0 <= i < runs.len() ==> setup_step(
                state,
                (#[trigger] runs[i]).username,
                runs[i].password,
            ) is Ok,
        runs[accepted].created matches Ok(Some(_)),
        forall|i: int|
            0 <= i < runs.len() && i != accepted ==> (#[trigger] runs[i]).created == Ok::<
                Option<i64>,
                String,
            >(None),
    ensures
        forall|i: int|
            0 <= i < runs.len() ==> #[trigger] setup_run_reply(state, runs, i) == (if i
                == accepted {
                Ok(cookie_reply(session_cookie_text(state, runs[i].token)))
            } else {
                Err(Status::Forbidden)
            }),
        after_setups(state, runs) == after_setup(
            state,
            trimmed(runs[accepted].username),
            runs[accepted].token,
            runs[accepted].now,
        ),
{
    assert forall|i: int| 0 <= i < runs.len() implies #[trigger] setup_run_reply(state, runs, i)
        == (if i == accepted {
        Ok::<ReplyView, Status>(cookie_reply(session_cookie_text(state, runs[i].token)))
    } else {
        Err(Status::Forbidden)
    }) by {
        lemma_setups(state, runs, accepted, i);
    }
    lemma_setups(state, runs, accepted, runs.len() as int);
    assert(runs.take(runs.len() as int) =~= runs);
}

/// The state after the first of several setups, of which one is accepted.
proof fn lemma_setups(state: WebStateView, runs: Seq<SetupRun>, accepted: int, n: int)
    requires
        0 <= accepted < runs.len(),
        0 <= n <= runs.len(),
        runs[accepted].created matches Ok(Some(_)),
        forall|i: int|
            0 <= i < runs.len() && i != accepted ==> (#[trigger] runs[i]).created == Ok::<
                Option<i64>,
                String,
            >(None),
    ensures
        after_setups(state, runs.take(n)) == (if n <= accepted {
            state
        } else {
            after_setup(
                state,
                trimmed(runs[accepted].username),
                runs[accepted].token,
                runs[accepted].now,
            )
        }),
    decreases n,
{
    if n > 0 {
        lemma_setups(state, runs, accepted, n - 1);
        assert(runs.take(n).drop_last() =~= runs.take(n - 1));
        assert(runs.take(n).last() == runs[n - 1]);
    }
}

/// How many rows an empty users table holds after its first `n` answers.
pub open spec fn rows_created(created: Seq<Result<Option<i64>, String>>, n: int) -> nat
    decreases n,
{
    if n <= 0 {
        0
    } else if created[n - 1] matches Ok(Some(_)) {
        rows_created(created, n - 1) + 1
    } else {
        rows_created(created, n - 1)
    }
}

/// A users table that creates a row only as long as it is empty accepts one of
/// several setups, the first that it comes to, and holds one row in the end.
pub proof fn empty_table_accepts_one(created: Seq<Result<Option<i64>, String>>)
    requires
        created.len() > 0,
        forall|i: int|
            0 <= i < created.len() ==> if rows_created(created, i) == 0 {
                #[trigger] created[i] matches Ok(Some(_))
            } else {
                created[i] == Ok::<Option<i64>, String>(None)
            },
    ensures
        created[0] matches Ok(Some(_)),
        forall|i: int|
            0 < i < created.len() ==> #[trigger] created[i] == Ok::<Option<i64>, String>(None),
        rows_created(created, created.len() as int) == 1,
{
    assert(rows_created(created, 0) == 0);
    assert(created[0] matches Ok(Some(_)));
    assert forall|i: int| 0 < i < created.len() implies #[trigger] created[i] == Ok::<
        Option<i64>,
        String,
    >(None) by {
        lemma_one_row(created, i);
    }
    lemma_one_row(created, created.len() as int);
}

proof fn lemma_one_row(created: Seq<Result<Option<i64>, String>>, n: int)
    requires
        0 < n <= created.len(),
        forall|i: int|
            0 <= i < created.len() ==> if rows_created(created, i) == 0 {
                #[trigger] created[i] matches Ok(Some(_))
            } else {
                created[i] == Ok::<Option<i64>, String>(None)
            },
    ensures
        rows_created(created, n) == 1,
    decreases n,
{
    reveal_with_fuel(rows_created, 2);
    assert(rows_created(created, n - 1) == 0 ==> (created[n - 1] matches Ok(Some(_))));
    if n > 1 {
        lemma_one_row(created, n - 1);
    }
}

/// The new account is signed in: the session is live for as long as it may be
/// idle, and the client that sends back its cookie is taken for the user.
pub proof fn setup_signs_in(
    state: WebStateView,
    username: Seq<char>,
    token: Seq<char>,
    now: u128,
    t: u128,
)
    requires
        cookie_safe(token),
        state.session_idle_timeout is Some ==> elapsed(now, t)
            <= state.session_idle_timeout->Some_0,
    ensures
        cookie_token("dbx_session="@ + token) == Some(token),
        cookie_token(session_cookie_text(state, token)) == Some(token),
        session_user(after_setup(state, username, token, now), token, t) == Some(username),
{
    cookie_gives_back_token(state, token);
}

/// Setup is forbidden on a server that wants no passwords, and on one that has an
/// account, whatever is asked for.
pub proof fn setup_is_for_servers_without_accounts(
    state: WebStateView,
    username: Seq<char>,
    password: Seq<char>,
)
    requires
        state.password_disabled || state.bootstrap_users.len() > 0 || state.has_db_users,
    ensures
        setup_step(state, username, password) == Err::<FirstAccountView, Status>(
            Status::Forbidden,
        ),
{
}

/// Where setup is open, it goes on exactly with a name that is not blank and a
/// password that is not empty, and takes that name without the whitespace around
/// it and that very password.
pub proof fn setup_takes_the_name_and_password_given(
    state: WebStateView,
    before: Seq<char>,
    name: Seq<char>,
    after: Seq<char>,
    password: Seq<char>,
)
    requires
        !state.password_disabled,
        state.bootstrap_users.len() == 0,
        !state.has_db_users,
        forall|i: int| 0 <= i < before.len() ==> whitespace(#[trigger] before[i]),
        forall|i: int| 0 <= i < after.len() ==> whitespace(#[trigger] after[i]),
        name.len() > 0 ==> !whitespace(name[0]) && !whitespace(name.last()),
        name.len() == 0 ==> before.len() == 0,
    ensures
        name.len() > 0 && password.len() > 0 ==> (setup_step(
            state,
            before + name + after,
            password,
        ) matches Ok(account) && account.username == name && account.password == password),
        name.len() == 0 || password.len() == 0 ==> setup_step(
            state,
            before + name + after,
            password,
        ) == Err::<FirstAccountView, Status>(Status::BadRequest),
{
    trimming_finds_the_core(before, name, after);
}

/// The row that a setup writes is that of an admin of the given name, and the
/// given password fits it.
pub proof fn first_account_can_log_in(
    state: WebStateView,
    username: Seq<char>,
    password: Seq<char>,
    hashed: Result<Seq<char>, Status>,
)
    requires
        setup_step(state, username, password) is Ok,
        hash_outcome(setup_step(state, username, password)->Ok_0.password, hashed),
    ensures
        hashed matches Err(status) ==> row_for(
            setup_step(state, username, password)->Ok_0.username,
            true,
            hashed,
        ) == Err::<NewUserView, Status>(status) && status == Status::InternalServerError,
        hashed is Ok ==> (row_for(
            setup_step(state, username, password)->Ok_0.username,
            true,
            hashed,
        ) matches Ok(row) && {
            &&& row.username == trimmed(username)
            &&& row.is_admin
            &&& password_fits(password, row.password_hash)
        }),
        password.len() <= 1_073_741_823 ==> hashed is Ok,
{
}

/// A new row has the name, the rights and the hash that it is made from; without
/// a hash there is no row, but the status that stands in its place.
pub proof fn row_is_made_from_its_parts(
    username: Seq<char>,
    is_admin: bool,
    hashed: Result<Seq<char>, Status>,
)
    ensures
        hashed matches Ok(hash) ==> (row_for(username, is_admin, hashed) matches Ok(row) && {
            &&& row.username == username
            &&& row.is_admin == is_admin
            &&& row.password_hash == hash
        }),
        hashed matches Err(status) ==> row_for(username, is_admin, hashed) == Err::<
            NewUserView,
            Status,
        >(status),
{
}

/// The end of a setup, from what the users table said: a failure is an internal
/// error and a table that is no longer empty forbids it, and neither changes
/// anything. A new row signs its account in, and from then on there is an account.
pub proof fn setup_ends_as_the_table_says(
    state: WebStateView,
    username: Seq<char>,
    created: Result<Option<i64>, String>,
    token: Seq<char>,
    now: u128,
    other: Seq<char>,
)
    ensures
        created is Err ==> setup_reply(state, created, token) == Err::<ReplyView, Status>(
            Status::InternalServerError,
        ) && after_creation(state, username, created, token, now) == state,
        created matches Ok(None) ==> setup_reply(state, created, token) == Err::<
            ReplyView,
            Status,
        >(Status::Forbidden) && after_creation(state, username, created, token, now) == state,
        created matches Ok(Some(_)) ==> {
            let after = after_creation(state, username, created, token, now);
            &&& setup_reply(state, created, token) matches Ok(reply) && {
                &&& reply.status == Status::Success
                &&& reply.set_cookie == Some(session_cookie_text(state, token))
                &&& reply.body == ReplyBodyView::Acknowledged
            }
            &&& after.has_db_users
            &&& after.sessions.contains_key(token)
            &&& after.sessions[token].username == username
            &&& after.sessions[token].last_active == now
            &&& after.cleared_owners == state.cleared_owners
            &&& other != token ==> after.sessions.contains_key(other)
                == state.sessions.contains_key(other)
            &&& other != token && state.sessions.contains_key(other) ==> after.sessions[other]
                == state.sessions[other]
            &&& same_but_for_sessions(after, WebStateView { has_db_users: true, ..state })
        },
{
}

/// The first account, and a row or the status in its place, are seen as they are.
pub proof fn first_accounts_are_seen_as_they_are(
    account: FirstAccount,
    user: NewUser,
    status: Status,
)
    ensures
        account@.username == account.username@,
        account@.password == account.password@,
        row_of(Ok(user)) == Ok::<NewUserView, Status>(user@),
        row_of(Err(status)) == Err::<NewUserView, Status>(status),
{
}

} // verus!
