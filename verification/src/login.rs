//! Signing in.

use vstd::prelude::*;
use vstd::string::*;

use crate::account::{
    any_account, env_user_hash, found, has_any_account, normalize_username, normalized,
    first_host_account_of_a_name_counts, resolve_user_hash, resolved_hash,
    stored_account_has_its_rows_hash,
};
use crate::cookie::{
    cookie_gives_back_token, cookie_safe, cookie_token, session_cookie, session_cookie_text,
};
use crate::limit::{
    after_failure, after_failures, clear_login_failures, enough_failures_lock, entry_of,
    failure_spares_other_accounts, few_failures_do_not_lock, in_use, lock_end, login_locked_for,
    note_login_failure, seconds_left,
};
use crate::password::{
    hash_outcome, hash_outline, is_password_hash, password_fits, verify_password,
    LONGEST_PASSWORD,
};
use crate::reply::{
    acknowledgement, cookie_reply, refusal, reply_of, Reply, ReplyBodyView, ReplyView, Status,
};
use crate::request::LoginRequest;
use crate::session::{
    elapsed, is_uuid, new_session_token, open_session, session_user, with_session,
};
use crate::state::{same_but_for_sessions, WebState, WebStateView};
use crate::store::{LoadedUser, UserRecordView};
use crate::text::{
    ascii_lowercase, decimal, numeral, owned_text_of, same_ignoring_case,
};

verus! {

/// A login whose password is to be checked.
#[derive(Debug)]
pub struct LoginAttempt {
    pub username: String,
    pub password: String,
    /// The hash that the password must fit; without one it fits nothing.
    pub hash: Option<String>,
}

/// The contents of a [`LoginAttempt`].
pub struct LoginAttemptView {
    pub username: Seq<char>,
    pub password: Seq<char>,
    pub hash: Option<Seq<char>>,
}

impl View for LoginAttempt {
    type V = LoginAttemptView;

    open spec fn view(&self) -> LoginAttemptView {
        LoginAttemptView {
            username: self.username@,
            password: self.password@,
            hash: owned_text_of(self.hash),
        }
    }
}

/// How far a login got.
#[derive(Debug)]
pub enum LoginStep {
    /// It is answered.
    Done(Reply),
    /// The account is to be looked up in the users table.
    Load(LoginAttempt),
    /// The password is to be checked.
    Verify(LoginAttempt),
}

/// The contents of a [`LoginStep`].
pub enum LoginStepView {
    Done(ReplyView),
    Load(LoginAttemptView),
    Verify(LoginAttemptView),
}

impl View for LoginStep {
    type V = LoginStepView;

    open spec fn view(&self) -> LoginStepView {
        match self {
            LoginStep::Done(reply) => LoginStepView::Done(reply@),
            LoginStep::Load(attempt) => LoginStepView::Load(attempt@),
            LoginStep::Verify(attempt) => LoginStepView::Verify(attempt@),
        }
    }
}

/// What a client is told whose account is locked for some more seconds.
pub open spec fn locked_message(seconds: nat) -> Seq<char> {
    "Please try again in "@ + numeral(seconds) + "s"@
}

/// The first step of a login. Without any account the client is sent on to the
/// setup; a locked account is refused; an account of the host has its hash at
/// hand; any other is to be looked up.
pub open spec fn login_step(
    state: WebStateView,
    username: Option<Seq<char>>,
    password: Seq<char>,
    now: u128,
) -> LoginStepView {
    let name = normalized(username);
    let hash = resolved_hash(state, name, None);
    let seconds = seconds_left(state.login_rate_limit, ascii_lowercase(name), now);
    if !any_account(state) {
        LoginStepView::Done(acknowledgement())
    } else if seconds is Some {
        LoginStepView::Done(refusal(Status::TooManyRequests, locked_message(seconds->Some_0)))
    } else if hash is Some {
        LoginStepView::Verify(LoginAttemptView { username: name, password, hash })
    } else {
        LoginStepView::Load(LoginAttemptView { username: name, password, hash })
    }
}

/// Begins a login.
pub fn login(state: &WebState, body: LoginRequest, now: u128) -> (res: LoginStep)
    requires
        state.wf(),
    ensures
        res@ == login_step(state@, owned_text_of(body.username), body.password@, now),
{
    if !has_any_account(state) {
        return LoginStep::Done(Reply::acknowledge());
    }
    let username: String = match body.username {
        Some(username) => normalize_username(Some(username.as_str())),
        None => normalize_username(None),
    };
    if let Some(seconds) = login_locked_for(state, username.as_str(), now) {
        let message: String = "Please try again in ".to_string().concat(
            decimal(seconds).as_str(),
        ).concat("s");
        return LoginStep::Done(Reply::refuse(Status::TooManyRequests, message.as_str()));
    }
    match env_user_hash(state, username.as_str()) {
        Some(hash) => LoginStep::Verify(
            LoginAttempt { username, password: body.password, hash: Some(hash) },
        ),
        None => LoginStep::Load(LoginAttempt { username, password: body.password, hash: None }),
    }
}

/// The attempt with the hash of its account.
pub open spec fn with_resolved_hash(
    state: WebStateView,
    attempt: LoginAttemptView,
    stored: Option<UserRecordView>,
) -> LoginAttemptView {
    LoginAttemptView { hash: resolved_hash(state, attempt.username, stored), ..attempt }
}

/// Goes on with a login after its account was looked up. A failed lookup counts
/// as one that found nothing.
pub fn login_loaded(state: &WebState, attempt: LoginAttempt, loaded: LoadedUser) -> (res:
    LoginAttempt)
    ensures
        res@ == with_resolved_hash(state@, attempt@, found(loaded)),
{
    let hash: Option<String> = resolve_user_hash(state, attempt.username.as_str(), loaded);
    LoginAttempt { username: attempt.username, password: attempt.password, hash }
}

/// The password fits the hash, if there is one.
pub open spec fn fits(attempt: LoginAttemptView) -> bool {
    attempt.hash is Some && password_fits(attempt.password, attempt.hash->Some_0)
}

/// Does the password fit the hash of the account?
pub fn verify_login(attempt: &LoginAttempt) -> (res: bool)
    ensures
        res == fits(attempt@),
        attempt.hash is Some && !is_password_hash(attempt.hash->Some_0@) ==> !res,
        attempt.hash is Some && !hash_outline(attempt.hash->Some_0@) ==> !res,
{
    match &attempt.hash {
        Some(hash) => verify_password(attempt.password.as_str(), hash.as_str()),
        None => false,
    }
}

/// The state after a failed login.
pub open spec fn after_failed_login(
    state: WebStateView,
    username: Seq<char>,
    now: u128,
) -> WebStateView {
    WebStateView {
        login_rate_limit: after_failure(state.login_rate_limit, ascii_lowercase(username), now),
        ..state
    }
}

/// The state after a login with the right password: the failed logins of the
/// account are forgotten, and it has a new session.
pub open spec fn after_login(
    state: WebStateView,
    username: Seq<char>,
    token: Seq<char>,
    now: u128,
) -> WebStateView {
    with_session(
        WebStateView {
            login_rate_limit: state.login_rate_limit.remove(ascii_lowercase(username)),
            ..state
        },
        token,
        username,
        now,
    )
}

/// Ends a login once it is known whether the password was right. A session is
/// opened under the given token.
pub fn finish_login_with_token(
    state: &mut WebState,
    username: String,
    verified: bool,
    token: String,
    now: u128,
) -> (res: Result<Reply, Status>)
    requires
        old(state).wf(),
        lock_end(now) <= u128::MAX,
    ensures
        final(state).wf(),
        verified ==> {
            &&& reply_of(res) == Ok::<ReplyView, Status>(
                cookie_reply(session_cookie_text(old(state)@, token@)),
            )
            &&& final(state)@ == after_login(old(state)@, username@, token@, now)
        },
        !verified ==> {
            &&& reply_of(res) == Err::<ReplyView, Status>(Status::Unauthorized)
            &&& final(state)@ == after_failed_login(old(state)@, username@, now)
        },
{
    if !verified {
        note_login_failure(state, username.as_str(), now);
        return Err(Status::Unauthorized);
    }
    clear_login_failures(state, username.as_str());
    let cookie: String = session_cookie(state, token.as_str());
    open_session(state, token, username, now);
    Ok(Reply::with_cookie(cookie))
}

/// Ends a login once it is known whether the password was right. A session is
/// opened under a random token.
pub fn finish_login(state: &mut WebState, username: String, verified: bool, now: u128) -> (res:
    Result<Reply, Status>)
    requires
        old(state).wf(),
        lock_end(now) <= u128::MAX,
    ensures
        final(state).wf(),
        verified ==> exists|token: Seq<char>|
            {
                &&& is_uuid(token)
                &&& reply_of(res) == Ok::<ReplyView, Status>(
                    cookie_reply(session_cookie_text(old(state)@, token)),
                )
                &&& final(state)@ == #[trigger] after_login(old(state)@, username@, token, now)
            },
        !verified ==> {
            &&& reply_of(res) == Err::<ReplyView, Status>(Status::Unauthorized)
            &&& final(state)@ == after_failed_login(old(state)@, username@, now)
        },
{
    let token: String = new_session_token();
    let ghost text = token@;
    assert(is_uuid(text));
    finish_login_with_token(state, username, verified, token, now)
}

/// What is checked in the end, unless the login is answered before, is the
/// given password against the hash of the account that is meant, those of the
/// host first.
pub proof fn login_checks_resolved_hash(
    state: WebStateView,
    username: Option<Seq<char>>,
    password: Seq<char>,
    stored: Option<UserRecordView>,
    now: u128,
)
    ensures
        (match login_step(state, username, password, now) {
            LoginStepView::Done(_) => None,
            LoginStepView::Load(attempt) => Some(with_resolved_hash(state, attempt, stored)),
            LoginStepView::Verify(attempt) => Some(attempt),
        }) == (if any_account(state) && seconds_left(
            state.login_rate_limit,
            ascii_lowercase(normalized(username)),
            now,
        ) is None {
            Some(
                LoginAttemptView {
                    username: normalized(username),
                    password,
                    hash: resolved_hash(state, normalized(username), stored),
                },
            )
        } else {
            None
        }),
{
}

/// The session that a login opens is live from there on, for as long as it may
/// be idle, and the client that sends back its cookie is taken for the user.
/// The sessions of others stay as they are.
pub proof fn login_opens_live_session(
    state: WebStateView,
    username: Seq<char>,
    token: Seq<char>,
    now: u128,
    t: u128,
)
    requires
        cookie_safe(token),
        state.session_idle_timeout is Some ==> elapsed(now, t)
            <= state.session_idle_timeout->Some_0,
    ensures
        cookie_token("dbx_session="@ + token) == Some(token),
        cookie_token(session_cookie_text(state, token)) == Some(token),
        session_user(after_login(state, username, token, now), token, t) == Some(username),
        forall|other: Seq<char>|
            other != token ==> #[trigger] session_user(
                after_login(state, username, token, now),
                other,
                t,
            ) == session_user(state, other, t),
{
    cookie_gives_back_token(state, token);
}

/// A password fits the hash that was made of it, whoever logs in with it.
pub proof fn hashed_password_logs_in(
    username: Seq<char>,
    password: Seq<char>,
    hashed: Result<Seq<char>, Status>,
)
    requires
        hash_outcome(password, hashed),
        password.len() <= LONGEST_PASSWORD,
    ensures
        hashed matches Ok(hash) && fits(
            LoginAttemptView { username, password, hash: Some(hash) },
        ),
{
}

/// Nobody logs in to an account whose stored text is no password hash.
pub proof fn malformed_hash_admits_nobody(attempt: LoginAttemptView)
    requires
        attempt.hash matches Some(hash) ==> !is_password_hash(hash),
    ensures
        !fits(attempt),
{
}

/// A failed login opens no session and ends none.
pub proof fn failed_login_keeps_sessions(
    state: WebStateView,
    username: Seq<char>,
    now: u128,
    token: Seq<char>,
    t: u128,
)
    ensures
        session_user(after_failed_login(state, username, now), token, t) == session_user(
            state,
            token,
            t,
        ),
        after_failed_login(state, username, now).sessions == state.sessions,
{
}

/// The state after failed logins of one account at the given times.
pub open spec fn after_failed_logins(
    state: WebStateView,
    username: Seq<char>,
    times: Seq<u128>,
) -> WebStateView
    decreases times.len(),
{
    if times.len() == 0 {
        state
    } else {
        after_failed_login(
            after_failed_logins(state, username, times.drop_last()),
            username,
            times.last(),
        )
    }
}

/// After the fifth failed login in a row an account is refused for a minute,
/// even with the right password, and for no longer. Earlier failures may have
/// been counted before.
pub proof fn five_failures_lock_account(
    state: WebStateView,
    username: Option<Seq<char>>,
    times: Seq<u128>,
    password: Seq<char>,
    t: u128,
)
    requires
        any_account(state),
        entry_of(state.login_rate_limit, ascii_lowercase(normalized(username))).fail_count
            + times.len() == 5,
        times.len() > 0,
        seconds_left(
            state.login_rate_limit,
            ascii_lowercase(normalized(username)),
            times.last(),
        ) is None,
        lock_end(times.last()) <= u128::MAX,
    ensures
        t < times.last() + 60_000_000_000 <==> login_step(
            after_failed_logins(state, normalized(username), times),
            username,
            password,
            t,
        ) == LoginStepView::Done(
            refusal(
                Status::TooManyRequests,
                locked_message(
                    ((times.last() + 60_000_000_000 - t) / 1_000_000_000) as nat,
                ),
            ),
        ),
        t >= times.last() + 60_000_000_000 ==> login_step(
            after_failed_logins(state, normalized(username), times),
            username,
            password,
            t,
        ) == login_step(state, username, password, t),
{
    let key = ascii_lowercase(normalized(username));
    lemma_failed_logins(state, normalized(username), times);
    enough_failures_lock(state.login_rate_limit, key, times, t);
}

/// Fewer failed logins leave the way open.
pub proof fn four_failures_do_not_lock_account(
    state: WebStateView,
    username: Option<Seq<char>>,
    times: Seq<u128>,
    password: Seq<char>,
    t: u128,
)
    requires
        entry_of(state.login_rate_limit, ascii_lowercase(normalized(username))).fail_count
            + times.len() <= 4,
    ensures
        login_step(
            after_failed_logins(state, normalized(username), times),
            username,
            password,
            t,
        ) == login_step(state, username, password, t),
{
    let key = ascii_lowercase(normalized(username));
    lemma_failed_logins(state, normalized(username), times);
    few_failures_do_not_lock(state.login_rate_limit, key, times);
    assert(seconds_left(after_failures(state.login_rate_limit, key, times), key, t)
        == seconds_left(state.login_rate_limit, key, t));
}

proof fn lemma_failed_logins(state: WebStateView, username: Seq<char>, times: Seq<u128>)
    ensures
        after_failed_logins(state, username, times) == (WebStateView {
            login_rate_limit: after_failures(
                state.login_rate_limit,
                ascii_lowercase(username),
                times,
            ),
            ..state
        }),
    decreases times.len(),
{
    if times.len() > 0 {
        lemma_failed_logins(state, username, times.drop_last());
    }
}

/// One account's failed logins never lock out another: a name of another account
/// differs in more than the case of ASCII letters.
pub proof fn failures_spare_other_accounts(
    state: WebStateView,
    username: Seq<char>,
    now: u128,
    other: Option<Seq<char>>,
    password: Seq<char>,
    t: u128,
)
    requires
        !same_ignoring_case(username, normalized(other)),
        now <= t,
    ensures
        login_step(after_failed_login(state, username, now), other, password, t) == login_step(
            state,
            other,
            password,
            t,
        ),
{
    failure_spares_other_accounts(
        state.login_rate_limit,
        ascii_lowercase(username),
        now,
        ascii_lowercase(normalized(other)),
        t,
    );
}

/// What a login came to.
pub enum LoginOutcome {
    /// It was answered before the password was checked.
    Answered,
    /// The password was wrong.
    Failed { username: Seq<char>, now: u128 },
    /// The password was right.
    Succeeded { username: Seq<char>, token: Seq<char>, now: u128 },
}

/// The state after a login.
pub open spec fn after_outcome(state: WebStateView, outcome: LoginOutcome) -> WebStateView {
    match outcome {
        LoginOutcome::Answered => state,
        LoginOutcome::Failed { username, now } => after_failed_login(state, username, now),
        LoginOutcome::Succeeded { username, token, now } => after_login(
            state,
            username,
            token,
            now,
        ),
    }
}

/// The state after logins, one after another.
pub open spec fn after_logins(state: WebStateView, outcomes: Seq<LoginOutcome>) -> WebStateView
    decreases outcomes.len(),
{
    if outcomes.len() == 0 {
        state
    } else {
        after_outcome(after_logins(state, outcomes.drop_last()), outcomes.last())
    }
}

/// The login was one to another account than that of `key`, and not after `t`.
pub open spec fn concerns_another(outcome: LoginOutcome, key: Seq<char>, t: u128) -> bool {
    match outcome {
        LoginOutcome::Answered => true,
        LoginOutcome::Failed { username, now } => ascii_lowercase(username) != key && now <= t,
        LoginOutcome::Succeeded { username, now, .. } => ascii_lowercase(username) != key && now
            <= t,
    }
}

/// However many logins to other accounts there are, right or wrong: the entry of
/// an account stays as it is, or leaves if it is neither locked nor counting.
/// They put no lock on it, lift none and change no count.
pub proof fn logins_keep_other_entries(
    state: WebStateView,
    outcomes: Seq<LoginOutcome>,
    key: Seq<char>,
    t: u128,
)
    requires
        forall|i: int|
            0 <= i < outcomes.len() ==> concerns_another(#[trigger] outcomes[i], key, t),
    ensures
        ({
            let before = state.login_rate_limit;
            let after = after_logins(state, outcomes).login_rate_limit;
            &&& after.contains_key(key) ==> before.contains_key(key) && after[key] == before[key]
            &&& before.contains_key(key) && in_use(before[key], t) ==> after.contains_key(key)
            &&& seconds_left(after, key, t) == seconds_left(before, key, t)
            &&& entry_of(after, key).fail_count == entry_of(before, key).fail_count
        }),
    decreases outcomes.len(),
{
    if outcomes.len() > 0 {
        assert(concerns_another(outcomes[outcomes.len() - 1], key, t));
        logins_keep_other_entries(state, outcomes.drop_last(), key, t);
    }
}

/// However many logins to other accounts there are, right or wrong: a login to
/// this one goes on as it would have without them.
pub proof fn logins_spare_other_accounts(
    state: WebStateView,
    outcomes: Seq<LoginOutcome>,
    username: Option<Seq<char>>,
    password: Seq<char>,
    t: u128,
)
    requires
        forall|i: int|
            0 <= i < outcomes.len() ==> concerns_another(
                #[trigger] outcomes[i],
                ascii_lowercase(normalized(username)),
                t,
            ),
    ensures
        login_step(after_logins(state, outcomes), username, password, t) == login_step(
            state,
            username,
            password,
            t,
        ),
{
    logins_keep_other_entries(state, outcomes, ascii_lowercase(normalized(username)), t);
    lemma_logins_keep_accounts(state, outcomes);
}

proof fn lemma_logins_keep_accounts(state: WebStateView, outcomes: Seq<LoginOutcome>)
    ensures
        after_logins(state, outcomes).bootstrap_users == state.bootstrap_users,
        after_logins(state, outcomes).has_db_users == state.has_db_users,
    decreases outcomes.len(),
{
    if outcomes.len() > 0 {
        lemma_logins_keep_accounts(state, outcomes.drop_last());
    }
}

/// A login with the right password forgets the failed ones: it takes as many as
/// at first to lock the account again.
pub proof fn success_resets_limit(
    state: WebStateView,
    username: Seq<char>,
    token: Seq<char>,
    now: u128,
)
    ensures
        !after_login(state, username, token, now).login_rate_limit.contains_key(
            ascii_lowercase(username),
        ),
{
}

/// Without any account a login is acknowledged, without a session, whatever name
/// and password it brings.
pub proof fn login_waits_for_the_first_account(
    state: WebStateView,
    username: Option<Seq<char>>,
    password: Seq<char>,
    now: u128,
)
    requires
        state.bootstrap_users.len() == 0,
        !state.has_db_users,
    ensures
        login_step(state, username, password, now) matches LoginStepView::Done(reply) && {
            &&& reply.status == Status::Success
            &&& reply.set_cookie is None
            &&& reply.body == ReplyBodyView::Acknowledged
        },
{
}

/// A locked account is refused, whatever the password, and told for how many
/// whole seconds.
pub proof fn locked_account_is_refused(
    state: WebStateView,
    username: Option<Seq<char>>,
    password: Seq<char>,
    now: u128,
)
    requires
        state.bootstrap_users.len() > 0 || state.has_db_users,
        state.login_rate_limit.contains_key(ascii_lowercase(normalized(username))),
        state.login_rate_limit[ascii_lowercase(normalized(username))].locked_until matches Some(
            until,
        ) && now < until,
    ensures
        login_step(state, username, password, now) matches LoginStepView::Done(reply) && {
            &&& reply.status == Status::TooManyRequests
            &&& reply.set_cookie is None
            &&& reply.body == ReplyBodyView::Error(
                "Please try again in "@ + numeral(
                    ((state.login_rate_limit[ascii_lowercase(
                        normalized(username),
                    )].locked_until->Some_0 - now) / 1_000_000_000) as nat,
                ) + "s"@,
            )
        },
{
}

/// The account is not locked at `now`.
pub open spec fn open_to_login(
    state: WebStateView,
    username: Option<Seq<char>>,
    now: u128,
) -> bool {
    let key = ascii_lowercase(normalized(username));
    !state.login_rate_limit.contains_key(key) || match state.login_rate_limit[key].locked_until {
        Some(until) => until <= now,
        None => true,
    }
}

/// A stored account that is not locked is looked up, under the name that is
/// meant, whatever other accounts the host provides. The login goes through
/// exactly if the given password fits the hash in the row that is found.
pub proof fn stored_user_logs_in_with_their_password(
    state: WebStateView,
    username: Option<Seq<char>>,
    password: Seq<char>,
    stored: Option<UserRecordView>,
    now: u128,
)
    requires
        state.bootstrap_users.len() > 0 || state.has_db_users,
        open_to_login(state, username, now),
        forall|j: int|
            0 <= j < state.bootstrap_users.len() ==> !same_ignoring_case(
                (#[trigger] state.bootstrap_users[j]).username,
                normalized(username),
            ),
    ensures
        login_step(state, username, password, now) matches LoginStepView::Load(attempt) && {
            &&& attempt.username == normalized(username)
            &&& attempt.password == password
            &&& with_resolved_hash(state, attempt, stored).username == normalized(username)
            &&& stored matches Some(user) ==> (fits(with_resolved_hash(state, attempt, stored))
                <==> password_fits(password, user.password_hash))
            &&& stored is None ==> !fits(with_resolved_hash(state, attempt, stored))
        },
{
    stored_account_has_its_rows_hash(state, normalized(username), stored);
    stored_account_has_its_rows_hash(state, normalized(username), None);
}

/// An account of the host that is not locked is checked at once. The login goes
/// through exactly if the given password fits the hash that the host gives it.
pub proof fn host_user_logs_in_with_their_password(
    state: WebStateView,
    username: Option<Seq<char>>,
    password: Seq<char>,
    now: u128,
    i: int,
)
    requires
        open_to_login(state, username, now),
        0 <= i < state.bootstrap_users.len(),
        same_ignoring_case(state.bootstrap_users[i].username, normalized(username)),
        forall|j: int|
            0 <= j < i ==> !same_ignoring_case(
                (#[trigger] state.bootstrap_users[j]).username,
                normalized(username),
            ),
    ensures
        login_step(state, username, password, now) matches LoginStepView::Verify(attempt) && {
            &&& attempt.username == normalized(username)
            &&& attempt.password == password
            &&& fits(attempt) <==> password_fits(
                password,
                state.bootstrap_users[i].password_hash,
            )
        },
{
    first_host_account_of_a_name_counts(state, normalized(username), None, i);
}

/// A failed login changes nothing but the counts of failed logins; one that went
/// through changes nothing but these and the session it opens.
pub proof fn login_changes_only_counts_and_its_session(
    state: WebStateView,
    username: Seq<char>,
    token: Seq<char>,
    now: u128,
    other: Seq<char>,
)
    ensures
        ({
            let failed = after_failed_login(state, username, now);
            &&& failed.sessions == state.sessions
            &&& failed.cleared_owners == state.cleared_owners
            &&& failed.login_rate_limit == after_failure(
                state.login_rate_limit,
                ascii_lowercase(username),
                now,
            )
            &&& same_but_for_sessions(
                failed,
                WebStateView { login_rate_limit: failed.login_rate_limit, ..state },
            )
        }),
        ({
            let done = after_login(state, username, token, now);
            &&& done.cleared_owners == state.cleared_owners
            &&& done.sessions.contains_key(token)
            &&& done.sessions[token].username == username
            &&& done.sessions[token].last_active == now
            &&& other != token ==> done.sessions.contains_key(other)
                == state.sessions.contains_key(other)
            &&& other != token && state.sessions.contains_key(other) ==> done.sessions[other]
                == state.sessions[other]
            &&& !done.login_rate_limit.contains_key(ascii_lowercase(username))
            &&& other != ascii_lowercase(username) ==> done.login_rate_limit.contains_key(other)
                == state.login_rate_limit.contains_key(other)
            &&& other != ascii_lowercase(username) && state.login_rate_limit.contains_key(other)
                ==> done.login_rate_limit[other] == state.login_rate_limit[other]
            &&& same_but_for_sessions(
                done,
                WebStateView { login_rate_limit: done.login_rate_limit, ..state },
            )
        }),
{
}

/// An attempt is seen field by field as it is, and a step as the one it is.
pub proof fn login_steps_are_seen_as_they_are(attempt: LoginAttempt, reply: Reply)
    ensures
        attempt@.username == attempt.username@,
        attempt@.password == attempt.password@,
        attempt.hash matches Some(hash) ==> attempt@.hash == Some(hash@),
        attempt.hash is None ==> attempt@.hash is None,
        LoginStep::Done(reply)@ == LoginStepView::Done(reply@),
        LoginStep::Load(attempt)@ == LoginStepView::Load(attempt@),
        LoginStep::Verify(attempt)@ == LoginStepView::Verify(attempt@),
{
}

} // verus!
