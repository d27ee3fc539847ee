//! Telling a client whether and as whom it is signed in.

use axum::http::HeaderMap;
use vstd::prelude::*;

use crate::account::{
    admin, any_account, env_account, found, has_any_account, is_admin_username, is_env_account,
};
use crate::cookie::request_token;
use crate::reply::Status;
use crate::request::{AuthCheckResponse, AuthCheckView};
use crate::session::{after_request, request_user, session_username};
use crate::setup::{setup_step, FirstAccountView};
use crate::state::{WebState, WebStateView};
use crate::store::{LoadedUser, UserRecordView};
use crate::text::same_ignoring_case;

verus! {

/// How far a check got.
#[derive(Debug)]
pub enum CheckStep {
    /// It is answered.
    Done(AuthCheckResponse),
    /// The signed-in user is to be looked up in the users table.
    Load(String),
}

/// The contents of a [`CheckStep`].
pub enum CheckStepView {
    Done(AuthCheckView),
    Load(Seq<char>),
}

impl View for CheckStep {
    type V = CheckStepView;

    open spec fn view(&self) -> CheckStepView {
        match self {
            CheckStep::Done(answer) => CheckStepView::Done(answer@),
            CheckStep::Load(username) => CheckStepView::Load(username@),
        }
    }
}

/// The answer to a client that is signed in or not, where there are accounts.
pub open spec fn check_answer(username: Option<Seq<char>>, is_admin: bool) -> AuthCheckView {
    AuthCheckView {
        authenticated: username is Some,
        required: true,
        setup_required: false,
        username,
        is_admin,
    }
}

/// The first step of a check. An open server lets everybody in; one without
/// accounts asks for the setup; otherwise the session counts, and the users
/// table is asked about users that are not the host's.
pub open spec fn check_step(
    state: WebStateView,
    token: Option<Seq<char>>,
    now: u128,
) -> CheckStepView {
    if state.password_disabled {
        CheckStepView::Done(
            AuthCheckView {
                authenticated: true,
                required: false,
                setup_required: false,
                username: None,
                is_admin: false,
            },
        )
    } else if !any_account(state) {
        CheckStepView::Done(
            AuthCheckView {
                authenticated: false,
                required: false,
                setup_required: true,
                username: None,
                is_admin: false,
            },
        )
    } else {
        match request_user(state, token, now) {
            None => CheckStepView::Done(check_answer(None, false)),
            Some(username) => if env_account(state, username) {
                CheckStepView::Done(check_answer(Some(username), true))
            } else {
                CheckStepView::Load(username)
            },
        }
    }
}

/// A check looks at the session only where it matters.
pub open spec fn after_check(
    state: WebStateView,
    token: Option<Seq<char>>,
    now: u128,
) -> WebStateView {
    if state.password_disabled || !any_account(state) {
        state
    } else {
        after_request(state, token, now)
    }
}

/// Begins a check.
pub fn check(state: &mut WebState, headers: &HeaderMap, now: u128) -> (res: CheckStep)
    requires
        old(state).wf(),
    ensures
        final(state).wf(),
        res@ == check_step(old(state)@, request_token(*headers), now),
        final(state)@ == after_check(old(state)@, request_token(*headers), now),
{
    if state.password_disabled {
        return CheckStep::Done(
            AuthCheckResponse {
                authenticated: true,
                required: false,
                setup_required: false,
                username: None,
                is_admin: false,
            },
        );
    }
    if !has_any_account(state) {
        return CheckStep::Done(
            AuthCheckResponse {
                authenticated: false,
                required: false,
                setup_required: true,
                username: None,
                is_admin: false,
            },
        );
    }
    match session_username(state, headers, now) {
        None => CheckStep::Done(
            AuthCheckResponse {
                authenticated: false,
                required: true,
                setup_required: false,
                username: None,
                is_admin: false,
            },
        ),
        Some(username) => if is_env_account(state, username.as_str()) {
            CheckStep::Done(
                AuthCheckResponse {
                    authenticated: true,
                    required: true,
                    setup_required: false,
                    username: Some(username),
                    is_admin: true,
                },
            )
        } else {
            CheckStep::Load(username)
        },
    }
}

/// Ends a check after the signed-in user was looked up. A failed lookup counts
/// as one that found nothing.
pub fn check_loaded(state: &WebState, username: String, loaded: LoadedUser) -> (res:
    AuthCheckResponse)
    ensures
        res@ == check_answer(Some(username@), admin(state@, username@, found(loaded))),
{
    let is_admin: bool = is_admin_username(state, username.as_str(), &loaded);
    AuthCheckResponse {
        authenticated: true,
        required: true,
        setup_required: false,
        username: Some(username),
        is_admin,
    }
}

/// Both steps together tell who is signed in, and whether they are an admin.
pub proof fn check_tells_session_user(
    state: WebStateView,
    token: Option<Seq<char>>,
    stored: Option<UserRecordView>,
    now: u128,
)
    requires
        !state.password_disabled,
        any_account(state),
    ensures
        (match check_step(state, token, now) {
            CheckStepView::Done(answer) => answer,
            CheckStepView::Load(username) => check_answer(
                Some(username),
                admin(state, username, stored),
            ),
        }) == check_answer(
            request_user(state, token, now),
            request_user(state, token, now) is Some && admin(
                state,
                request_user(state, token, now)->Some_0,
                stored,
            ),
        ),
{
}

/// A client is sent to the setup exactly as long as the setup is open.
pub proof fn check_offers_open_setup(
    state: WebStateView,
    token: Option<Seq<char>>,
    now: u128,
    username: Seq<char>,
    password: Seq<char>,
)
    ensures
        (check_step(state, token, now) matches CheckStepView::Done(answer)
            && answer.setup_required) <==> setup_step(state, username, password) != Err::<
            FirstAccountView,
            Status,
        >(Status::Forbidden),
{
}

/// An open server tells everybody that they are in, as nobody in particular; one
/// without accounts tells everybody to set it up.
pub proof fn check_without_passwords_or_accounts(
    state: WebStateView,
    token: Option<Seq<char>>,
    now: u128,
)
    ensures
        state.password_disabled ==> (check_step(state, token, now) matches CheckStepView::Done(
            answer,
        ) && {
            &&& answer.authenticated
            &&& !answer.required
            &&& !answer.setup_required
            &&& answer.username is None
            &&& !answer.is_admin
        }),
        !state.password_disabled && state.bootstrap_users.len() == 0 && !state.has_db_users ==> (
        check_step(state, token, now) matches CheckStepView::Done(answer) && {
            &&& !answer.authenticated
            &&& !answer.required
            &&& answer.setup_required
            &&& answer.username is None
            &&& !answer.is_admin
        }),
        state.password_disabled || (state.bootstrap_users.len() == 0 && !state.has_db_users)
            ==> after_check(state, token, now) == state,
{
}

/// Where passwords are wanted and there are accounts, a client without a live
/// session is told that it has to sign in.
pub proof fn check_without_a_session(state: WebStateView, token: Option<Seq<char>>, now: u128)
    requires
        !state.password_disabled,
        state.bootstrap_users.len() > 0 || state.has_db_users,
        token is None || !state.sessions.contains_key(token->Some_0) || (
        state.session_idle_timeout matches Some(allowed) && now
            > state.sessions[token->Some_0].last_active + allowed),
    ensures
        check_step(state, token, now) matches CheckStepView::Done(answer) && {
            &&& !answer.authenticated
            &&& answer.required
            &&& !answer.setup_required
            &&& answer.username is None
            &&& !answer.is_admin
        },
{
}

/// A client with a live session is told whose it is, and that they are an admin if
/// they are the host's, or else if their row says so.
pub proof fn check_with_a_session(
    state: WebStateView,
    token: Seq<char>,
    now: u128,
    stored: Option<UserRecordView>,
)
    requires
        !state.password_disabled,
        state.bootstrap_users.len() > 0 || state.has_db_users,
        state.sessions.contains_key(token),
        state.session_idle_timeout matches Some(allowed) ==> now
            <= state.sessions[token].last_active + allowed,
    ensures
        ({
            let username = state.sessions[token].username;
            let of_the_host = exists|j: int|
                0 <= j < state.bootstrap_users.len() && same_ignoring_case(
                    (#[trigger] state.bootstrap_users[j]).username,
                    username,
                );
            let answer = match check_step(state, Some(token), now) {
                CheckStepView::Done(answer) => answer,
                CheckStepView::Load(name) => check_answer(
                    Some(name),
                    admin(state, name, stored),
                ),
            };
            &&& check_step(state, Some(token), now) is Done <==> of_the_host
            &&& check_step(state, Some(token), now) matches CheckStepView::Load(name) ==> name
                == username
            &&& answer.authenticated
            &&& answer.required
            &&& !answer.setup_required
            &&& answer.username == Some(username)
            &&& answer.is_admin <==> of_the_host || (stored matches Some(user) && user.is_admin)
        }),
        after_check(state, Some(token), now) == after_request(state, Some(token), now),
{
}

/// A step of a check is seen as the one it is.
pub proof fn check_steps_are_seen_as_they_are(answer: AuthCheckResponse, username: String)
    ensures
        CheckStep::Done(answer)@ == CheckStepView::Done(answer@),
        CheckStep::Load(username)@ == CheckStepView::Load(username@),
{
}

} // verus!
