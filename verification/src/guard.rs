//! The guard in front of the API, and signing out.

use axum::http::HeaderMap;
use vstd::prelude::*;
use vstd::string::*;

use crate::account::{any_account, has_any_account};
use crate::check::{check_step, CheckStepView};
use crate::cookie::{
    expired_cookie_text, expired_session_cookie, request_token, session_token_from_headers,
};
use crate::login::after_login;
use crate::paths::{guarded_suffix, middleware_api_path_suffix, root_api_path_is_found};
use crate::reply::{cookie_reply, Reply, Status};
use crate::session::{
    after_request, elapsed, end_session, lookup_session, other_sessions_are_untouched,
    request_user, session_user, without_session,
};
use crate::state::{same_but_for_sessions, WebState, WebStateView};
use crate::text::{begins_with, same_text};

verus! {

/// What the guard decides about a request.
#[derive(Debug)]
pub enum Access {
    /// It goes on.
    Forward,
    /// It goes on, and what it saves belongs to the session of this token.
    ForwardAs(String),
    /// It is answered with this status.
    Refuse(Status),
}

/// The contents of an [`Access`].
pub enum AccessView {
    Forward,
    ForwardAs(Seq<char>),
    Refuse(Status),
}

impl View for Access {
    type V = AccessView;

    open spec fn view(&self) -> AccessView {
        match self {
            Access::Forward => AccessView::Forward,
            Access::ForwardAs(token) => AccessView::ForwardAs(token@),
            Access::Refuse(status) => AccessView::Refuse(*status),
        }
    }
}

/// An API path that can be reached without a session.
pub open spec fn public_auth_path(suffix: Seq<char>) -> bool {
    suffix == "auth/login"@ || suffix == "auth/check"@ || suffix == "auth/setup"@ || suffix
        == "auth/logout"@
}

/// A request path that needs a session: every API path but the public ones.
pub open spec fn protected(path: Seq<char>, public_base_path: Seq<char>) -> bool {
    match guarded_suffix(path, public_base_path) {
        Some(suffix) => !public_auth_path(suffix),
        None => false,
    }
}

/// The request is decided by its session: its path is protected, the server
/// wants passwords, and there is an account.
pub open spec fn session_decides(state: WebStateView, path: Seq<char>) -> bool {
    protected(path, state.public_base_path) && !state.password_disabled && any_account(state)
}

/// What the guard decides about a request.
pub open spec fn access(
    state: WebStateView,
    path: Seq<char>,
    token: Option<Seq<char>>,
    now: u128,
) -> AccessView {
    if !protected(path, state.public_base_path) || state.password_disabled {
        AccessView::Forward
    } else if any_account(state) && request_user(state, token, now) is Some {
        AccessView::ForwardAs(token->Some_0)
    } else {
        AccessView::Refuse(Status::Unauthorized)
    }
}

/// Is this an API path that can be reached without a session?
pub fn is_public_auth_path(suffix: &str) -> (res: bool)
    ensures
        res == public_auth_path(suffix@),
{
    same_text(suffix, "auth/login") || same_text(suffix, "auth/check") || same_text(
        suffix,
        "auth/setup",
    ) || same_text(suffix, "auth/logout")
}

/// Decides whether a request goes on to its handler. Only where that depends on
/// its session is the session looked at.
pub fn auth_middleware(state: &mut WebState, path: &str, headers: &HeaderMap, now: u128) -> (res:
    Access)
    requires
        old(state).wf(),
    ensures
        final(state).wf(),
        res@ == access(old(state)@, path@, request_token(*headers), now),
        final(state)@ == (if session_decides(old(state)@, path@) {
            after_request(old(state)@, request_token(*headers), now)
        } else {
            old(state)@
        }),
{
    match middleware_api_path_suffix(path, state.public_base_path.as_str()) {
        None => {
            return Access::Forward;
        },
        Some(suffix) => {
            if is_public_auth_path(suffix) {
                return Access::Forward;
            }
        },
    }
    if state.password_disabled {
        return Access::Forward;
    }
    if !has_any_account(state) {
        return Access::Refuse(Status::Unauthorized);
    }
    if let Some(token) = session_token_from_headers(headers) {
        if lookup_session(state, token.as_str(), now).is_some() {
            return Access::ForwardAs(token);
        }
    }
    Access::Refuse(Status::Unauthorized)
}

/// The state after a request signed out. Its token is noted for clearing even
/// if it stands for no session any more.
pub open spec fn after_logout(state: WebStateView, token: Option<Seq<char>>) -> WebStateView {
    match token {
        Some(token) => without_session(state, token),
        None => state,
    }
}

/// Signs out: ends the session of the request and takes the cookie back.
pub fn logout(state: &mut WebState, headers: &HeaderMap) -> (res: Reply)
    requires
        old(state).wf(),
    ensures
        final(state).wf(),
        res@ == cookie_reply(expired_cookie_text(old(state)@)),
        final(state)@ == after_logout(old(state)@, request_token(*headers)),
{
    if let Some(token) = session_token_from_headers(headers) {
        end_session(state, token.as_str());
    }
    Reply::with_cookie(expired_session_cookie(state))
}

/// On a server that wants passwords, only a live session opens a protected path.
pub proof fn protected_path_needs_session(
    state: WebStateView,
    path: Seq<char>,
    token: Option<Seq<char>>,
    now: u128,
)
    requires
        protected(path, state.public_base_path),
        !state.password_disabled,
    ensures
        access(state, path, token, now) != AccessView::Forward,
        access(state, path, token, now) is ForwardAs ==> {
            &&& any_account(state)
            &&& token is Some
            &&& access(state, path, token, now)->ForwardAs_0 == token->Some_0
            &&& session_user(state, token->Some_0, now) is Some
        },
        request_user(state, token, now) is None ==> access(state, path, token, now)
            == AccessView::Refuse(Status::Unauthorized),
{
}

/// Login, check, setup and logout can be reached without a session, at the root
/// as well as below the mount; so can everything that is no API path.
pub proof fn sign_in_is_always_reachable(
    state: WebStateView,
    path: Seq<char>,
    token: Option<Seq<char>>,
    now: u128,
)
    requires
        guarded_suffix(path, state.public_base_path) is Some ==> public_auth_path(
            guarded_suffix(path, state.public_base_path)->Some_0,
        ),
    ensures
        access(state, path, token, now) == AccessView::Forward,
{
}

/// Where the check tells a client that it is signed in, the guard lets it
/// through, and where not, not.
pub proof fn guard_agrees_with_check(
    state: WebStateView,
    path: Seq<char>,
    token: Option<Seq<char>>,
    now: u128,
)
    requires
        protected(path, state.public_base_path),
    ensures
        access(state, path, token, now) is Refuse <==> (check_step(
            state,
            token,
            now,
        ) matches CheckStepView::Done(answer) && !answer.authenticated),
{
}

/// With the session that a login opened, every protected path is open, for as
/// long as the session may be idle.
pub proof fn login_opens_protected_paths(
    state: WebStateView,
    username: Seq<char>,
    token: Seq<char>,
    now: u128,
    path: Seq<char>,
    t: u128,
)
    requires
        any_account(state),
        !state.password_disabled,
        protected(path, state.public_base_path),
        state.session_idle_timeout is Some ==> elapsed(now, t)
            <= state.session_idle_timeout->Some_0,
    ensures
        access(after_login(state, username, token, now), path, Some(token), t)
            == AccessView::ForwardAs(token),
{
}

/// A request that signed out gets through to no protected path any more, until
/// it signs in again. Other sessions are not affected.
pub proof fn logout_ends_only_its_session(
    state: WebStateView,
    path: Seq<char>,
    token: Seq<char>,
    other: Seq<char>,
    t: u128,
)
    ensures
        session_user(after_logout(state, Some(token)), token, t) is None,
        protected(path, state.public_base_path) && !state.password_disabled ==> access(
            after_logout(state, Some(token)),
            path,
            Some(token),
            t,
        ) == AccessView::Refuse(Status::Unauthorized),
        other != token ==> session_user(after_logout(state, Some(token)), other, t)
            == session_user(state, other, t),
{
    if other != token {
        other_sessions_are_untouched(state, token, t, other, t);
    }
}

/// The paths that can be reached without a session are login, check, setup and
/// logout, and no others of the API.
pub proof fn four_paths_are_public(suffix: Seq<char>)
    ensures
        suffix == "auth/login"@ ==> public_auth_path(suffix),
        suffix == "auth/check"@ ==> public_auth_path(suffix),
        suffix == "auth/setup"@ ==> public_auth_path(suffix),
        suffix == "auth/logout"@ ==> public_auth_path(suffix),
        suffix != "auth/login"@ && suffix != "auth/check"@ && suffix != "auth/setup"@ && suffix
            != "auth/logout"@ ==> !public_auth_path(suffix),
{
}

/// A public API path that does not begin with `auth/` does not exist.
pub proof fn nothing_outside_auth_is_public(suffix: Seq<char>)
    requires
        !begins_with(suffix, "auth/"@),
    ensures
        !public_auth_path(suffix),
{
    reveal_strlit("auth/");
    reveal_strlit("auth/login");
    reveal_strlit("auth/check");
    reveal_strlit("auth/setup");
    reveal_strlit("auth/logout");
    assert("auth/login"@.take(5) =~= "auth/"@);
    assert("auth/check"@.take(5) =~= "auth/"@);
    assert("auth/setup"@.take(5) =~= "auth/"@);
    assert("auth/logout"@.take(5) =~= "auth/"@);
}

/// On a server that wants passwords, an API path other than the four public ones
/// is refused to a request without a live session, or as long as there is no
/// account, and open to one with a live session, whose token goes along.
pub proof fn api_is_closed_without_a_session(
    state: WebStateView,
    path: Seq<char>,
    suffix: Seq<char>,
    token: Option<Seq<char>>,
    now: u128,
)
    requires
        guarded_suffix(path, state.public_base_path) == Some(suffix),
        suffix != "auth/login"@,
        suffix != "auth/check"@,
        suffix != "auth/setup"@,
        suffix != "auth/logout"@,
        !state.password_disabled,
    ensures
        ({
            let live = token matches Some(t) && state.sessions.contains_key(t) && (
            state.session_idle_timeout matches Some(allowed) ==> now
                <= state.sessions[t].last_active + allowed);
            let accounts = state.bootstrap_users.len() > 0 || state.has_db_users;
            &&& !live || !accounts ==> access(state, path, token, now) == AccessView::Refuse(
                Status::Unauthorized,
            )
            &&& live && accounts ==> access(state, path, token, now) == AccessView::ForwardAs(
                token->Some_0,
            )
            &&& session_decides(state, path) <==> accounts
        }),
{
}

/// Every API path at the root outside `auth/` needs a session, whatever the mount.
pub proof fn every_other_api_path_is_protected(
    state: WebStateView,
    suffix: Seq<char>,
    token: Option<Seq<char>>,
    now: u128,
)
    requires
        !begins_with(suffix, "auth/"@),
        !state.password_disabled,
        token is None || !state.sessions.contains_key(token->Some_0),
    ensures
        access(state, "/api/"@ + suffix, token, now) == AccessView::Refuse(Status::Unauthorized),
{
    root_api_path_is_found(suffix, state.public_base_path);
    nothing_outside_auth_is_public(suffix);
}

/// The four public paths and whatever is no API path are open to everybody, and so
/// is all of a server that wants no passwords; sessions are not even looked at.
pub proof fn open_paths_ask_for_no_session(
    state: WebStateView,
    path: Seq<char>,
    token: Option<Seq<char>>,
    now: u128,
)
    requires
        state.password_disabled || guarded_suffix(path, state.public_base_path) is None
            || guarded_suffix(path, state.public_base_path) == Some("auth/login"@)
            || guarded_suffix(path, state.public_base_path) == Some("auth/check"@)
            || guarded_suffix(path, state.public_base_path) == Some("auth/setup"@)
            || guarded_suffix(path, state.public_base_path) == Some("auth/logout"@),
    ensures
        access(state, path, token, now) == AccessView::Forward,
        !session_decides(state, path),
{
}

/// Signing out takes the session of the request away and notes its token, even
/// one that stands for nothing any more; nothing else changes, and without a
/// token nothing at all.
pub proof fn logout_takes_its_session_away(
    state: WebStateView,
    token: Seq<char>,
    other: Seq<char>,
)
    ensures
        after_logout(state, None) == state,
        ({
            let after = after_logout(state, Some(token));
            &&& same_but_for_sessions(after, state)
            &&& !after.sessions.contains_key(token)
            &&& after.cleared_owners == state.cleared_owners.push(token)
            &&& other != token ==> after.sessions.contains_key(other)
                == state.sessions.contains_key(other)
            &&& other != token && state.sessions.contains_key(other) ==> after.sessions[other]
                == state.sessions[other]
        }),
{
}

/// A decision is seen as the one it is.
pub proof fn decisions_are_seen_as_they_are(token: String, status: Status)
    ensures
        Access::Forward@ == AccessView::Forward,
        Access::ForwardAs(token)@ == AccessView::ForwardAs(token@),
        Access::Refuse(status)@ == AccessView::Refuse(status),
{
}

} // verus!
