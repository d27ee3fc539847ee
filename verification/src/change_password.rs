//! Changing one's own password.

use axum::http::HeaderMap;
use vstd::prelude::*;
use vstd::string::*;

use crate::account::{env_account, given_name, is_env_account, DEFAULT_USERNAME};
use crate::cookie::{request_token, session_token_from_headers};
use crate::password::{
    hash_outcome, hash_password, password_fits, text_or_status, verify_password,
};
use crate::reply::{
    acknowledgement, refusal, reply_of, Reply, ReplyBodyView, ReplyView, Status,
};
use crate::request::{ChangePasswordRequest, ChangePasswordView};
use crate::session::{
    after_request, dropping_takes_exactly_the_users_sessions, drop_sessions_for_user,
    lookup_session, request_user, user_sessions_dropped,
};
use crate::state::{same_but_for_sessions, WebState, WebStateView};
use crate::store::{
    LoadedUser, PasswordUpdate, PasswordUpdateView, UserRecord, UserRecordView,
};
use crate::text::{
    owned_text_of, same_ignoring_case, trim, trimming_finds_the_core, whitespace,
};

verus! {

/// Who sent a request.
pub struct Caller {
    /// The session token that the request carries, live or not.
    pub token: Option<String>,
    /// The user whose live session that is.
    pub username: Option<String>,
}

/// Finds out who sent a request.
pub fn identify_caller(state: &mut WebState, headers: &HeaderMap, now: u128) -> (res: Caller)
    requires
        old(state).wf(),
    ensures
        final(state).wf(),
        owned_text_of(res.token) == request_token(*headers),
        owned_text_of(res.username) == request_user(old(state)@, request_token(*headers), now),
        final(state)@ == after_request(old(state)@, request_token(*headers), now),
{
    let token: Option<String> = session_token_from_headers(headers);
    let username: Option<String> = match &token {
        Some(token) => lookup_session(state, token.as_str(), now),
        None => None,
    };
    Caller { token, username }
}

/// A change of password that is to be checked against the stored account.
#[derive(Debug)]
pub struct PasswordChange {
    pub username: String,
    pub old_password: String,
    pub new_password: String,
}

/// The contents of a [`PasswordChange`].
pub struct PasswordChangeView {
    pub username: Seq<char>,
    pub old_password: Seq<char>,
    pub new_password: Seq<char>,
}

impl View for PasswordChange {
    type V = PasswordChangeView;

    open spec fn view(&self) -> PasswordChangeView {
        PasswordChangeView {
            username: self.username@,
            old_password: self.old_password@,
            new_password: self.new_password@,
        }
    }
}

/// How far a change of password got.
#[derive(Debug)]
pub enum ChangePasswordStep {
    /// It is answered.
    Done(Result<Reply, Status>),
    /// The account is to be looked up in the users table.
    Load(PasswordChange),
}

/// The contents of a [`ChangePasswordStep`].
pub enum ChangePasswordStepView {
    Done(Result<ReplyView, Status>),
    Load(PasswordChangeView),
}

impl View for ChangePasswordStep {
    type V = ChangePasswordStepView;

    open spec fn view(&self) -> ChangePasswordStepView {
        match self {
            ChangePasswordStep::Done(res) => ChangePasswordStepView::Done(reply_of(*res)),
            ChangePasswordStep::Load(change) => ChangePasswordStepView::Load(change@),
        }
    }
}

/// The account whose password is to be changed: the one that is named, or that
/// of the session, or the default one.
pub open spec fn changed_account(
    username: Option<Seq<char>>,
    session_user: Option<Seq<char>>,
) -> Seq<char> {
    match given_name(username) {
        Some(name) => name,
        None => match session_user {
            Some(name) => name,
            None => DEFAULT_USERNAME@,
        },
    }
}

/// The first step of a change of password. A body that cannot be read and an
/// empty new password are bad requests; accounts of the host are managed by the
/// host.
pub open spec fn change_step(
    state: WebStateView,
    session_user: Option<Seq<char>>,
    body: Option<ChangePasswordView>,
) -> ChangePasswordStepView {
    match body {
        None => ChangePasswordStepView::Done(Err(Status::BadRequest)),
        Some(body) => {
            let username = changed_account(body.username, session_user);
            if body.new_password.len() == 0 {
                ChangePasswordStepView::Done(Err(Status::BadRequest))
            } else if env_account(state, username) {
                ChangePasswordStepView::Done(
                    Ok(
                        refusal(
                            Status::Forbidden,
                            "This account's password is managed via environment variables"@,
                        ),
                    ),
                )
            } else {
                ChangePasswordStepView::Load(
                    PasswordChangeView {
                        username,
                        old_password: body.old_password,
                        new_password: body.new_password,
                    },
                )
            }
        },
    }
}

/// Begins a change of password. The body is `None` where it could not be read.
pub fn change_password(
    state: &WebState,
    caller: &Caller,
    body: Option<ChangePasswordRequest>,
) -> (res: ChangePasswordStep)
    ensures
        res@ == change_step(
            state@,
            owned_text_of(caller.username),
            match body {
                Some(body) => Some(body@),
                None => None,
            },
        ),
        res matches ChangePasswordStep::Load(change) ==> (body matches Some(body) && {
            &&& change.old_password@ == body.old_password@
            &&& change.new_password@ == body.new_password@
            &&& given_name(owned_text_of(body.username)) matches Some(name)
                ==> change.username@ == name
        }),
{
    let body: ChangePasswordRequest = match body {
        Some(body) => body,
        None => {
            return ChangePasswordStep::Done(Err(Status::BadRequest));
        },
    };
    if body.new_password.as_str().is_empty() {
        return ChangePasswordStep::Done(Err(Status::BadRequest));
    }
    let named: Option<String> = match &body.username {
        Some(name) => {
            let name: &str = trim(name.as_str());
            if name.is_empty() {
                None
            } else {
                Some(name.to_string())
            }
        },
        None => None,
    };
    let username: String = match named {
        Some(name) => name,
        None => match &caller.username {
            Some(name) => name.clone(),
            None => DEFAULT_USERNAME.to_string(),
        },
    };
    if is_env_account(state, username.as_str()) {
        return ChangePasswordStep::Done(
            Ok(
                Reply::refuse(
                    Status::Forbidden,
                    "This account's password is managed via environment variables",
                ),
            ),
        );
    }
    ChangePasswordStep::Load(
        PasswordChange {
            username,
            old_password: body.old_password,
            new_password: body.new_password,
        },
    )
}

/// The row that a hash is meant for, with that hash.
pub open spec fn update_for(
    user: UserRecordView,
    hashed: Result<Seq<char>, Status>,
) -> Result<PasswordUpdateView, Status> {
    match hashed {
        Ok(password_hash) => Ok(
            PasswordUpdateView { id: user.id, username: user.username, password_hash },
        ),
        Err(status) => Err(status),
    }
}

/// The view of an update or of the status that stands in its place.
pub open spec fn update_of(res: Result<PasswordUpdate, Status>) -> Result<
    PasswordUpdateView,
    Status,
> {
    match res {
        Ok(update) => Ok(update@),
        Err(status) => Err(status),
    }
}

/// What is to be written to the row of a user once the new password was hashed.
pub fn password_update(user: UserRecord, hashed: Result<String, Status>) -> (res: Result<
    PasswordUpdate,
    Status,
>)
    ensures
        update_of(res) == update_for(user@, text_or_status(hashed)),
{
    match hashed {
        Ok(password_hash) => Ok(
            PasswordUpdate { id: user.id, username: user.username, password_hash },
        ),
        Err(status) => Err(status),
    }
}

/// The status with which a change of password is refused once its account was
/// looked up: a failed lookup is an internal error, and neither a missing
/// account nor a wrong password tells which of the two it was.
pub open spec fn change_refused(
    change: PasswordChangeView,
    loaded: LoadedUser,
) -> Option<Status> {
    match loaded {
        Err(_) => Some(Status::InternalServerError),
        Ok(None) => Some(Status::Unauthorized),
        Ok(Some(user)) => if password_fits(change.old_password, user.password_hash@) {
            None
        } else {
            Some(Status::Unauthorized)
        },
    }
}

/// Goes on with a change of password after its account was looked up: checks the
/// old password and hashes the new one.
pub fn change_password_loaded(change: PasswordChange, loaded: LoadedUser) -> (res: Result<
    PasswordUpdate,
    Status,
>)
    ensures
        match change_refused(change@, loaded) {
            Some(status) => update_of(res) == Err::<PasswordUpdateView, Status>(status),
            None => exists|hashed: Result<Seq<char>, Status>| #[trigger]
                hash_outcome(change.new_password@, hashed) && update_of(res) == update_for(
                    loaded->Ok_0->Some_0@,
                    hashed,
                ),
        },
        res matches Ok(update) ==> (loaded matches Ok(Some(user)) && {
            &&& update.id == user.id
            &&& update.username@ == user.username@
            &&& password_fits(change.old_password@, user.password_hash@)
            &&& password_fits(change.new_password@, update.password_hash@)
        }),
{
    let user: UserRecord = match loaded {
        Err(_) => {
            return Err(Status::InternalServerError);
        },
        Ok(None) => {
            return Err(Status::Unauthorized);
        },
        Ok(Some(user)) => user,
    };
    if !verify_password(change.old_password.as_str(), user.password_hash.as_str()) {
        return Err(Status::Unauthorized);
    }
    let hashed: Result<String, Status> = hash_password(change.new_password.as_str());
    let ghost outcome = text_or_status(hashed);
    assert(hash_outcome(change.new_password@, outcome));
    password_update(user, hashed)
}

/// `after` is what becomes of `before` once a new password of the account was
/// written, and `res` the answer: if the write failed, nothing changes;
/// otherwise every session of the account ends, except the caller's.
pub open spec fn password_stored(
    before: WebStateView,
    after: WebStateView,
    username: Seq<char>,
    keep: Option<Seq<char>>,
    stored: Result<(), String>,
    res: Result<ReplyView, Status>,
) -> bool {
    match stored {
        Err(_) => res == Err::<ReplyView, Status>(Status::InternalServerError) && after == before,
        Ok(_) => res == Ok::<ReplyView, Status>(acknowledgement()) && user_sessions_dropped(
            before,
            after,
            username,
            keep,
        ),
    }
}

/// Ends a change of password after the new hash was written. A stolen or stale
/// session dies with the old password; the caller's proved that password and
/// stays.
pub fn change_password_stored(
    state: &mut WebState,
    caller: &Caller,
    username: &str,
    stored: Result<(), String>,
) -> (res: Result<Reply, Status>)
    requires
        old(state).wf(),
    ensures
        final(state).wf(),
        password_stored(
            old(state)@,
            final(state)@,
            username@,
            owned_text_of(caller.token),
            stored,
            reply_of(res),
        ),
{
    if stored.is_err() {
        return Err(Status::InternalServerError);
    }
    match &caller.token {
        Some(token) => drop_sessions_for_user(state, username, Some(token.as_str())),
        None => drop_sessions_for_user(state, username, None),
    }
    Ok(Reply::acknowledge())
}

/// The password of an account of the host cannot be changed here, in whatever
/// casing it is named and whatever the passwords are.
pub proof fn env_password_is_fixed(
    state: WebStateView,
    session_user: Option<Seq<char>>,
    body: ChangePasswordView,
)
    requires
        env_account(state, changed_account(body.username, session_user)),
    ensures
        change_step(state, session_user, Some(body)) is Done,
        body.new_password.len() > 0 ==> (change_step(state, session_user, Some(body))->Done_0
            matches Ok(reply) && reply.status == Status::Forbidden),
{
}

/// A new password is only ever written for somebody who knows the old one, and
/// the new one fits what is written.
pub proof fn change_needs_old_password(
    change: PasswordChangeView,
    loaded: LoadedUser,
    hashed: Result<Seq<char>, Status>,
)
    requires
        change_refused(change, loaded) is None,
        hash_outcome(change.new_password, hashed),
    ensures
        loaded matches Ok(Some(user)) && password_fits(change.old_password, user.password_hash@)
            && (update_for(user@, hashed) matches Ok(update) ==> update.id == user.id
            && password_fits(change.new_password, update.password_hash)),
{
}

/// The account whose password is changed is the one that the request names,
/// whoever is signed in; if it names none, that of the session; and "admin" only
/// if there is neither.
pub proof fn named_account_goes_before_the_sessions(
    username: Option<Seq<char>>,
    session_user: Option<Seq<char>>,
    before: Seq<char>,
    name: Seq<char>,
    after: Seq<char>,
)
    requires
        forall|i: int| 0 <= i < before.len() ==> whitespace(#[trigger] before[i]),
        forall|i: int| 0 <= i < after.len() ==> whitespace(#[trigger] after[i]),
        name.len() > 0 ==> !whitespace(name[0]) && !whitespace(name.last()),
        name.len() == 0 ==> before.len() == 0,
        username matches Some(text) ==> text == before + name + after,
        username is None ==> name.len() == 0,
    ensures
        name.len() > 0 ==> changed_account(username, session_user) == name,
        name.len() == 0 && session_user is Some ==> changed_account(username, session_user)
            == session_user->Some_0,
        name.len() == 0 && session_user is None ==> changed_account(username, session_user)
            == "admin"@,
{
    trimming_finds_the_core(before, name, after);
}

/// A body that cannot be read, and an empty new password, are bad requests,
/// whoever asks.
pub proof fn change_needs_a_new_password(
    state: WebStateView,
    session_user: Option<Seq<char>>,
    body: ChangePasswordView,
)
    ensures
        change_step(state, session_user, None) == ChangePasswordStepView::Done(
            Err(Status::BadRequest),
        ),
        body.new_password.len() == 0 ==> change_step(state, session_user, Some(body))
            == ChangePasswordStepView::Done(Err(Status::BadRequest)),
{
}

/// A change for a stored account looks that account up, with the passwords of the
/// request, whoever is signed in and whatever accounts the host provides; one for
/// an account of the host is forbidden, and says why.
pub proof fn change_looks_up_the_account_it_is_for(
    state: WebStateView,
    session_user: Option<Seq<char>>,
    body: ChangePasswordView,
)
    requires
        body.new_password.len() > 0,
    ensures
        ({
            let username = changed_account(body.username, session_user);
            let of_the_host = exists|j: int|
                0 <= j < state.bootstrap_users.len() && same_ignoring_case(
                    (#[trigger] state.bootstrap_users[j]).username,
                    username,
                );
            &&& given_name(body.username) matches Some(name) ==> username == name
            &&& of_the_host ==> (change_step(state, session_user, Some(body)) matches
                ChangePasswordStepView::Done(Ok(reply)) && {
                &&& reply.status == Status::Forbidden
                &&& reply.set_cookie is None
                &&& reply.body == ReplyBodyView::Error(
                    "This account's password is managed via environment variables"@,
                )
            })
            &&& !of_the_host ==> (change_step(state, session_user, Some(body)) matches
                ChangePasswordStepView::Load(change) && {
                &&& change.username == username
                &&& change.old_password == body.old_password
                &&& change.new_password == body.new_password
            })
        }),
{
}

/// A change is refused exactly if the lookup failed, if there is no row, or if the
/// old password does not fit the row's hash.
pub proof fn change_is_refused_without_the_old_password(
    change: PasswordChangeView,
    loaded: LoadedUser,
)
    ensures
        loaded is Err ==> change_refused(change, loaded) == Some(Status::InternalServerError),
        loaded matches Ok(None) ==> change_refused(change, loaded) == Some(Status::Unauthorized),
        loaded matches Ok(Some(user)) ==> if password_fits(
            change.old_password,
            user.password_hash@,
        ) {
            change_refused(change, loaded) is None
        } else {
            change_refused(change, loaded) == Some(Status::Unauthorized)
        },
{
}

/// The new hash goes to the row of the user it was made for.
pub proof fn update_goes_to_the_users_row(
    user: UserRecordView,
    hashed: Result<Seq<char>, Status>,
)
    ensures
        hashed matches Ok(hash) ==> (update_for(user, hashed) matches Ok(update) && {
            &&& update.id == user.id
            &&& update.username == user.username
            &&& update.password_hash == hash
        }),
        hashed matches Err(status) ==> update_for(user, hashed) == Err::<
            PasswordUpdateView,
            Status,
        >(status),
{
}

/// Once the new hash is written, every session of the account is gone but the one
/// to be kept, and nothing else changes; if it could not be written, nothing
/// changes at all.
pub proof fn written_password_ends_the_accounts_sessions(
    before: WebStateView,
    after: WebStateView,
    username: Seq<char>,
    keep: Option<Seq<char>>,
    stored: Result<(), String>,
    res: Result<ReplyView, Status>,
    token: Seq<char>,
)
    requires
        password_stored(before, after, username, keep, stored, res),
    ensures
        stored is Err ==> res == Err::<ReplyView, Status>(Status::InternalServerError) && after
            == before,
        stored is Ok ==> {
            &&& res matches Ok(reply) && {
                &&& reply.status == Status::Success
                &&& reply.set_cookie is None
                &&& reply.body == ReplyBodyView::Acknowledged
            }
            &&& same_but_for_sessions(after, before)
            &&& after.sessions.contains_key(token) <==> before.sessions.contains_key(token) && (
            !same_ignoring_case(before.sessions[token].username, username) || keep == Some(token))
            &&& after.sessions.contains_key(token) ==> after.sessions[token]
                == before.sessions[token]
            &&& before.sessions.contains_key(token) && !after.sessions.contains_key(token)
                ==> after.cleared_owners.contains(token)
        },
{
    if stored is Ok {
        dropping_takes_exactly_the_users_sessions(before, after, username, keep, token);
        let n = before.cleared_owners.len() as int;
        let noted = after.cleared_owners.skip(n);
        if noted.contains(token) {
            let i = noted.index_of(token);
            assert(after.cleared_owners[n + i] == token);
        }
    }
}

/// A change is seen field by field as it is, and a step as the one it is.
pub proof fn changes_are_seen_as_they_are(
    change: PasswordChange,
    update: PasswordUpdate,
    res: Result<Reply, Status>,
    status: Status,
)
    ensures
        change@.username == change.username@,
        change@.old_password == change.old_password@,
        change@.new_password == change.new_password@,
        ChangePasswordStep::Load(change)@ == ChangePasswordStepView::Load(change@),
        ChangePasswordStep::Done(res)@ == ChangePasswordStepView::Done(reply_of(res)),
        update_of(Ok(update)) == Ok::<PasswordUpdateView, Status>(update@),
        update_of(Err(status)) == Err::<PasswordUpdateView, Status>(status),
{
}

} // verus!
