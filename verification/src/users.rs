//! Managing the accounts in the users table: creating and deleting them, and
//! giving them a new password. Every step takes the right of an admin.

use axum::http::HeaderMap;
use vstd::prelude::*;
use vstd::string::*;

use crate::account::{env_account, is_env_account, AdminSession};
use crate::change_password::{password_stored, password_update, update_for, update_of};
use crate::cookie::{request_token, session_token_from_headers};
use crate::password::{hash_outcome, hash_password, password_fits, text_or_status};
use crate::reply::{
    acknowledgement, refusal, reply_of, Reply, ReplyBodyView, ReplyView, Status,
};
use crate::request::{CreateUserRequest, ResetPasswordRequest};
use crate::session::{
    dropped_sessions_are_dead, dropping_takes_exactly_the_users_sessions, drop_sessions_for_user,
    session_user, user_sessions_dropped,
};
use crate::setup::{new_user, row_for};
use crate::state::{same_but_for_sessions, WebState, WebStateView};
use crate::store::{
    records, DeleteUserResult, ListedUsers, LoadedUser, NewUser, NewUserView, PasswordUpdate,
    PasswordUpdateView, UserRecord, UserRecordView,
};
use crate::text::{
    containing_is_being_around, contains, contains_text, eq_ignore_ascii_case, same_ignoring_case,
    trim, trimmed, trimming_finds_the_core, whitespace,
};

verus! {

/// An account that is to be created.
#[derive(Debug)]
pub struct AccountRequest {
    pub username: String,
    pub password: String,
    pub is_admin: bool,
}

/// The contents of an [`AccountRequest`].
pub struct AccountRequestView {
    pub username: Seq<char>,
    pub password: Seq<char>,
    pub is_admin: bool,
}

impl View for AccountRequest {
    type V = AccountRequestView;

    open spec fn view(&self) -> AccountRequestView {
        AccountRequestView {
            username: self.username@,
            password: self.password@,
            is_admin: self.is_admin,
        }
    }
}

/// How far the creation of an account got.
#[derive(Debug)]
pub enum CreateUserStep {
    /// It is answered.
    Done(Result<Reply, Status>),
    /// The name is to be looked up in the users table.
    Load(AccountRequest),
    /// The row is to be written.
    Store(NewUser),
}

/// The contents of a [`CreateUserStep`].
pub enum CreateUserStepView {
    Done(Result<ReplyView, Status>),
    Load(AccountRequestView),
    Store(NewUserView),
}

impl View for CreateUserStep {
    type V = CreateUserStepView;

    open spec fn view(&self) -> CreateUserStepView {
        match self {
            CreateUserStep::Done(res) => CreateUserStepView::Done(reply_of(*res)),
            CreateUserStep::Load(account) => CreateUserStepView::Load(account@),
            CreateUserStep::Store(user) => CreateUserStepView::Store(user@),
        }
    }
}

/// The reply that says that a name is taken.
pub open spec fn name_taken() -> ReplyView {
    refusal(Status::Conflict, "Username already exists"@)
}

/// The first step in creating an account: a blank name and an empty password
/// are bad requests, and the names of the host's accounts are taken.
pub open spec fn create_step(
    state: WebStateView,
    username: Seq<char>,
    password: Seq<char>,
    is_admin: Option<bool>,
) -> CreateUserStepView {
    let name = trimmed(username);
    if name.len() == 0 || password.len() == 0 {
        CreateUserStepView::Done(Err(Status::BadRequest))
    } else if env_account(state, name) {
        CreateUserStepView::Done(Ok(name_taken()))
    } else {
        CreateUserStepView::Load(
            AccountRequestView { username: name, password, is_admin: is_admin == Some(true) },
        )
    }
}

/// Begins the creation of an account.
pub fn create_user(_admin: &AdminSession, state: &WebState, body: CreateUserRequest) -> (res:
    CreateUserStep)
    ensures
        res@ == create_step(state@, body.username@, body.password@, body.is_admin),
{
    let username: &str = trim(body.username.as_str());
    if username.is_empty() || body.password.as_str().is_empty() {
        return CreateUserStep::Done(Err(Status::BadRequest));
    }
    if is_env_account(state, username) {
        return CreateUserStep::Done(
            Ok(Reply::refuse(Status::Conflict, "Username already exists")),
        );
    }
    let is_admin: bool = match body.is_admin {
        Some(is_admin) => is_admin,
        None => false,
    };
    CreateUserStep::Load(
        AccountRequest { username: username.to_string(), password: body.password, is_admin },
    )
}

/// The step that follows from the hash of a new account's password.
pub open spec fn create_hashed(
    account: AccountRequestView,
    hashed: Result<Seq<char>, Status>,
) -> CreateUserStepView {
    match row_for(account.username, account.is_admin, hashed) {
        Ok(user) => CreateUserStepView::Store(user),
        Err(status) => CreateUserStepView::Done(Err(status)),
    }
}

/// Goes on with the creation of an account once its password was hashed.
pub fn create_user_hashed(
    _admin: &AdminSession,
    account: AccountRequest,
    hashed: Result<String, Status>,
) -> (res: CreateUserStep)
    ensures
        res@ == create_hashed(account@, text_or_status(hashed)),
{
    match new_user(account.username, account.is_admin, hashed) {
        Ok(user) => CreateUserStep::Store(user),
        Err(status) => CreateUserStep::Done(Err(status)),
    }
}

/// Goes on with the creation of an account after its name was looked up: a name
/// that is found is taken; otherwise the password is hashed.
pub fn create_user_loaded(
    admin: &AdminSession,
    account: AccountRequest,
    loaded: LoadedUser,
) -> (res: CreateUserStep)
    ensures
        match loaded {
            Err(_) => res@ == CreateUserStepView::Done(Err(Status::InternalServerError)),
            Ok(Some(_)) => res@ == CreateUserStepView::Done(Ok(name_taken())),
            Ok(None) => exists|hashed: Result<Seq<char>, Status>| #[trigger]
                hash_outcome(account.password@, hashed) && res@ == create_hashed(
                    account@,
                    hashed,
                ),
        },
        res matches CreateUserStep::Store(user) ==> {
            &&& user.username@ == account.username@
            &&& user.is_admin == account.is_admin
            &&& password_fits(account.password@, user.password_hash@)
        },
{
    match loaded {
        Err(_) => CreateUserStep::Done(Err(Status::InternalServerError)),
        Ok(Some(_)) => CreateUserStep::Done(
            Ok(Reply::refuse(Status::Conflict, "Username already exists")),
        ),
        Ok(None) => {
            let hashed: Result<String, Status> = hash_password(account.password.as_str());
            let ghost outcome = text_or_status(hashed);
            assert(hash_outcome(account.password@, outcome));
            create_user_hashed(admin, account, hashed)
        },
    }
}

/// The answer to a creation, from what the users table said. Another creation
/// may have taken the name first: the table has the last word on that.
pub open spec fn creation_reply(stored: Result<i64, String>) -> Result<ReplyView, Status> {
    match stored {
        Ok(_) => Ok(acknowledgement()),
        Err(message) => if contains_text(message@, "UNIQUE constraint failed"@) {
            Err(Status::Conflict)
        } else {
            Err(Status::InternalServerError)
        },
    }
}

/// Ends the creation of an account after its row was written.
pub fn create_user_stored(
    _admin: &AdminSession,
    state: &mut WebState,
    stored: Result<i64, String>,
) -> (res: Result<Reply, Status>)
    requires
        old(state).wf(),
    ensures
        final(state).wf(),
        reply_of(res) == creation_reply(stored),
        final(state)@ == (if stored is Ok {
            WebStateView { has_db_users: true, ..old(state)@ }
        } else {
            old(state)@
        }),
{
    match stored {
        Ok(_) => {
            state.has_db_users = true;
            Ok(Reply::acknowledge())
        },
        Err(message) => if contains(message.as_str(), "UNIQUE constraint failed") {
            Err(Status::Conflict)
        } else {
            Err(Status::InternalServerError)
        },
    }
}

/// The first user with this id.
pub open spec fn user_with_id(users: Seq<UserRecordView>, id: i64) -> Option<UserRecordView>
    decreases users.len(),
{
    if users.len() == 0 {
        None
    } else if users[0].id == id {
        Some(users[0])
    } else {
        user_with_id(users.drop_first(), id)
    }
}

proof fn lemma_user_with_id(users: Seq<UserRecordView>, id: i64, at: int)
    requires
        0 <= at <= users.len(),
        forall|i: int| 0 <= i < at ==> (#[trigger] users[i]).id != id,
        at < users.len() ==> users[at].id == id,
    ensures
        user_with_id(users, id) == (if at < users.len() {
            Some(users[at])
        } else {
            None
        }),
    decreases at,
{
    if at > 0 {
        let rest = users.drop_first();
        assert(forall|i: int| 0 <= i < at - 1 ==> rest[i] == users[i + 1]);
        lemma_user_with_id(rest, id, at - 1);
    }
}

/// Finds the first user with this id.
fn find_user(listed: Vec<UserRecord>, id: i64) -> (res: Option<UserRecord>)
    ensures
        user_with_id(records(listed@), id) == (match res {
            Some(user) => Some(user@),
            None => None,
        }),
        res matches Some(user) ==> user.id == id,
{
    let ghost all = records(listed@);
    let mut users: Vec<UserRecord> = listed;
    let mut i: usize = 0;
    while i < users.len()
        invariant
            i <= users@.len(),
            all == records(users@),
            all == records(listed@),
            forall|j: int| 0 <= j < i ==> (#[trigger] all[j]).id != id,
        decreases users.len() - i,
    {
        assert(all[i as int] == users@[i as int]@);
        if users[i].id == id {
            proof {
                lemma_user_with_id(all, id, i as int);
            }
            return Some(users.swap_remove(i));
        }
        i = i + 1;
    }
    proof {
        lemma_user_with_id(all, id, all.len() as int);
    }
    None
}

/// A row that is to be deleted.
#[derive(Debug)]
pub struct UserDeletion {
    pub id: i64,
    pub username: String,
    /// May the last admin of the table go?
    pub allow_delete_last_admin: bool,
}

/// The contents of a [`UserDeletion`].
pub struct UserDeletionView {
    pub id: i64,
    pub username: Seq<char>,
    pub allow_delete_last_admin: bool,
}

impl View for UserDeletion {
    type V = UserDeletionView;

    open spec fn view(&self) -> UserDeletionView {
        UserDeletionView {
            id: self.id,
            username: self.username@,
            allow_delete_last_admin: self.allow_delete_last_admin,
        }
    }
}

/// How far the deletion of an account got.
#[derive(Debug)]
pub enum DeleteUserStep {
    /// It is answered.
    Done(Result<Reply, Status>),
    /// The row is to be deleted, if it is not the last one.
    Delete(UserDeletion),
}

/// The contents of a [`DeleteUserStep`].
pub enum DeleteUserStepView {
    Done(Result<ReplyView, Status>),
    Delete(UserDeletionView),
}

impl View for DeleteUserStep {
    type V = DeleteUserStepView;

    open spec fn view(&self) -> DeleteUserStepView {
        match self {
            DeleteUserStep::Done(res) => DeleteUserStepView::Done(reply_of(*res)),
            DeleteUserStep::Delete(deletion) => DeleteUserStepView::Delete(deletion@),
        }
    }
}

/// The first step in deleting an account: it must exist and not be the admin's
/// own. The last admin of the table may only go where the host provides
/// accounts, which are always admins.
pub open spec fn delete_step(
    state: WebStateView,
    admin: Seq<char>,
    id: i64,
    listed: Option<Seq<UserRecordView>>,
) -> DeleteUserStepView {
    match listed {
        None => DeleteUserStepView::Done(Err(Status::InternalServerError)),
        Some(users) => match user_with_id(users, id) {
            None => DeleteUserStepView::Done(Err(Status::NotFound)),
            Some(target) => if same_ignoring_case(admin, target.username) {
                DeleteUserStepView::Done(
                    Ok(refusal(Status::BadRequest, "You cannot delete your own account"@)),
                )
            } else {
                DeleteUserStepView::Delete(
                    UserDeletionView {
                        id,
                        username: target.username,
                        allow_delete_last_admin: state.bootstrap_users.len() > 0,
                    },
                )
            },
        },
    }
}

/// The users that were listed, if the listing worked.
pub open spec fn listed_records(listed: ListedUsers) -> Option<Seq<UserRecordView>> {
    match listed {
        Ok(users) => Some(records(users@)),
        Err(_) => None,
    }
}

/// Begins the deletion of an account after the users table was listed.
pub fn delete_user(admin: &AdminSession, state: &WebState, id: i64, listed: ListedUsers) -> (res:
    DeleteUserStep)
    ensures
        res@ == delete_step(state@, admin@, id, listed_records(listed)),
{
    let users: Vec<UserRecord> = match listed {
        Ok(users) => users,
        Err(_) => {
            return DeleteUserStep::Done(Err(Status::InternalServerError));
        },
    };
    let target: UserRecord = match find_user(users, id) {
        Some(target) => target,
        None => {
            return DeleteUserStep::Done(Err(Status::NotFound));
        },
    };
    if eq_ignore_ascii_case(admin.username(), target.username.as_str()) {
        return DeleteUserStep::Done(
            Ok(Reply::refuse(Status::BadRequest, "You cannot delete your own account")),
        );
    }
    DeleteUserStep::Delete(
        UserDeletion {
            id,
            username: target.username,
            allow_delete_last_admin: state.bootstrap_users.len() > 0,
        },
    )
}

/// The answer to a deletion, from what the users table said.
pub open spec fn deletion_reply(outcome: Result<DeleteUserResult, String>) -> Result<
    ReplyView,
    Status,
> {
    match outcome {
        Err(_) => Err(Status::InternalServerError),
        Ok(DeleteUserResult::Deleted { .. }) => Ok(acknowledgement()),
        Ok(DeleteUserResult::LastUser) => Ok(
            refusal(Status::BadRequest, "Cannot delete the last user account"@),
        ),
        Ok(DeleteUserResult::LastAdmin) => Ok(
            refusal(Status::BadRequest, "Cannot delete the last admin account"@),
        ),
        Ok(DeleteUserResult::NotFound) => Err(Status::NotFound),
    }
}

/// `after` is what becomes of `before` when the users table was asked to delete
/// the account: if the row is gone, so are all of its sessions, and it is known
/// whether rows are left; otherwise nothing changes.
pub open spec fn deletion_done(
    before: WebStateView,
    after: WebStateView,
    username: Seq<char>,
    outcome: Result<DeleteUserResult, String>,
) -> bool {
    match outcome {
        Ok(DeleteUserResult::Deleted { remaining }) => user_sessions_dropped(
            WebStateView { has_db_users: remaining > 0, ..before },
            after,
            username,
            None,
        ),
        _ => after == before,
    }
}

/// Ends the deletion of an account after the users table was asked.
pub fn delete_user_done(
    _admin: &AdminSession,
    state: &mut WebState,
    username: &str,
    outcome: Result<DeleteUserResult, String>,
) -> (res: Result<Reply, Status>)
    requires
        old(state).wf(),
    ensures
        final(state).wf(),
        reply_of(res) == deletion_reply(outcome),
        deletion_done(old(state)@, final(state)@, username@, outcome),
{
    match outcome {
        Err(_) => Err(Status::InternalServerError),
        Ok(DeleteUserResult::Deleted { remaining }) => {
            state.has_db_users = remaining > 0;
            drop_sessions_for_user(state, username, None);
            Ok(Reply::acknowledge())
        },
        Ok(DeleteUserResult::LastUser) => Ok(
            Reply::refuse(Status::BadRequest, "Cannot delete the last user account"),
        ),
        Ok(DeleteUserResult::LastAdmin) => Ok(
            Reply::refuse(Status::BadRequest, "Cannot delete the last admin account"),
        ),
        Ok(DeleteUserResult::NotFound) => Err(Status::NotFound),
    }
}

/// Begins a reset of an account's password: an empty one is a bad request.
pub fn reset_user_password(_admin: &AdminSession, body: ResetPasswordRequest) -> (res: Result<
    String,
    Status,
>)
    ensures
        text_or_status(res) == (if body.password@.len() == 0 {
            Err(Status::BadRequest)
        } else {
            Ok(body.password@)
        }),
{
    if body.password.as_str().is_empty() {
        return Err(Status::BadRequest);
    }
    Ok(body.password)
}

/// The status with which a reset is refused after the users table was listed.
pub open spec fn reset_refused(id: i64, listed: Option<Seq<UserRecordView>>) -> Option<Status> {
    match listed {
        None => Some(Status::InternalServerError),
        Some(users) => if user_with_id(users, id) is None {
            Some(Status::NotFound)
        } else {
            None
        },
    }
}

/// Goes on with a reset after the users table was listed: the account must
/// exist, and the new password is hashed.
pub fn reset_password_listed(
    _admin: &AdminSession,
    id: i64,
    password: String,
    listed: ListedUsers,
) -> (res: Result<PasswordUpdate, Status>)
    ensures
        match reset_refused(id, listed_records(listed)) {
            Some(status) => update_of(res) == Err::<PasswordUpdateView, Status>(status),
            None => exists|hashed: Result<Seq<char>, Status>| #[trigger]
                hash_outcome(password@, hashed) && update_of(res) == update_for(
                    user_with_id(listed_records(listed)->Some_0, id)->Some_0,
                    hashed,
                ),
        },
        res matches Ok(update) ==> update.id == id && password_fits(
            password@,
            update.password_hash@,
        ),
{
    let users: Vec<UserRecord> = match listed {
        Ok(users) => users,
        Err(_) => {
            return Err(Status::InternalServerError);
        },
    };
    let target: UserRecord = match find_user(users, id) {
        Some(target) => target,
        None => {
            return Err(Status::NotFound);
        },
    };
    let hashed: Result<String, Status> = hash_password(password.as_str());
    let ghost outcome = text_or_status(hashed);
    assert(hash_outcome(password@, outcome));
    password_update(target, hashed)
}

/// The session that outlives a reset: the one that the request came from, unless
/// the admin reset their own password.
pub open spec fn session_kept_by_reset(
    admin: Seq<char>,
    username: Seq<char>,
    token: Option<Seq<char>>,
) -> Option<Seq<char>> {
    if same_ignoring_case(admin, username) {
        None
    } else {
        token
    }
}

/// Ends a reset after the new hash was written: every session of the account
/// ends. The session that the request came from stays where it belongs to
/// another account.
pub fn reset_password_stored(
    admin: &AdminSession,
    state: &mut WebState,
    headers: &HeaderMap,
    username: &str,
    stored: Result<(), String>,
) -> (res: Result<Reply, Status>)
    requires
        old(state).wf(),
    ensures
        final(state).wf(),
        password_stored(
            old(state)@,
            final(state)@,
            username@,
            session_kept_by_reset(admin@, username@, request_token(*headers)),
            stored,
            reply_of(res),
        ),
{
    if stored.is_err() {
        return Err(Status::InternalServerError);
    }
    if eq_ignore_ascii_case(admin.username(), username) {
        drop_sessions_for_user(state, username, None);
        return Ok(Reply::acknowledge());
    }
    match session_token_from_headers(headers) {
        Some(token) => drop_sessions_for_user(state, username, Some(token.as_str())),
        None => drop_sessions_for_user(state, username, None),
    }
    Ok(Reply::acknowledge())
}

/// Nobody deletes their own account, in whatever casing they signed in, nor one
/// that does not exist; and the last admin may only go where the host provides
/// accounts.
pub proof fn own_account_is_never_deleted(
    state: WebStateView,
    admin: Seq<char>,
    id: i64,
    listed: Option<Seq<UserRecordView>>,
)
    ensures
        delete_step(state, admin, id, listed) matches DeleteUserStepView::Delete(deletion) ==> {
            &&& !same_ignoring_case(admin, deletion.username)
            &&& deletion.id == id
            &&& listed matches Some(users) && user_with_id(users, id) matches Some(target)
                && target.username == deletion.username
            &&& deletion.allow_delete_last_admin == (state.bootstrap_users.len() > 0)
        },
{
}

/// A deleted account is signed out everywhere, in whatever casing it signed in,
/// and nobody else is.
pub proof fn deletion_signs_out(
    before: WebStateView,
    after: WebStateView,
    username: Seq<char>,
    remaining: u64,
    token: Seq<char>,
    t: u128,
)
    requires
        deletion_done(before, after, username, Ok(DeleteUserResult::Deleted { remaining })),
    ensures
        after.has_db_users == (remaining > 0),
        before.sessions.contains_key(token) && same_ignoring_case(
            before.sessions[token].username,
            username,
        ) ==> session_user(after, token, t) is None,
        !(before.sessions.contains_key(token) && same_ignoring_case(
            before.sessions[token].username,
            username,
        )) ==> session_user(after, token, t) == session_user(before, token, t),
{
    let middle = WebStateView { has_db_users: remaining > 0, ..before };
    dropped_sessions_are_dead(middle, after, username, None, token, t);
}

/// Several deletions that were all decided on the same state, before any row was
/// gone, and of which the users table refused one because it was down to the
/// last row: that one is a bad request and changes nothing, and every other is
/// acknowledged. Rows are known to be left, the accounts that are gone are signed
/// out, and nobody else is, the admin least of all.
pub proof fn last_of_several_deletions_is_refused(
    states: Seq<WebStateView>,
    admin: Seq<char>,
    ids: Seq<i64>,
    listed: Option<Seq<UserRecordView>>,
    targets: Seq<Seq<char>>,
    answers: Seq<Result<DeleteUserResult, String>>,
    last: int,
    token: Seq<char>,
    t: u128,
)
    requires
        states.len() == answers.len() + 1,
        ids.len() == answers.len(),
        targets.len() == answers.len(),
        0 <= last < answers.len(),
        states[0].has_db_users,
        forall|i: int|
            0 <= i < ids.len() ==> delete_step(states[0], admin, #[trigger] ids[i], listed)
                == DeleteUserStepView::Delete(
                UserDeletionView {
                    id: ids[i],
                    username: targets[i],
                    allow_delete_last_admin: states[0].bootstrap_users.len() > 0,
                },
            ),
        forall|i: int|
            0 <= i < answers.len() ==> deletion_done(
                states[i],
                states[i + 1],
                targets[i],
                #[trigger] answers[i],
            ),
        answers[last] == Ok::<DeleteUserResult, String>(DeleteUserResult::LastUser),
        forall|i: int|
            0 <= i < answers.len() && i != last ==> (#[trigger] answers[i] matches Ok(
                DeleteUserResult::Deleted { remaining },
            ) && remaining > 0),
    ensures
        forall|i: int|
            0 <= i < answers.len() ==> deletion_reply(#[trigger] answers[i]) == Ok::<
                ReplyView,
                Status,
            >(
                if i == last {
                    refusal(Status::BadRequest, "Cannot delete the last user account"@)
                } else {
                    acknowledgement()
                },
            ),
        states[last + 1] == states[last],
        states.last().has_db_users,
        gone(states[0], targets, last, token, targets.len() as int) ==> session_user(
            states.last(),
            token,
            t,
        ) is None,
        !gone(states[0], targets, last, token, targets.len() as int) ==> session_user(
            states.last(),
            token,
            t,
        ) == session_user(states[0], token, t),
        states[0].sessions.contains_key(token) && same_ignoring_case(
            states[0].sessions[token].username,
            admin,
        ) ==> session_user(states.last(), token, t) == session_user(states[0], token, t),
{
    let n = targets.len() as int;
    assert(deletion_done(states[last], states[last + 1], targets[last], answers[last]));
    lemma_deletions(states, targets, answers, last, token, n);
    if gone(states[0], targets, last, token, n) {
        let i = choose|i: int|
            0 <= i < n && i != last && same_ignoring_case(
                states[0].sessions[token].username,
                #[trigger] targets[i],
            );
        assert(delete_step(states[0], admin, ids[i], listed) is Delete);
        assert(!same_ignoring_case(admin, targets[i]));
    }
}

/// How many of the rows are left after the first `n` answers of the users table.
pub open spec fn rows_left(
    rows: int,
    answers: Seq<Result<DeleteUserResult, String>>,
    n: int,
) -> int
    decreases n,
{
    if n <= 0 {
        rows
    } else if answers[n - 1] matches Ok(DeleteUserResult::Deleted { .. }) {
        rows_left(rows, answers, n - 1) - 1
    } else {
        rows_left(rows, answers, n - 1)
    }
}

/// The users table deletes a row only while another one is left.
pub open spec fn keeps_last_row(
    rows: int,
    answers: Seq<Result<DeleteUserResult, String>>,
    i: int,
) -> bool {
    let left = rows_left(rows, answers, i);
    if left >= 2 {
        answers[i] == Ok::<DeleteUserResult, String>(
            DeleteUserResult::Deleted { remaining: (left - 1) as u64 },
        )
    } else {
        answers[i] == Ok::<DeleteUserResult, String>(DeleteUserResult::LastUser)
    }
}

/// A users table that deletes a row only while another one is left, and is asked
/// to delete each of its rows, deletes all but one: the one it comes to last is
/// refused, and one row is left.
pub proof fn table_deletes_all_but_one(answers: Seq<Result<DeleteUserResult, String>>)
    requires
        0 < answers.len() <= u64::MAX,
        forall|i: int|
            0 <= i < answers.len() ==> #[trigger] keeps_last_row(answers.len() as int, answers, i),
    ensures
        forall|i: int|
            0 <= i < answers.len() - 1 ==> (#[trigger] answers[i] matches Ok(
                DeleteUserResult::Deleted { remaining },
            ) && remaining == answers.len() - 1 - i),
        answers.last() == Ok::<DeleteUserResult, String>(DeleteUserResult::LastUser),
        rows_left(answers.len() as int, answers, answers.len() as int) == 1,
{
    let n = answers.len() as int;
    assert forall|i: int| 0 <= i < n - 1 implies (#[trigger] answers[i] matches Ok(
        DeleteUserResult::Deleted { remaining },
    ) && remaining == n - 1 - i) by {
        lemma_rows_left(answers, i);
        assert(keeps_last_row(n, answers, i));
    }
    lemma_rows_left(answers, n - 1);
    assert(keeps_last_row(n, answers, n - 1));
}

proof fn lemma_rows_left(answers: Seq<Result<DeleteUserResult, String>>, n: int)
    requires
        0 <= n < answers.len() <= u64::MAX,
        forall|i: int|
            0 <= i < answers.len() ==> #[trigger] keeps_last_row(answers.len() as int, answers, i),
    ensures
        rows_left(answers.len() as int, answers, n) == answers.len() - n,
    decreases n,
{
    if n > 0 {
        lemma_rows_left(answers, n - 1);
        assert(keeps_last_row(answers.len() as int, answers, n - 1));
    }
}

/// The token stands for a session of one of the first `n` targets, not counting
/// the one that stays.
pub open spec fn gone(
    state: WebStateView,
    targets: Seq<Seq<char>>,
    last: int,
    token: Seq<char>,
    n: int,
) -> bool {
    state.sessions.contains_key(token) && exists|i: int|
        0 <= i < n && i != last && same_ignoring_case(
            state.sessions[token].username,
            #[trigger] targets[i],
        )
}

proof fn lemma_deletions(
    states: Seq<WebStateView>,
    targets: Seq<Seq<char>>,
    answers: Seq<Result<DeleteUserResult, String>>,
    last: int,
    token: Seq<char>,
    n: int,
)
    requires
        states.len() == answers.len() + 1,
        targets.len() == answers.len(),
        0 <= last < answers.len(),
        0 <= n <= answers.len(),
        states[0].has_db_users,
        forall|i: int|
            0 <= i < answers.len() ==> deletion_done(
                states[i],
                states[i + 1],
                targets[i],
                #[trigger] answers[i],
            ),
        answers[last] == Ok::<DeleteUserResult, String>(DeleteUserResult::LastUser),
        forall|i: int|
            0 <= i < answers.len() && i != last ==> (#[trigger] answers[i] matches Ok(
                DeleteUserResult::Deleted { remaining },
            ) && remaining > 0),
    ensures
        states[n].has_db_users,
        states[n].session_idle_timeout == states[0].session_idle_timeout,
        states[n].sessions.contains_key(token) <==> states[0].sessions.contains_key(token)
            && !gone(states[0], targets, last, token, n),
        states[n].sessions.contains_key(token) ==> states[n].sessions[token]
            == states[0].sessions[token],
    decreases n,
{
    if n > 0 {
        let m = n - 1;
        lemma_deletions(states, targets, answers, last, token, m);
        assert(deletion_done(states[m], states[m + 1], targets[m], answers[m]));
        if gone(states[0], targets, last, token, m) {
            let i = choose|i: int|
                0 <= i < m && i != last && same_ignoring_case(
                    states[0].sessions[token].username,
                    #[trigger] targets[i],
                );
            assert(same_ignoring_case(states[0].sessions[token].username, targets[i]));
        }
        if m != last && states[0].sessions.contains_key(token) && same_ignoring_case(
            states[0].sessions[token].username,
            targets[m],
        ) {
            assert(gone(states[0], targets, last, token, n));
        }
    }
}

/// A new password signs the account out everywhere but at the caller's session,
/// and nobody else.
pub proof fn new_password_signs_out(
    before: WebStateView,
    after: WebStateView,
    username: Seq<char>,
    keep: Option<Seq<char>>,
    res: Result<ReplyView, Status>,
    token: Seq<char>,
    t: u128,
)
    requires
        password_stored(before, after, username, keep, Ok(()), res),
    ensures
        before.sessions.contains_key(token) && same_ignoring_case(
            before.sessions[token].username,
            username,
        ) && keep != Some(token) ==> session_user(after, token, t) is None,
        keep == Some(token) ==> session_user(after, token, t) == session_user(before, token, t),
        before.sessions.contains_key(token) && !same_ignoring_case(
            before.sessions[token].username,
            username,
        ) ==> session_user(after, token, t) == session_user(before, token, t),
{
    dropped_sessions_are_dead(before, after, username, keep, token, t);
}

/// A reset by another admin signs the account out everywhere and leaves the
/// admin signed in; a reset of one's own password leaves no session of the
/// account at all. Nobody else is affected.
pub proof fn reset_signs_out(
    before: WebStateView,
    after: WebStateView,
    admin: Seq<char>,
    username: Seq<char>,
    acting: Option<Seq<char>>,
    res: Result<ReplyView, Status>,
    token: Seq<char>,
    t: u128,
)
    requires
        password_stored(
            before,
            after,
            username,
            session_kept_by_reset(admin, username, acting),
            Ok(()),
            res,
        ),
    ensures
        same_ignoring_case(admin, username) && session_user(after, token, t) is Some
            ==> !same_ignoring_case(session_user(after, token, t)->Some_0, username),
        before.sessions.contains_key(token) && same_ignoring_case(
            before.sessions[token].username,
            username,
        ) && (acting != Some(token) || same_ignoring_case(admin, username)) ==> session_user(
            after,
            token,
            t,
        ) is None,
        before.sessions.contains_key(token) && !same_ignoring_case(
            before.sessions[token].username,
            username,
        ) ==> session_user(after, token, t) == session_user(before, token, t),
{
    let keep = session_kept_by_reset(admin, username, acting);
    dropped_sessions_are_dead(before, after, username, keep, token, t);
}

/// The names of the host's accounts are taken, in any casing.
pub proof fn host_names_are_taken(
    state: WebStateView,
    i: int,
    username: Seq<char>,
    password: Seq<char>,
    is_admin: Option<bool>,
)
    requires
        0 <= i < state.bootstrap_users.len(),
        same_ignoring_case(state.bootstrap_users[i].username, trimmed(username)),
        trimmed(username).len() > 0,
        password.len() > 0,
    ensures
        create_step(state, username, password, is_admin) == CreateUserStepView::Done(
            Ok(name_taken()),
        ),
{
    assert(env_account(state, trimmed(username)));
}

/// A new account is an admin only where that is asked for, and its password
/// fits the row that is written.
pub proof fn new_account_gets_what_was_asked(
    state: WebStateView,
    username: Seq<char>,
    password: Seq<char>,
    is_admin: Option<bool>,
    hashed: Result<Seq<char>, Status>,
)
    requires
        create_step(state, username, password, is_admin) is Load,
        hash_outcome(password, hashed),
    ensures
        create_hashed(
            create_step(state, username, password, is_admin)->Load_0,
            hashed,
        ) matches CreateUserStepView::Store(user) ==> {
            &&& user.username == trimmed(username)
            &&& user.is_admin == (is_admin == Some(true))
            &&& password_fits(password, user.password_hash)
        },
{
}

/// A new account needs a name that is not blank and a password that is not empty,
/// whoever provides other accounts.
pub proof fn new_account_needs_name_and_password(
    state: WebStateView,
    blank: Seq<char>,
    username: Seq<char>,
    password: Seq<char>,
    is_admin: Option<bool>,
)
    requires
        forall|i: int| 0 <= i < blank.len() ==> whitespace(#[trigger] blank[i]),
    ensures
        create_step(state, blank, password, is_admin) == CreateUserStepView::Done(
            Err(Status::BadRequest),
        ),
        create_step(state, username, Seq::empty(), is_admin) == CreateUserStepView::Done(
            Err(Status::BadRequest),
        ),
{
    let none = Seq::<char>::empty();
    trimming_finds_the_core(none, none, blank);
    assert(none + none + blank =~= blank);
}

/// A name that is no host account's, in whatever casing and whatever whitespace
/// around it, is looked up, with the password and the rights that are asked for;
/// one that is, is taken.
pub proof fn new_account_is_looked_up_as_asked(
    state: WebStateView,
    before: Seq<char>,
    name: Seq<char>,
    after: Seq<char>,
    password: Seq<char>,
    is_admin: Option<bool>,
)
    requires
        forall|i: int| 0 <= i < before.len() ==> whitespace(#[trigger] before[i]),
        forall|i: int| 0 <= i < after.len() ==> whitespace(#[trigger] after[i]),
        name.len() > 0,
        !whitespace(name[0]),
        !whitespace(name.last()),
        password.len() > 0,
    ensures
        ({
            let of_the_host = exists|j: int|
                0 <= j < state.bootstrap_users.len() && same_ignoring_case(
                    (#[trigger] state.bootstrap_users[j]).username,
                    name,
                );
            let step = create_step(state, before + name + after, password, is_admin);
            &&& of_the_host ==> (step matches CreateUserStepView::Done(Ok(reply)) && {
                &&& reply.status == Status::Conflict
                &&& reply.set_cookie is None
                &&& reply.body == ReplyBodyView::Error("Username already exists"@)
            })
            &&& !of_the_host ==> (step matches CreateUserStepView::Load(account) && {
                &&& account.username == name
                &&& account.password == password
                &&& account.is_admin <==> is_admin == Some(true)
            })
        }),
{
    trimming_finds_the_core(before, name, after);
}

/// The row of a new account has its name, its rights and the hash that was made;
/// without a hash nothing is written.
pub proof fn new_row_is_made_from_the_request(
    account: AccountRequestView,
    hashed: Result<Seq<char>, Status>,
)
    ensures
        hashed matches Ok(hash) ==> (create_hashed(account, hashed) matches
            CreateUserStepView::Store(row) && {
            &&& row.username == account.username
            &&& row.is_admin == account.is_admin
            &&& row.password_hash == hash
        }),
        hashed matches Err(status) ==> create_hashed(account, hashed) == CreateUserStepView::Done(
            Err(status),
        ),
{
}

/// A creation is acknowledged if its row was written; if the table speaks of a
/// failed uniqueness constraint, the name was taken meanwhile; any other failure
/// is an internal one.
pub proof fn creation_is_answered_as_the_table_says(
    stored: Result<i64, String>,
    before: Seq<char>,
    after: Seq<char>,
)
    ensures
        stored is Ok ==> (creation_reply(stored) matches Ok(reply) && reply.status
            == Status::Success && reply.set_cookie is None && reply.body
            == ReplyBodyView::Acknowledged),
        stored matches Err(message) ==> {
            &&& message@ == before + "UNIQUE constraint failed"@ + after ==> creation_reply(stored)
                == Err::<ReplyView, Status>(Status::Conflict)
            &&& creation_reply(stored) == Err::<ReplyView, Status>(Status::Conflict) ==> exists|
                a: Seq<char>,
                b: Seq<char>,
            | message@ == #[trigger] (a + "UNIQUE constraint failed"@ + b)
            &&& creation_reply(stored) == Err::<ReplyView, Status>(Status::Conflict)
                || creation_reply(stored) == Err::<ReplyView, Status>(Status::InternalServerError)
        },
{
    if let Err(message) = stored {
        containing_is_being_around(message@, "UNIQUE constraint failed"@);
    }
}

/// The user with an id is the first of the list that has it, and there is none if
/// none has.
pub proof fn user_is_found_by_id(users: Seq<UserRecordView>, id: i64, at: int)
    ensures
        0 <= at < users.len() && users[at].id == id && (forall|i: int|
            0 <= i < at ==> (#[trigger] users[i]).id != id) ==> user_with_id(users, id) == Some(
            users[at],
        ),
        (forall|i: int| 0 <= i < users.len() ==> (#[trigger] users[i]).id != id) ==> user_with_id(
            users,
            id,
        ) is None,
{
    if 0 <= at < users.len() && users[at].id == id && forall|i: int|
        0 <= i < at ==> (#[trigger] users[i]).id != id {
        lemma_user_with_id(users, id, at);
    }
    if forall|i: int| 0 <= i < users.len() ==> (#[trigger] users[i]).id != id {
        lemma_user_with_id(users, id, users.len() as int);
    }
}

/// A deletion goes to the table for an account that exists and is not the admin's
/// own; the last admin may go exactly if the host provides an account.
pub proof fn deletion_is_for_other_accounts(
    state: WebStateView,
    admin: Seq<char>,
    id: i64,
    users: Seq<UserRecordView>,
    at: int,
)
    ensures
        delete_step(state, admin, id, None) == DeleteUserStepView::Done(
            Err(Status::InternalServerError),
        ),
        (forall|i: int| 0 <= i < users.len() ==> (#[trigger] users[i]).id != id) ==> delete_step(
            state,
            admin,
            id,
            Some(users),
        ) == DeleteUserStepView::Done(Err(Status::NotFound)),
        0 <= at < users.len() && users[at].id == id && (forall|i: int|
            0 <= i < at ==> (#[trigger] users[i]).id != id) ==> if same_ignoring_case(
            admin,
            users[at].username,
        ) {
            delete_step(state, admin, id, Some(users)) matches DeleteUserStepView::Done(Ok(reply))
                && reply.status == Status::BadRequest && reply.set_cookie is None && reply.body
                == ReplyBodyView::Error("You cannot delete your own account"@)
        } else {
            delete_step(state, admin, id, Some(users)) matches DeleteUserStepView::Delete(deletion)
                && deletion.id == id && deletion.username == users[at].username
                && deletion.allow_delete_last_admin == (state.bootstrap_users.len() > 0)
        },
{
    user_is_found_by_id(users, id, at);
}

/// A deletion is answered as the table says.
pub proof fn deletion_is_answered_as_the_table_says(outcome: Result<DeleteUserResult, String>)
    ensures
        outcome is Err ==> deletion_reply(outcome) == Err::<ReplyView, Status>(
            Status::InternalServerError,
        ),
        outcome matches Ok(DeleteUserResult::NotFound) ==> deletion_reply(outcome) == Err::<
            ReplyView,
            Status,
        >(Status::NotFound),
        outcome matches Ok(DeleteUserResult::Deleted { .. }) ==> (deletion_reply(outcome) matches
            Ok(reply) && reply.status == Status::Success && reply.set_cookie is None
            && reply.body == ReplyBodyView::Acknowledged),
        outcome matches Ok(DeleteUserResult::LastUser) ==> (deletion_reply(outcome) matches Ok(
            reply,
        ) && reply.status == Status::BadRequest && reply.set_cookie is None && reply.body
            == ReplyBodyView::Error("Cannot delete the last user account"@)),
        outcome matches Ok(DeleteUserResult::LastAdmin) ==> (deletion_reply(outcome) matches Ok(
            reply,
        ) && reply.status == Status::BadRequest && reply.set_cookie is None && reply.body
            == ReplyBodyView::Error("Cannot delete the last admin account"@)),
{
}

/// Only a row that is gone changes anything: its account loses every session, its
/// tokens are noted, and there are accounts in the table exactly if rows are left.
pub proof fn only_a_deleted_row_changes_the_state(
    before: WebStateView,
    after: WebStateView,
    username: Seq<char>,
    outcome: Result<DeleteUserResult, String>,
    token: Seq<char>,
)
    requires
        deletion_done(before, after, username, outcome),
    ensures
        !(outcome matches Ok(DeleteUserResult::Deleted { .. })) ==> after == before,
        outcome matches Ok(DeleteUserResult::Deleted { remaining }) ==> {
            &&& after.has_db_users == (remaining > 0)
            &&& same_but_for_sessions(
                after,
                WebStateView { has_db_users: remaining > 0, ..before },
            )
            &&& after.sessions.contains_key(token) <==> before.sessions.contains_key(token)
                && !same_ignoring_case(before.sessions[token].username, username)
            &&& after.sessions.contains_key(token) ==> after.sessions[token]
                == before.sessions[token]
            &&& before.sessions.contains_key(token) && !after.sessions.contains_key(token)
                ==> after.cleared_owners.contains(token)
        },
{
    if let Ok(DeleteUserResult::Deleted { remaining }) = outcome {
        let middle = WebStateView { has_db_users: remaining > 0, ..before };
        dropping_takes_exactly_the_users_sessions(middle, after, username, None, token);
        let n = before.cleared_owners.len() as int;
        let noted = after.cleared_owners.skip(n);
        if noted.contains(token) {
            let i = noted.index_of(token);
            assert(after.cleared_owners[n + i] == token);
        }
    }
}

/// A reset goes on exactly if the table was listed and has the account.
pub proof fn reset_needs_the_account(id: i64, users: Seq<UserRecordView>, at: int)
    ensures
        reset_refused(id, None) == Some(Status::InternalServerError),
        (forall|i: int| 0 <= i < users.len() ==> (#[trigger] users[i]).id != id) ==> reset_refused(
            id,
            Some(users),
        ) == Some(Status::NotFound),
        0 <= at < users.len() && users[at].id == id ==> reset_refused(id, Some(users)) is None,
{
    user_is_found_by_id(users, id, at);
    if 0 <= at < users.len() && users[at].id == id {
        lemma_some_user_has_id(users, id, at);
    }
}

proof fn lemma_some_user_has_id(users: Seq<UserRecordView>, id: i64, at: int)
    requires
        0 <= at < users.len(),
        users[at].id == id,
    ensures
        user_with_id(users, id) is Some,
    decreases at,
{
    if at > 0 && users[0].id != id {
        assert(users.drop_first()[at - 1] == users[at]);
        lemma_some_user_has_id(users.drop_first(), id, at - 1);
    }
}

/// A reset of another account keeps the acting session, and a reset of one's own,
/// in whatever casing one signed in, keeps none.
pub proof fn reset_keeps_the_acting_session_of_others(
    admin: Seq<char>,
    username: Seq<char>,
    token: Option<Seq<char>>,
)
    ensures
        same_ignoring_case(admin, username) ==> session_kept_by_reset(admin, username, token)
            is None,
        !same_ignoring_case(admin, username) ==> session_kept_by_reset(admin, username, token)
            == token,
{
}

/// Requests and deletions are seen field by field as they are, and steps as the
/// ones they are.
pub proof fn management_steps_are_seen_as_they_are(
    account: AccountRequest,
    deletion: UserDeletion,
    user: NewUser,
    res: Result<Reply, Status>,
    listed: ListedUsers,
)
    ensures
        account@.username == account.username@,
        account@.password == account.password@,
        account@.is_admin == account.is_admin,
        deletion@.id == deletion.id,
        deletion@.username == deletion.username@,
        deletion@.allow_delete_last_admin == deletion.allow_delete_last_admin,
        CreateUserStep::Done(res)@ == CreateUserStepView::Done(reply_of(res)),
        CreateUserStep::Load(account)@ == CreateUserStepView::Load(account@),
        CreateUserStep::Store(user)@ == CreateUserStepView::Store(user@),
        DeleteUserStep::Done(res)@ == DeleteUserStepView::Done(reply_of(res)),
        DeleteUserStep::Delete(deletion)@ == DeleteUserStepView::Delete(deletion@),
        listed matches Ok(users) ==> listed_records(listed) == Some(records(users@)),
        listed is Err ==> listed_records(listed) is None,
{
}

} // verus!
