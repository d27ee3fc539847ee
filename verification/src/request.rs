//! What the clients send, and the two answers that carry data.

use vstd::prelude::*;

use crate::text::owned_text_of;

verus! {

/// Signs a user in.
pub struct LoginRequest {
    /// May be left out: old clients send only a password, which stands for the
    /// account "admin".
    pub username: Option<String>,
    pub password: String,
}

/// Creates the first account.
pub struct SetupRequest {
    pub username: String,
    pub password: String,
}

/// Creates an account.
pub struct CreateUserRequest {
    pub username: String,
    pub password: String,
    /// Shall the new account be an admin? Left out, it is none.
    pub is_admin: Option<bool>,
}

/// Gives an account a new password.
pub struct ResetPasswordRequest {
    pub password: String,
}

/// Replaces a password by its owner.
pub struct ChangePasswordRequest {
    /// May be left out: the session's user is meant, or else "admin".
    pub username: Option<String>,
    pub old_password: String,
    pub new_password: String,
}

/// The contents of a [`ChangePasswordRequest`].
pub struct ChangePasswordView {
    pub username: Option<Seq<char>>,
    pub old_password: Seq<char>,
    pub new_password: Seq<char>,
}

impl View for ChangePasswordRequest {
    type V = ChangePasswordView;

    open spec fn view(&self) -> ChangePasswordView {
        ChangePasswordView {
            username: owned_text_of(self.username),
            old_password: self.old_password@,
            new_password: self.new_password@,
        }
    }
}

/// Whether and as whom a client is signed in.
#[derive(Debug)]
pub struct AuthCheckResponse {
    pub authenticated: bool,
    pub required: bool,
    pub setup_required: bool,
    pub username: Option<String>,
    /// May the signed-in account manage user accounts?
    pub is_admin: bool,
}

/// The contents of an [`AuthCheckResponse`].
pub struct AuthCheckView {
    pub authenticated: bool,
    pub required: bool,
    pub setup_required: bool,
    pub username: Option<Seq<char>>,
    pub is_admin: bool,
}

impl View for AuthCheckResponse {
    type V = AuthCheckView;

    open spec fn view(&self) -> AuthCheckView {
        AuthCheckView {
            authenticated: self.authenticated,
            required: self.required,
            setup_required: self.setup_required,
            username: owned_text_of(self.username),
            is_admin: self.is_admin,
        }
    }
}

/// One account in the list of users.
#[derive(Debug)]
pub struct UserSummary {
    pub id: Option<i64>,
    pub username: String,
    pub created_at: Option<i64>,
    /// Is this an account of the host, which cannot be managed here?
    pub managed_by_env: bool,
    /// Accounts of the host are always admins.
    pub is_admin: bool,
}

/// The contents of a [`UserSummary`].
pub struct UserSummaryView {
    pub id: Option<i64>,
    pub username: Seq<char>,
    pub created_at: Option<i64>,
    pub managed_by_env: bool,
    pub is_admin: bool,
}

impl View for UserSummary {
    type V = UserSummaryView;

    open spec fn view(&self) -> UserSummaryView {
        UserSummaryView {
            id: self.id,
            username: self.username@,
            created_at: self.created_at,
            managed_by_env: self.managed_by_env,
            is_admin: self.is_admin,
        }
    }
}

/// What a client sent, and what it is told, is seen field by field as it is.
pub proof fn requests_are_seen_as_they_are(
    change: ChangePasswordRequest,
    answer: AuthCheckResponse,
    user: UserSummary,
)
    ensures
        change.username matches Some(name) ==> change@.username == Some(name@),
        change.username is None ==> change@.username is None,
        change@.old_password == change.old_password@,
        change@.new_password == change.new_password@,
        answer@.authenticated == answer.authenticated,
        answer@.required == answer.required,
        answer@.setup_required == answer.setup_required,
        answer.username matches Some(name) ==> answer@.username == Some(name@),
        answer.username is None ==> answer@.username is None,
        answer@.is_admin == answer.is_admin,
        user@.id == user.id,
        user@.username == user.username@,
        user@.created_at == user.created_at,
        user@.managed_by_env == user.managed_by_env,
        user@.is_admin == user.is_admin,
{
}

} // verus!
