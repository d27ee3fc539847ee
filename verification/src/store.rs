//! What goes to the users table and what comes back from it.

use vstd::prelude::*;

verus! {

/// A row of the users table.
#[derive(Debug)]
pub struct UserRecord {
    pub id: i64,
    pub username: String,
    pub password_hash: String,
    pub is_admin: bool,
    pub created_at: i64,
}

/// The contents of a [`UserRecord`].
pub struct UserRecordView {
    pub id: i64,
    pub username: Seq<char>,
    pub password_hash: Seq<char>,
    pub is_admin: bool,
    pub created_at: i64,
}

impl View for UserRecord {
    type V = UserRecordView;

    open spec fn view(&self) -> UserRecordView {
        UserRecordView {
            id: self.id,
            username: self.username@,
            password_hash: self.password_hash@,
            is_admin: self.is_admin,
            created_at: self.created_at,
        }
    }
}

/// What came back from looking a user up; a failure carries the message of the
/// store.
pub type LoadedUser = Result<Option<UserRecord>, String>;

/// What came back from listing the users table.
pub type ListedUsers = Result<Vec<UserRecord>, String>;

/// The contents of a list of users.
pub open spec fn records(users: Seq<UserRecord>) -> Seq<UserRecordView> {
    users.map_values(|user: UserRecord| user@)
}

/// A new password hash for a row of the users table.
#[derive(Debug)]
pub struct PasswordUpdate {
    pub id: i64,
    pub username: String,
    pub password_hash: String,
}

/// The contents of a [`PasswordUpdate`].
pub struct PasswordUpdateView {
    pub id: i64,
    pub username: Seq<char>,
    pub password_hash: Seq<char>,
}

impl View for PasswordUpdate {
    type V = PasswordUpdateView;

    open spec fn view(&self) -> PasswordUpdateView {
        PasswordUpdateView {
            id: self.id,
            username: self.username@,
            password_hash: self.password_hash@,
        }
    }
}

/// A new row of the users table.
#[derive(Debug)]
pub struct NewUser {
    pub username: String,
    pub password_hash: String,
    pub is_admin: bool,
}

/// The contents of a [`NewUser`].
pub struct NewUserView {
    pub username: Seq<char>,
    pub password_hash: Seq<char>,
    pub is_admin: bool,
}

impl View for NewUser {
    type V = NewUserView;

    open spec fn view(&self) -> NewUserView {
        NewUserView {
            username: self.username@,
            password_hash: self.password_hash@,
            is_admin: self.is_admin,
        }
    }
}

/// What became of a row that was to be deleted. Row and rule are checked in one
/// transaction.
#[derive(Clone, Copy, Debug, PartialEq, Eq, Structural)]
pub enum DeleteUserResult {
    /// It is gone, and so many rows are left.
    Deleted { remaining: u64 },
    /// It is the only row.
    LastUser,
    /// It is the only admin, and no account of the host stands in.
    LastAdmin,
    /// There is no such row.
    NotFound,
}

/// Every field of a row is seen as it is, and the rows of a list one by one.
pub proof fn rows_are_seen_as_they_are(
    user: UserRecord,
    new: NewUser,
    update: PasswordUpdate,
    users: Seq<UserRecord>,
)
    ensures
        user@.id == user.id,
        user@.username == user.username@,
        user@.password_hash == user.password_hash@,
        user@.is_admin == user.is_admin,
        user@.created_at == user.created_at,
        new@.username == new.username@,
        new@.password_hash == new.password_hash@,
        new@.is_admin == new.is_admin,
        update@.id == update.id,
        update@.username == update.username@,
        update@.password_hash == update.password_hash@,
        records(users).len() == users.len(),
        forall|i: int| 0 <= i < users.len() ==> #[trigger] records(users)[i] == users[i]@,
{
}

} // verus!
