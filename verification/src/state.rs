//! What the server keeps between requests.

use vstd::prelude::*;

use crate::table::Table;

verus! {

/// Failed logins in a row that lock an account.
pub const MAX_ATTEMPTS: u32 = 5;

/// How long an account stays locked, in seconds.
pub const LOCKOUT_SECS: u128 = 60;

/// Nanoseconds in a second.
pub const NANOS_PER_SEC: u128 = 1_000_000_000;

/// From this many tracked accounts on, the entry of a new one makes those leave
/// that are neither locked nor counting failed logins. This is no bound: where
/// all entries are locked or counting, the table grows past it.
pub const MAX_TRACKED: usize = 4096;

/// An account that the host provides, outside the users table.
pub struct BootstrapUser {
    pub username: String,
    pub password_hash: String,
}

/// The contents of a [`BootstrapUser`].
pub struct BootstrapUserView {
    pub username: Seq<char>,
    pub password_hash: Seq<char>,
}

impl View for BootstrapUser {
    type V = BootstrapUserView;

    open spec fn view(&self) -> BootstrapUserView {
        BootstrapUserView { username: self.username@, password_hash: self.password_hash@ }
    }
}

/// A signed-in session. Instants are nanoseconds on a clock that never runs
/// backwards.
#[derive(Debug)]
pub struct SessionInfo {
    /// The username as it was typed at login.
    pub username: String,
    pub last_active: u128,
}

/// The contents of a [`SessionInfo`].
pub struct SessionView {
    pub username: Seq<char>,
    pub last_active: u128,
}

impl View for SessionInfo {
    type V = SessionView;

    open spec fn view(&self) -> SessionView {
        SessionView { username: self.username@, last_active: self.last_active }
    }
}

/// What is known of an account's failed logins.
#[derive(Clone, Copy)]
pub struct LoginRateLimit {
    pub fail_count: u32,
    pub locked_until: Option<u128>,
}

impl View for LoginRateLimit {
    type V = LoginRateLimit;

    open spec fn view(&self) -> LoginRateLimit {
        *self
    }
}

/// The settings of the server and what it keeps in memory.
pub struct WebState {
    /// Accounts that the host provides, under distinct names.
    pub bootstrap_users: Vec<BootstrapUser>,
    /// Does the users table hold an account?
    pub has_db_users: bool,
    /// Is the server open to everyone?
    pub password_disabled: bool,
    /// The path under which the server is mounted.
    pub public_base_path: String,
    /// Do cookies carry the attribute `Secure`?
    pub cookie_secure: bool,
    /// After how many nanoseconds without a request a session ends.
    pub session_idle_timeout: Option<u128>,
    /// The sessions, by token.
    pub sessions: Table<SessionInfo>,
    /// The failed logins, by the account name with its ASCII letters in lower
    /// case.
    pub login_rate_limit: Table<LoginRateLimit>,
    /// Tokens of ended sessions whose saved passwords are still to be cleared.
    pub cleared_owners: Vec<String>,
}

/// The contents of a [`WebState`].
#[verifier::ext_equal]
pub struct WebStateView {
    pub bootstrap_users: Seq<BootstrapUserView>,
    pub has_db_users: bool,
    pub password_disabled: bool,
    pub public_base_path: Seq<char>,
    pub cookie_secure: bool,
    pub session_idle_timeout: Option<u128>,
    pub sessions: Map<Seq<char>, SessionView>,
    pub login_rate_limit: Map<Seq<char>, LoginRateLimit>,
    pub cleared_owners: Seq<Seq<char>>,
}

/// The texts of a list.
pub open spec fn texts(list: Seq<String>) -> Seq<Seq<char>> {
    list.map_values(|s: String| s@)
}

impl View for WebState {
    type V = WebStateView;

    open spec fn view(&self) -> WebStateView {
        WebStateView {
            bootstrap_users: self.bootstrap_users@.map_values(|u: BootstrapUser| u@),
            has_db_users: self.has_db_users,
            password_disabled: self.password_disabled,
            public_base_path: self.public_base_path@,
            cookie_secure: self.cookie_secure,
            session_idle_timeout: self.session_idle_timeout,
            sessions: self.sessions@,
            login_rate_limit: self.login_rate_limit@,
            cleared_owners: texts(self.cleared_owners@),
        }
    }
}

/// No two accounts of the host have the same name.
pub open spec fn distinct_names(users: Seq<BootstrapUserView>) -> bool {
    forall|i: int, j: int|
        0 <= i < j < users.len() ==> (#[trigger] users[i]).username != (
        #[trigger] users[j]).username
}

/// Every count of failed logins is below the one that locks.
pub open spec fn counts_below_limit(limits: Map<Seq<char>, LoginRateLimit>) -> bool {
    forall|key: Seq<char>| #[trigger]
        limits.contains_key(key) ==> limits[key].fail_count < MAX_ATTEMPTS
}

impl WebState {
    /// What every operation keeps: the accounts of the host have distinct names,
    /// the tables have no duplicate rows, and no count of failed logins has reached
    /// the limit.
    pub open spec fn wf(&self) -> bool {
        &&& distinct_names(self@.bootstrap_users)
        &&& self.sessions.wf()
        &&& self.login_rate_limit.wf()
        &&& counts_below_limit(self.login_rate_limit@)
    }

    /// The state of a server that has just started, with the given settings. The
    /// accounts of the host must have distinct names.
    pub fn new(
        bootstrap_users: Vec<BootstrapUser>,
        has_db_users: bool,
        password_disabled: bool,
        public_base_path: String,
        cookie_secure: bool,
        session_idle_timeout: Option<u128>,
    ) -> (res: WebState)
        requires
            distinct_names(bootstrap_users@.map_values(|u: BootstrapUser| u@)),
        ensures
            res.wf(),
            res@ == (WebStateView {
                bootstrap_users: bootstrap_users@.map_values(|u: BootstrapUser| u@),
                has_db_users,
                password_disabled,
                public_base_path: public_base_path@,
                cookie_secure,
                session_idle_timeout,
                sessions: Map::<Seq<char>, SessionView>::empty(),
                login_rate_limit: Map::<Seq<char>, LoginRateLimit>::empty(),
                cleared_owners: Seq::<Seq<char>>::empty(),
            }),
    {
        let res = WebState {
            bootstrap_users,
            has_db_users,
            password_disabled,
            public_base_path,
            cookie_secure,
            session_idle_timeout,
            sessions: Table::new(),
            login_rate_limit: Table::new(),
            cleared_owners: Vec::new(),
        };
        assert(texts(res.cleared_owners@) =~= Seq::<Seq<char>>::empty());
        res
    }

    /// Hands over the tokens whose saved passwords are to be cleared, each time
    /// it was noted, and notes none any more.
    pub fn take_cleared_owners(&mut self) -> (res: Vec<String>)
        ensures
            texts(res@) == old(self)@.cleared_owners,
            final(self)@ == (WebStateView {
                cleared_owners: Seq::<Seq<char>>::empty(),
                ..old(self)@
            }),
            old(self).wf() ==> final(self).wf(),
    {
        let mut res: Vec<String> = Vec::new();
        std::mem::swap(&mut res, &mut self.cleared_owners);
        assert(texts(self.cleared_owners@) =~= Seq::<Seq<char>>::empty());
        res
    }
}

/// The two states agree in everything but the sessions and the tokens to be
/// cleared.
pub open spec fn same_but_for_sessions(a: WebStateView, b: WebStateView) -> bool {
    &&& a.bootstrap_users == b.bootstrap_users
    &&& a.has_db_users == b.has_db_users
    &&& a.password_disabled == b.password_disabled
    &&& a.public_base_path == b.public_base_path
    &&& a.cookie_secure == b.cookie_secure
    &&& a.session_idle_timeout == b.session_idle_timeout
    &&& a.login_rate_limit == b.login_rate_limit
}

/// Everything that a server keeps is seen in its contents as it is.
pub proof fn state_is_seen_as_it_is(state: WebState)
    ensures
        state@.bootstrap_users.len() == state.bootstrap_users@.len(),
        forall|i: int|
            0 <= i < state.bootstrap_users@.len() ==> {
                &&& (#[trigger] state@.bootstrap_users[i]).username
                    == state.bootstrap_users@[i].username@
                &&& state@.bootstrap_users[i].password_hash
                    == state.bootstrap_users@[i].password_hash@
            },
        state@.has_db_users == state.has_db_users,
        state@.password_disabled == state.password_disabled,
        state@.public_base_path == state.public_base_path@,
        state@.cookie_secure == state.cookie_secure,
        state@.session_idle_timeout == state.session_idle_timeout,
        state@.sessions == state.sessions@,
        state@.login_rate_limit == state.login_rate_limit@,
        state@.cleared_owners.len() == state.cleared_owners@.len(),
        forall|i: int|
            0 <= i < state.cleared_owners@.len() ==> #[trigger] state@.cleared_owners[i]
                == state.cleared_owners@[i]@,
        forall|session: SessionInfo| (#[trigger] session@).username == session.username@
            && session@.last_active == session.last_active,
{
}

} // verus!
