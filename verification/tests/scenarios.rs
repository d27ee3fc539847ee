use axum::http::HeaderMap;
use dbx_web_auth::account::{admin_session_loaded, require_admin_session, AdminSession, AdminStep};
use dbx_web_auth::change_password::{
    change_password, change_password_loaded, change_password_stored, identify_caller,
    ChangePasswordStep,
};
use dbx_web_auth::check::{check, check_loaded, CheckStep};
use dbx_web_auth::guard::{auth_middleware, logout, Access};
use dbx_web_auth::listing::list_users;
use dbx_web_auth::login::{finish_login, login, login_loaded, verify_login, LoginStep};
use dbx_web_auth::password::hash_password;
use dbx_web_auth::reply::{Reply, ReplyBody, Status};
use dbx_web_auth::request::{
    AuthCheckResponse, ChangePasswordRequest, CreateUserRequest, LoginRequest, ResetPasswordRequest,
    SetupRequest, UserSummary,
};
use dbx_web_auth::setup::{first_user, setup, setup_created, FirstAccount};
use dbx_web_auth::state::{BootstrapUser, WebState};
use dbx_web_auth::store::{DeleteUserResult, ListedUsers, LoadedUser, UserRecord};
use dbx_web_auth::users::{
    create_user, create_user_loaded, create_user_stored, delete_user, delete_user_done,
    reset_password_listed, reset_password_stored, reset_user_password, CreateUserStep,
    DeleteUserStep,
};

const SECOND: u128 = 1_000_000_000;

/// A users table in memory.
struct Store {
    rows: Vec<UserRecord>,
    next_id: i64,
    broken: bool,
}

fn copy(row: &UserRecord) -> UserRecord {
    UserRecord {
        id: row.id,
        username: row.username.clone(),
        password_hash: row.password_hash.clone(),
        is_admin: row.is_admin,
        created_at: row.created_at,
    }
}

impl Store {
    fn failure<T>(&self) -> Result<T, String> {
        Err("database is locked".to_string())
    }

    fn load(&self, username: &str) -> LoadedUser {
        if self.broken {
            return self.failure();
        }
        Ok(self.rows.iter().find(|row| row.username.eq_ignore_ascii_case(username)).map(copy))
    }

    fn list(&self) -> ListedUsers {
        if self.broken {
            return self.failure();
        }
        Ok(self.rows.iter().map(copy).collect())
    }

    fn create(&mut self, username: &str, password_hash: &str, is_admin: bool) -> Result<i64, String> {
        if self.broken {
            return self.failure();
        }
        if self.rows.iter().any(|row| row.username.eq_ignore_ascii_case(username)) {
            return Err("UNIQUE constraint failed: users.username".to_string());
        }
        let id = self.next_id;
        self.next_id += 1;
        self.rows.push(UserRecord {
            id,
            username: username.to_string(),
            password_hash: password_hash.to_string(),
            is_admin,
            created_at: 1000 + id,
        });
        Ok(id)
    }

    fn create_first(&mut self, username: &str, password_hash: &str) -> Result<Option<i64>, String> {
        if self.broken {
            return self.failure();
        }
        if !self.rows.is_empty() {
            return Ok(None);
        }
        self.create(username, password_hash, true).map(Some)
    }

    fn update_password(&mut self, id: i64, password_hash: &str) -> Result<(), String> {
        if self.broken {
            return self.failure();
        }
        for row in self.rows.iter_mut() {
            if row.id == id {
                row.password_hash = password_hash.to_string();
            }
        }
        Ok(())
    }

    fn delete_if_not_last(&mut self, id: i64, allow_last_admin: bool) -> Result<DeleteUserResult, String> {
        if self.broken {
            return self.failure();
        }
        let Some(at) = self.rows.iter().position(|row| row.id == id) else {
            return Ok(DeleteUserResult::NotFound);
        };
        if self.rows.len() == 1 {
            return Ok(DeleteUserResult::LastUser);
        }
        let admins = self.rows.iter().filter(|row| row.is_admin).count();
        if self.rows[at].is_admin && admins == 1 && !allow_last_admin {
            return Ok(DeleteUserResult::LastAdmin);
        }
        self.rows.remove(at);
        Ok(DeleteUserResult::Deleted { remaining: self.rows.len() as u64 })
    }
}

/// A server that performs what the library asks for.
struct Server {
    state: WebState,
    store: Store,
    now: u128,
}

fn server(hosts: &[(&str, &str)], cookie_secure: bool, idle: Option<u128>) -> Server {
    let hosts = hosts
        .iter()
        .map(|(name, password)| BootstrapUser {
            username: name.to_string(),
            password_hash: hash_password(password).unwrap(),
        })
        .collect();
    Server {
        state: WebState::new(hosts, false, false, "/".to_string(), cookie_secure, idle),
        store: Store { rows: Vec::new(), next_id: 1, broken: false },
        now: 1_000 * SECOND,
    }
}

fn cookie_headers(token: &str) -> HeaderMap {
    let mut headers = HeaderMap::new();
    headers.insert("cookie", format!("dbx_session={token}").parse().unwrap());
    headers
}

fn token_of(reply: &Reply) -> String {
    let cookie = reply.set_cookie.as_deref().expect("a session cookie");
    cookie.strip_prefix("dbx_session=").unwrap().split(';').next().unwrap().to_string()
}

fn message_of(reply: &Reply) -> &str {
    match &reply.body {
        ReplyBody::Error(message) => message,
        ReplyBody::Acknowledged => "",
    }
}

impl Server {
    fn add_user(&mut self, username: &str, password: &str, is_admin: bool) -> i64 {
        self.state.has_db_users = true;
        self.store.create(username, &hash_password(password).unwrap(), is_admin).unwrap()
    }

    fn login(&mut self, username: Option<&str>, password: &str) -> Result<Reply, Status> {
        let body = LoginRequest {
            username: username.map(|name| name.to_string()),
            password: password.to_string(),
        };
        let attempt = match login(&self.state, body, self.now) {
            LoginStep::Done(reply) => return Ok(reply),
            LoginStep::Verify(attempt) => attempt,
            LoginStep::Load(attempt) => {
                let loaded = self.store.load(&attempt.username);
                login_loaded(&self.state, attempt, loaded)
            }
        };
        let verified = verify_login(&attempt);
        finish_login(&mut self.state, attempt.username, verified, self.now)
    }

    fn login_token(&mut self, username: Option<&str>, password: &str) -> String {
        token_of(&self.login(username, password).unwrap())
    }

    fn setup(&mut self, username: &str, password: &str) -> Result<Reply, Status> {
        let body = SetupRequest { username: username.to_string(), password: password.to_string() };
        let account = setup(&self.state, body)?;
        self.finish_setup(account)
    }

    fn finish_setup(&mut self, account: FirstAccount) -> Result<Reply, Status> {
        let user = first_user(account)?;
        assert!(user.is_admin);
        let created = self.store.create_first(&user.username, &user.password_hash);
        setup_created(&mut self.state, user.username, created, self.now)
    }

    fn check(&mut self, headers: &HeaderMap) -> AuthCheckResponse {
        match check(&mut self.state, headers, self.now) {
            CheckStep::Done(answer) => answer,
            CheckStep::Load(username) => {
                let loaded = self.store.load(&username);
                check_loaded(&self.state, username, loaded)
            }
        }
    }

    fn change_password(
        &mut self,
        headers: &HeaderMap,
        body: Option<ChangePasswordRequest>,
    ) -> Result<Reply, Status> {
        let caller = identify_caller(&mut self.state, headers, self.now);
        let change = match change_password(&self.state, &caller, body) {
            ChangePasswordStep::Done(res) => return res,
            ChangePasswordStep::Load(change) => change,
        };
        let loaded = self.store.load(&change.username);
        let update = change_password_loaded(change, loaded)?;
        let stored = self.store.update_password(update.id, &update.password_hash);
        change_password_stored(&mut self.state, &caller, &update.username, stored)
    }

    fn admin(&mut self, headers: &HeaderMap) -> Result<AdminSession, Status> {
        match require_admin_session(&mut self.state, headers, self.now) {
            AdminStep::Refused(status) => Err(status),
            AdminStep::Granted(session) => Ok(session),
            AdminStep::Load(pending) => {
                let loaded = self.store.load(pending.username());
                admin_session_loaded(&self.state, pending, loaded)
            }
        }
    }

    fn list_users(&mut self, headers: &HeaderMap) -> Result<Vec<UserSummary>, Status> {
        let admin = self.admin(headers)?;
        list_users(&admin, &self.state, self.store.list())
    }

    fn create_user(
        &mut self,
        headers: &HeaderMap,
        username: &str,
        password: &str,
        is_admin: Option<bool>,
    ) -> Result<Reply, Status> {
        let admin = self.admin(headers)?;
        let body = CreateUserRequest {
            username: username.to_string(),
            password: password.to_string(),
            is_admin,
        };
        let mut step = create_user(&admin, &self.state, body);
        if let CreateUserStep::Load(account) = step {
            let loaded = self.store.load(&account.username);
            step = create_user_loaded(&admin, account, loaded);
        }
        match step {
            CreateUserStep::Done(res) => res,
            CreateUserStep::Store(user) => {
                let stored = self.store.create(&user.username, &user.password_hash, user.is_admin);
                create_user_stored(&admin, &mut self.state, stored)
            }
            CreateUserStep::Load(_) => panic!("looked up twice"),
        }
    }

    fn delete_user(&mut self, headers: &HeaderMap, id: i64) -> Result<Reply, Status> {
        let admin = self.admin(headers)?;
        match delete_user(&admin, &self.state, id, self.store.list()) {
            DeleteUserStep::Done(res) => res,
            DeleteUserStep::Delete(deletion) => {
                let outcome =
                    self.store.delete_if_not_last(deletion.id, deletion.allow_delete_last_admin);
                delete_user_done(&admin, &mut self.state, &deletion.username, outcome)
            }
        }
    }

    fn reset_user_password(&mut self, headers: &HeaderMap, id: i64, password: &str) -> Result<Reply, Status> {
        let admin = self.admin(headers)?;
        let body = ResetPasswordRequest { password: password.to_string() };
        let password = reset_user_password(&admin, body)?;
        let update = reset_password_listed(&admin, id, password, self.store.list())?;
        let stored = self.store.update_password(update.id, &update.password_hash);
        reset_password_stored(&admin, &mut self.state, headers, &update.username, stored)
    }

    fn session_user(&self, token: &str) -> Option<&str> {
        self.state.sessions.get(token).map(|info| info.username.as_str())
    }
}

fn change(old: &str, new: &str) -> Option<ChangePasswordRequest> {
    Some(ChangePasswordRequest {
        username: None,
        old_password: old.to_string(),
        new_password: new.to_string(),
    })
}

#[test]
fn setup_creates_first_user_and_rejects_second_setup() {
    let mut server = server(&[], false, None);
    let res = server.check(&HeaderMap::new());
    assert!(res.setup_required);
    assert!(!res.authenticated);

    let res = server.setup("admin", "secret").unwrap();
    assert_eq!(res.status, Status::Success);
    assert_eq!(server.store.rows.len(), 1);
    assert!(server.state.has_db_users);

    assert!(server.store.load("admin").unwrap().unwrap().is_admin);
    let token = token_of(&res);
    let res = server.check(&cookie_headers(&token));
    assert!(res.authenticated);
    assert!(res.is_admin);

    assert_eq!(server.setup("other", "secret").unwrap_err(), Status::Forbidden);
}

#[test]
fn setup_is_atomic_under_concurrency() {
    let mut server = server(&[], false, None);
    // All of them come through the first step before any account is created.
    let mut accounts = Vec::new();
    for index in 0..8 {
        let body = SetupRequest { username: format!("user-{index}"), password: "secret".to_string() };
        accounts.push(setup(&server.state, body).unwrap());
    }
    let mut ok = 0;
    let mut forbidden = 0;
    for account in accounts {
        match server.finish_setup(account) {
            Ok(res) => {
                assert_eq!(res.status, Status::Success);
                ok += 1;
            }
            Err(status) => {
                assert_eq!(status, Status::Forbidden);
                forbidden += 1;
            }
        }
    }
    assert_eq!(ok, 1);
    assert_eq!(forbidden, 7);
    assert_eq!(server.store.rows.len(), 1);
    assert_eq!(server.state.sessions.len(), 1);
}

#[test]
fn login_with_username_and_password_only_default() {
    let mut server = server(&[], false, None);
    server.add_user("admin", "secret", true);
    server.add_user("alice", "wonderland", false);

    assert_eq!(server.login(Some("alice"), "wrong").unwrap_err(), Status::Unauthorized);
    assert_eq!(server.login(Some("nobody"), "secret").unwrap_err(), Status::Unauthorized);

    let token = server.login_token(None, "secret");
    assert_eq!(server.session_user(&token), Some("admin"));

    let token = server.login_token(Some("alice"), "wonderland");
    assert_eq!(server.session_user(&token), Some("alice"));

    let res = server.check(&cookie_headers(&token));
    assert!(res.authenticated);
    assert_eq!(res.username.as_deref(), Some("alice"));
    assert!(!res.is_admin);

    let admin_token = server.login_token(None, "secret");
    assert!(server.check(&cookie_headers(&admin_token)).is_admin);
}

#[test]
fn change_password_updates_db_user() {
    let mut server = server(&[], false, None);
    server.add_user("admin", "old", true);
    let token = server.login_token(None, "old");

    let res = server.change_password(&cookie_headers(&token), change("old", "new")).unwrap();
    assert_eq!(res.status, Status::Success);

    assert!(server.login(None, "old").is_err());
    server.login_token(None, "new");
}

#[test]
fn change_password_revokes_other_sessions() {
    let mut server = server(&[], false, None);
    server.add_user("admin", "old", true);
    let current = server.login_token(None, "old");
    let other = server.login_token(None, "old");

    let res = server.change_password(&cookie_headers(&current), change("old", "new")).unwrap();
    assert_eq!(res.status, Status::Success);

    assert!(server.state.sessions.contains_key(&current));
    assert!(!server.state.sessions.contains_key(&other));
    assert_eq!(server.state.take_cleared_owners(), vec![other]);
    assert_eq!(server.state.take_cleared_owners(), Vec::<String>::new());
}

#[test]
fn env_bootstrap_user_login_and_change_password_rejected() {
    let mut server = server(&[("hostadmin", "envpw")], false, None);
    let token = server.login_token(Some("hostadmin"), "envpw");
    assert_eq!(server.session_user(&token), Some("hostadmin"));

    let res = server.change_password(&cookie_headers(&token), change("envpw", "new")).unwrap();
    assert_eq!(res.status, Status::Forbidden);
    assert_eq!(message_of(&res), "This account's password is managed via environment variables");
}

#[test]
fn env_bootstrap_user_login_is_case_insensitive() {
    let mut server = server(&[("HostAdmin", "envpw")], false, None);
    let token = server.login_token(Some("hostadmin"), "envpw");
    assert_eq!(server.session_user(&token), Some("hostadmin"));

    let res = server.change_password(&cookie_headers(&token), change("envpw", "new")).unwrap();
    assert_eq!(res.status, Status::Forbidden);
}

#[test]
fn delete_user_drops_sessions_regardless_of_login_casing() {
    let mut server = server(&[], false, None);
    server.add_user("admin", "secret", true);
    let alice_id = server.add_user("alice", "wonderland", false);
    let admin_token = server.login_token(None, "secret");
    let alice_token = server.login_token(Some("ALICE"), "wonderland");

    let res = server.delete_user(&cookie_headers(&admin_token), alice_id).unwrap();
    assert_eq!(res.status, Status::Success);
    assert!(!server.state.sessions.contains_key(&alice_token));
    assert!(server.state.sessions.contains_key(&admin_token));
    assert_eq!(server.state.take_cleared_owners(), vec![alice_token]);
}

#[test]
fn create_and_delete_user_guards() {
    let mut server = server(&[], false, None);
    let admin_id = server.add_user("admin", "secret", true);
    let admin = cookie_headers(&server.login_token(None, "secret"));

    let res = server.create_user(&admin, "ADMIN", "x", None).unwrap();
    assert_eq!(res.status, Status::Conflict);
    assert_eq!(message_of(&res), "Username already exists");

    let res = server.create_user(&admin, "bob", "pw", None).unwrap();
    assert_eq!(res.status, Status::Success);
    let bob = server.store.load("bob").unwrap().unwrap();
    assert!(!bob.is_admin);

    let res = server.delete_user(&admin, admin_id).unwrap();
    assert_eq!(res.status, Status::BadRequest);
    assert_eq!(message_of(&res), "You cannot delete your own account");

    let bob_token = server.login_token(Some("bob"), "pw");
    let res = server.delete_user(&admin, bob.id).unwrap();
    assert_eq!(res.status, Status::Success);
    assert!(!server.state.sessions.contains_key(&bob_token));
    assert_eq!(server.store.rows.len(), 1);
}

#[test]
fn middleware_protects_user_management_but_not_login() {
    let mut server = server(&[], false, None);
    server.add_user("admin", "secret", true);

    let access = auth_middleware(&mut server.state, "/api/auth/users", &HeaderMap::new(), server.now);
    assert!(matches!(access, Access::Refuse(Status::Unauthorized)));
    let access = auth_middleware(&mut server.state, "/api/auth/login", &HeaderMap::new(), server.now);
    assert!(matches!(access, Access::Forward));
    let res = server.login(Some("admin"), "secret").unwrap();
    assert_eq!(res.status, Status::Success);
    let token = token_of(&res);

    let headers = cookie_headers(&token);
    let access = auth_middleware(&mut server.state, "/api/auth/users", &headers, server.now);
    match access {
        Access::ForwardAs(owner) => assert_eq!(owner, token),
        _ => panic!("the session opens the path"),
    }
    assert_eq!(server.list_users(&headers).unwrap().len(), 1);
}

#[test]
fn user_management_requires_admin() {
    let mut server = server(&[], false, None);
    let admin_id = server.add_user("admin", "secret", true);
    server.add_user("alice", "wonderland", false);
    let alice = cookie_headers(&server.login_token(Some("alice"), "wonderland"));
    let admin = cookie_headers(&server.login_token(None, "secret"));

    assert_eq!(server.list_users(&alice).unwrap_err(), Status::Forbidden);
    assert_eq!(server.create_user(&alice, "mallory", "pw", None).unwrap_err(), Status::Forbidden);
    assert_eq!(server.delete_user(&alice, admin_id).unwrap_err(), Status::Forbidden);
    assert_eq!(server.reset_user_password(&alice, admin_id, "hacked").unwrap_err(), Status::Forbidden);
    assert_eq!(server.list_users(&HeaderMap::new()).unwrap_err(), Status::Unauthorized);

    let users = server.list_users(&admin).unwrap();
    assert_eq!(users.len(), 2);
    assert!(users.iter().find(|u| u.username == "admin").unwrap().is_admin);
    assert!(!users.iter().find(|u| u.username == "alice").unwrap().is_admin);

    assert_eq!(server.store.rows.len(), 2);
    server.login_token(None, "secret");
}

#[test]
fn reset_user_password_requires_admin_and_revokes_sessions() {
    let mut server = server(&[], false, None);
    let admin_id = server.add_user("admin", "secret", true);
    let alice_id = server.add_user("alice", "wonderland", false);

    let alice_token = server.login_token(Some("alice"), "wonderland");
    let alice = cookie_headers(&alice_token);
    assert_eq!(server.reset_user_password(&alice, admin_id, "hacked").unwrap_err(), Status::Forbidden);
    assert!(server.login(None, "hacked").is_err());
    server.login_token(None, "secret");

    let admin_token = server.login_token(None, "secret");
    let admin = cookie_headers(&admin_token);
    let res = server.reset_user_password(&admin, alice_id, "reset-pw").unwrap();
    assert_eq!(res.status, Status::Success);
    assert!(!server.state.sessions.contains_key(&alice_token));
    assert!(server.state.sessions.contains_key(&admin_token));
    assert!(server.login(Some("alice"), "wonderland").is_err());
    server.login_token(Some("alice"), "reset-pw");
}

#[test]
fn delete_user_is_atomic_under_concurrency() {
    let mut server = server(&[("hostadmin", "envpw")], false, None);
    let first_id = server.add_user("first", "pw", false);
    let second_id = server.add_user("second", "pw", false);
    let headers = cookie_headers(&server.login_token(Some("hostadmin"), "envpw"));

    // Both deletions are decided before either row is gone.
    let mut deletions = Vec::new();
    for id in [first_id, second_id] {
        let admin = server.admin(&headers).unwrap();
        match delete_user(&admin, &server.state, id, server.store.list()) {
            DeleteUserStep::Delete(deletion) => deletions.push((admin, deletion)),
            DeleteUserStep::Done(_) => panic!("nothing stands in the way yet"),
        }
    }
    let mut ok = 0;
    let mut rejected = 0;
    for (admin, deletion) in deletions {
        assert!(deletion.allow_delete_last_admin);
        let outcome = server.store.delete_if_not_last(deletion.id, deletion.allow_delete_last_admin);
        match delete_user_done(&admin, &mut server.state, &deletion.username, outcome).unwrap().status {
            Status::Success => ok += 1,
            Status::BadRequest => rejected += 1,
            status => panic!("unexpected status {status:?}"),
        }
    }
    assert_eq!(ok, 1);
    assert_eq!(rejected, 1);
    assert_eq!(server.store.rows.len(), 1);
    assert!(server.state.has_db_users);
}

#[test]
fn login_rate_limit_is_per_username() {
    let mut server = server(&[], false, None);
    server.add_user("admin", "secret", true);
    server.add_user("alice", "wonderland", false);

    for _ in 0..5 {
        assert_eq!(server.login(Some("alice"), "wrong").unwrap_err(), Status::Unauthorized);
    }
    let res = server.login(Some("alice"), "wonderland").unwrap();
    assert_eq!(res.status, Status::TooManyRequests);
    assert_eq!(message_of(&res), "Please try again in 60s");
    assert!(res.set_cookie.is_none());

    // The casing of the name makes no difference.
    assert_eq!(server.login(Some("Alice"), "wonderland").unwrap().status, Status::TooManyRequests);
    server.login_token(None, "secret");

    // The time that is left counts down, and the lock ends.
    server.now += 30 * SECOND + 1;
    assert_eq!(message_of(&server.login(Some("alice"), "wonderland").unwrap()), "Please try again in 29s");
    server.now += 30 * SECOND - 1;
    server.login_token(Some("alice"), "wonderland");
}

#[test]
fn session_cookie_secure_flag_is_deployer_opt_in() {
    let mut plain = server(&[], false, None);
    plain.add_user("admin", "secret", true);
    let res = plain.login(None, "secret").unwrap();
    assert!(!res.set_cookie.unwrap().contains("Secure"));

    let mut secure = server(&[], true, None);
    secure.add_user("admin", "secret", true);
    let res = secure.login(None, "secret").unwrap();
    let cookie = res.set_cookie.unwrap();
    assert!(cookie.contains("; Secure"));

    let mut headers = HeaderMap::new();
    headers.insert("cookie", cookie.parse().unwrap());
    let res = logout(&mut secure.state, &headers);
    assert!(res.set_cookie.unwrap().contains("; Secure"));
}

#[test]
fn sessions_expire_after_configured_idle_timeout() {
    let mut server = server(&[], false, Some(50_000_000));
    server.add_user("admin", "secret", true);
    let token = server.login_token(None, "secret");
    let headers = cookie_headers(&token);

    let before = server.state.sessions.get(&token).unwrap().last_active;
    server.now += 50_000_000;
    assert!(server.check(&headers).authenticated);
    assert_eq!(server.state.sessions.get(&token).unwrap().last_active, before + 50_000_000);

    server.now += 60 * SECOND;
    assert!(!server.check(&headers).authenticated);
    assert!(!server.state.sessions.contains_key(&token));
    assert_eq!(server.state.take_cleared_owners(), vec![token]);
}

#[test]
fn admin_can_create_admin_and_admins_can_delete_each_other() {
    let mut server = server(&[], false, None);
    let admin_id = server.add_user("admin", "secret", true);
    server.add_user("alice", "wonderland", false);
    let admin = cookie_headers(&server.login_token(None, "secret"));

    let res = server.create_user(&admin, "bob", "pw", Some(true)).unwrap();
    assert_eq!(res.status, Status::Success);
    assert!(server.store.load("bob").unwrap().unwrap().is_admin);

    let bob = cookie_headers(&server.login_token(Some("bob"), "pw"));
    assert_eq!(server.list_users(&bob).unwrap().len(), 3);
    assert_eq!(server.delete_user(&bob, admin_id).unwrap().status, Status::Success);
}

#[test]
fn login_without_accounts_is_acknowledged() {
    let mut server = server(&[], false, None);
    let res = server.login(Some("anyone"), "anything").unwrap();
    assert_eq!(res.status, Status::Success);
    assert!(res.set_cookie.is_none());
    assert!(matches!(res.body, ReplyBody::Acknowledged));
    assert_eq!(server.state.sessions.len(), 0);
    assert_eq!(server.state.login_rate_limit.len(), 0);
}

#[test]
fn four_failures_do_not_lock_and_success_resets_the_count() {
    let mut server = server(&[("root", "pw")], false, None);
    for _ in 0..2 {
        for _ in 0..4 {
            assert_eq!(server.login(Some("root"), "wrong").unwrap_err(), Status::Unauthorized);
        }
        server.login_token(Some(" root "), "pw");
        assert_eq!(server.state.login_rate_limit.len(), 0);
    }
}

#[test]
fn login_tokens_are_distinct_uuids() {
    let mut server = server(&[("root", "pw")], false, None);
    let a = server.login_token(Some("root"), "pw");
    let b = server.login_token(Some("root"), "pw");
    assert_ne!(a, b);
    for token in [&a, &b] {
        assert_eq!(token.len(), 36);
        for (i, c) in token.chars().enumerate() {
            match i {
                8 | 13 | 18 | 23 => assert_eq!(c, '-'),
                14 => assert_eq!(c, '4'),
                19 => assert!("89ab".contains(c)),
                _ => assert!(c.is_ascii_digit() || ('a'..='f').contains(&c)),
            }
        }
    }
    // Two sessions of one account live side by side.
    assert_eq!(server.session_user(&a), Some("root"));
    assert_eq!(server.session_user(&b), Some("root"));
}

#[test]
fn host_account_wins_over_stored_account() {
    let mut server = server(&[("Root", "host-pw")], false, None);
    server.add_user("root", "stored-pw", false);
    assert_eq!(server.login(Some("root"), "stored-pw").unwrap_err(), Status::Unauthorized);
    let token = server.login_token(Some("ROOT"), "host-pw");
    assert!(server.check(&cookie_headers(&token)).is_admin);
    // The lookup is not even needed.
    server.store.broken = true;
    assert!(server.check(&cookie_headers(&token)).is_admin);
    server.login_token(Some("root"), "host-pw");
}

#[test]
fn failed_lookup_fails_the_login() {
    let mut server = server(&[], false, None);
    server.add_user("admin", "secret", true);
    let token = server.login_token(None, "secret");
    server.store.broken = true;
    assert_eq!(server.login(None, "secret").unwrap_err(), Status::Unauthorized);
    let answer = server.check(&cookie_headers(&token));
    assert!(answer.authenticated && !answer.is_admin);
    assert_eq!(server.list_users(&cookie_headers(&token)).unwrap_err(), Status::Forbidden);
}

#[test]
fn setup_refusals() {
    let mut server = server(&[], false, None);
    assert_eq!(server.setup("  ", "pw").unwrap_err(), Status::BadRequest);
    assert_eq!(server.setup("admin", "").unwrap_err(), Status::BadRequest);
    server.store.broken = true;
    assert_eq!(server.setup("admin", "pw").unwrap_err(), Status::InternalServerError);
    assert!(!server.state.has_db_users);
    server.state.password_disabled = true;
    assert_eq!(server.setup("admin", "pw").unwrap_err(), Status::Forbidden);
    server.state.password_disabled = false;
    server.store.broken = false;
    let res = server.setup(" admin ", "pw").unwrap();
    assert_eq!(server.session_user(&token_of(&res)), Some("admin"));
    assert_eq!(server.setup("admin", "pw").unwrap_err(), Status::Forbidden);
}

#[test]
fn setup_is_closed_where_the_host_provides_accounts() {
    let mut server = server(&[("root", "pw")], false, None);
    assert_eq!(server.setup("admin", "pw").unwrap_err(), Status::Forbidden);
    let answer = server.check(&HeaderMap::new());
    assert!(!answer.setup_required && answer.required && !answer.authenticated);
}

#[test]
fn open_server_lets_everybody_in() {
    let mut server = server(&[("root", "pw")], false, None);
    server.state.password_disabled = true;
    let answer = server.check(&HeaderMap::new());
    assert!(answer.authenticated && !answer.required && !answer.setup_required && !answer.is_admin);
    assert_eq!(answer.username, None);
    let access = auth_middleware(&mut server.state, "/api/query", &HeaderMap::new(), server.now);
    assert!(matches!(access, Access::Forward));
}

#[test]
fn guard_without_accounts_refuses_the_api_only() {
    let mut server = server(&[], false, None);
    let none = HeaderMap::new();
    let now = server.now;
    assert!(matches!(
        auth_middleware(&mut server.state, "/api/query", &none, now),
        Access::Refuse(Status::Unauthorized)
    ));
    for path in ["/api/auth/login", "/api/auth/check", "/api/auth/setup", "/api/auth/logout", "/"] {
        assert!(matches!(auth_middleware(&mut server.state, path, &none, now), Access::Forward));
    }
}

#[test]
fn guard_ends_idle_sessions_but_leaves_public_paths_alone() {
    let mut server = server(&[("root", "pw")], false, Some(SECOND));
    let token = server.login_token(Some("root"), "pw");
    let headers = cookie_headers(&token);
    server.now += 2 * SECOND;
    let now = server.now;
    assert!(matches!(
        auth_middleware(&mut server.state, "/api/auth/check", &headers, now),
        Access::Forward
    ));
    assert!(server.state.sessions.contains_key(&token));
    assert!(matches!(
        auth_middleware(&mut server.state, "/api/query", &headers, now),
        Access::Refuse(Status::Unauthorized)
    ));
    assert!(!server.state.sessions.contains_key(&token));
}

#[test]
fn logout_ends_only_its_own_session() {
    let mut server = server(&[("root", "pw")], false, None);
    let a = server.login_token(Some("root"), "pw");
    let b = server.login_token(Some("root"), "pw");
    let res = logout(&mut server.state, &cookie_headers(&a));
    assert_eq!(res.status, Status::Success);
    assert_eq!(res.set_cookie.as_deref(), Some("dbx_session=; Path=/; HttpOnly; Max-Age=0"));
    assert!(!server.check(&cookie_headers(&a)).authenticated);
    assert!(server.check(&cookie_headers(&b)).authenticated);
    // A stale token is cleared once more; without a token there is nothing to clear.
    logout(&mut server.state, &cookie_headers(&a));
    logout(&mut server.state, &HeaderMap::new());
    assert_eq!(server.state.take_cleared_owners(), vec![a.clone(), a]);
}

#[test]
fn change_password_refusals() {
    let mut server = server(&[], false, None);
    server.add_user("admin", "old", true);
    server.add_user("alice", "wonderland", false);
    let none = HeaderMap::new();
    assert_eq!(server.change_password(&none, None).unwrap_err(), Status::BadRequest);
    assert_eq!(server.change_password(&none, change("old", "")).unwrap_err(), Status::BadRequest);
    assert_eq!(server.change_password(&none, change("bad", "new")).unwrap_err(), Status::Unauthorized);
    let unknown = Some(ChangePasswordRequest {
        username: Some("nobody".to_string()),
        old_password: "old".to_string(),
        new_password: "new".to_string(),
    });
    assert_eq!(server.change_password(&none, unknown).unwrap_err(), Status::Unauthorized);

    // A blank name stands for the session's user.
    let alice = cookie_headers(&server.login_token(Some("alice"), "wonderland"));
    let blank = Some(ChangePasswordRequest {
        username: Some("  ".to_string()),
        old_password: "wonderland".to_string(),
        new_password: "looking-glass".to_string(),
    });
    assert_eq!(server.change_password(&alice, blank).unwrap().status, Status::Success);
    server.login_token(Some("alice"), "looking-glass");

    server.store.broken = true;
    assert_eq!(
        server.change_password(&none, change("old", "new")).unwrap_err(),
        Status::InternalServerError
    );
}

#[test]
fn change_password_stored_reports_a_failed_write() {
    let mut server = server(&[("root", "pw")], false, None);
    let token = server.login_token(Some("root"), "pw");
    let caller = identify_caller(&mut server.state, &HeaderMap::new(), server.now);
    let failed = Err("disk full".to_string());
    let res = change_password_stored(&mut server.state, &caller, "root", failed);
    assert_eq!(res.unwrap_err(), Status::InternalServerError);
    assert!(server.state.sessions.contains_key(&token));
    let failed = Err("disk full".to_string());
    let admin = server.admin(&cookie_headers(&token)).unwrap();
    let res = reset_password_stored(&admin, &mut server.state, &HeaderMap::new(), "root", failed);
    assert_eq!(res.unwrap_err(), Status::InternalServerError);
    assert!(server.state.sessions.contains_key(&token));
}

#[test]
fn management_refusals() {
    let mut server = server(&[("root", "pw")], false, None);
    let alice_id = server.add_user("alice", "wonderland", true);
    let root = cookie_headers(&server.login_token(Some("root"), "pw"));
    assert_eq!(server.create_user(&root, " ", "pw", None).unwrap_err(), Status::BadRequest);
    assert_eq!(server.create_user(&root, "bob", "", None).unwrap_err(), Status::BadRequest);
    assert_eq!(server.create_user(&root, " ROOT ", "pw", None).unwrap().status, Status::Conflict);
    assert_eq!(server.delete_user(&root, 77).unwrap_err(), Status::NotFound);
    assert_eq!(server.reset_user_password(&root, 77, "pw").unwrap_err(), Status::NotFound);
    assert_eq!(server.reset_user_password(&root, alice_id, "").unwrap_err(), Status::BadRequest);
    let res = server.delete_user(&root, alice_id).unwrap();
    assert_eq!(res.status, Status::BadRequest);
    assert_eq!(message_of(&res), "Cannot delete the last user account");

    server.store.broken = true;
    assert_eq!(server.list_users(&root).unwrap_err(), Status::InternalServerError);
    assert_eq!(server.create_user(&root, "bob", "pw", None).unwrap_err(), Status::InternalServerError);
    assert_eq!(server.delete_user(&root, alice_id).unwrap_err(), Status::InternalServerError);
    assert_eq!(
        server.reset_user_password(&root, alice_id, "pw").unwrap_err(),
        Status::InternalServerError
    );
}

#[test]
fn outcomes_of_deletion_and_creation() {
    let mut server = server(&[("root", "pw")], false, None);
    let headers = cookie_headers(&server.login_token(Some("root"), "pw"));
    let admin = server.admin(&headers).unwrap();
    let res = delete_user_done(&admin, &mut server.state, "x", Ok(DeleteUserResult::LastAdmin)).unwrap();
    assert_eq!(res.status, Status::BadRequest);
    assert_eq!(message_of(&res), "Cannot delete the last admin account");
    assert_eq!(
        delete_user_done(&admin, &mut server.state, "x", Ok(DeleteUserResult::NotFound)).unwrap_err(),
        Status::NotFound
    );
    assert_eq!(
        delete_user_done(&admin, &mut server.state, "x", Err(String::new())).unwrap_err(),
        Status::InternalServerError
    );
    let race = Err("error: UNIQUE constraint failed: users.username".to_string());
    assert_eq!(create_user_stored(&admin, &mut server.state, race).unwrap_err(), Status::Conflict);
    assert_eq!(
        create_user_stored(&admin, &mut server.state, Err("UNIQUE".to_string())).unwrap_err(),
        Status::InternalServerError
    );
    assert!(!server.state.has_db_users);
    assert_eq!(create_user_stored(&admin, &mut server.state, Ok(9)).unwrap().status, Status::Success);
    assert!(server.state.has_db_users);
    let gone = Ok(DeleteUserResult::Deleted { remaining: 0 });
    assert_eq!(delete_user_done(&admin, &mut server.state, "x", gone).unwrap().status, Status::Success);
    assert!(!server.state.has_db_users);
}

#[test]
fn users_are_listed_by_name_without_regard_to_case() {
    let mut server = server(&[("Bob", "pw"), ("alice", "pw")], false, None);
    for name in ["Zoe", "bob", "Émile", "Carol"] {
        server.state.has_db_users = true;
        server.store.create(name, "hash", name == "Zoe").unwrap();
    }
    let headers = cookie_headers(&server.login_token(Some("alice"), "pw"));
    let users = server.list_users(&headers).unwrap();
    let names: Vec<&str> = users.iter().map(|u| u.username.as_str()).collect();
    // Stored accounts come before those of the host with the same name.
    assert_eq!(names, vec!["alice", "bob", "Bob", "Carol", "Zoe", "Émile"]);
    assert_eq!((users[1].id, users[1].created_at), (Some(2), Some(1002)));
    assert!(!users[1].managed_by_env && !users[1].is_admin);
    assert_eq!((users[2].id, users[2].created_at), (None, None));
    assert!(users[2].managed_by_env && users[2].is_admin);
    assert!(users[4].is_admin);
}

#[test]
fn resetting_ones_own_password_ends_every_session() {
    let mut server = server(&[], false, None);
    let admin_id = server.add_user("admin", "secret", true);
    server.add_user("alice", "wonderland", false);
    // Signed in under another casing than the stored name.
    let acting = server.login_token(Some("ADMIN"), "secret");
    let other = server.login_token(None, "secret");
    let alice = server.login_token(Some("alice"), "wonderland");
    let res = server.reset_user_password(&cookie_headers(&acting), admin_id, "new").unwrap();
    assert_eq!(res.status, Status::Success);
    assert!(!server.state.sessions.contains_key(&acting));
    assert!(!server.state.sessions.contains_key(&other));
    assert!(server.state.sessions.contains_key(&alice));
    let mut cleared = server.state.take_cleared_owners();
    cleared.sort();
    let mut expected = vec![acting, other];
    expected.sort();
    assert_eq!(cleared, expected);
    server.login_token(None, "new");
}

#[test]
fn names_that_differ_beyond_ascii_case_are_limited_apart() {
    let mut server = server(&[("É", "a"), ("é", "b")], false, None);
    for _ in 0..5 {
        assert_eq!(server.login(Some("É"), "wrong").unwrap_err(), Status::Unauthorized);
    }
    assert_eq!(server.login(Some("É"), "a").unwrap().status, Status::TooManyRequests);
    assert_eq!(server.login(Some("é"), "b").unwrap().status, Status::Success);
}

#[test]
fn stored_text_that_is_no_hash_admits_nobody() {
    let mut server = server(&[], false, None);
    server.state.has_db_users = true;
    for (name, hash) in [("empty", ""), ("plain", "plain"), ("other", "$bcrypt$v=1$m=1$c2FsdA$aGFzaA")] {
        server.store.create(name, hash, false).unwrap();
        assert_eq!(server.login(Some(name), hash).unwrap_err(), Status::Unauthorized);
        assert_eq!(server.login(Some(name), "").unwrap_err(), Status::Unauthorized);
    }
}
