use axum::http::HeaderMap;
use dbx_web_auth::account::{env_user_hash, has_any_account, is_env_account};
use dbx_web_auth::reply::Status;
use dbx_web_auth::session::{
    drop_sessions_for_user, end_session, lookup_session, open_session, session_username,
};
use dbx_web_auth::state::{BootstrapUser, WebState};

fn state(idle: Option<u128>) -> WebState {
    let mut state = WebState::new(Vec::new(), true, false, "/".to_string(), false, idle);
    for (token, name) in [("a1", "Alice"), ("a2", "alice"), ("a3", "ALICE"), ("b1", "bob")] {
        open_session(&mut state, token.to_string(), name.to_string(), 100);
    }
    state
}

#[test]
fn lookup_finds_the_user_as_typed() {
    let mut state = state(None);
    assert_eq!(lookup_session(&mut state, "a1", 9999).as_deref(), Some("Alice"));
    assert_eq!(state.sessions.get("a1").unwrap().last_active, 100);
    assert_eq!(lookup_session(&mut state, "zz", 100), None);
    assert_eq!(state.sessions.len(), 4);
}

#[test]
fn idle_time_starts_anew_with_every_lookup() {
    let mut state = state(Some(10));
    assert_eq!(lookup_session(&mut state, "a1", 110).as_deref(), Some("Alice"));
    assert_eq!(lookup_session(&mut state, "a1", 120).as_deref(), Some("Alice"));
    assert_eq!(lookup_session(&mut state, "a2", 120), None);
    assert!(!state.sessions.contains_key("a2"));
    assert_eq!(state.take_cleared_owners(), vec!["a2".to_string()]);
    // A clock that reads an earlier time counts as no time at all.
    assert_eq!(lookup_session(&mut state, "b1", 50).as_deref(), Some("bob"));
}

#[test]
fn session_of_a_request() {
    let mut state = state(None);
    let mut headers = HeaderMap::new();
    assert_eq!(session_username(&mut state, &headers, 100), None);
    headers.insert("cookie", "dbx_session=b1".parse().unwrap());
    assert_eq!(session_username(&mut state, &headers, 100).as_deref(), Some("bob"));
    end_session(&mut state, "b1");
    assert_eq!(session_username(&mut state, &headers, 100), None);
}

#[test]
fn dropping_keeps_one_token_and_other_users() {
    let mut one = state(None);
    drop_sessions_for_user(&mut one, "aLiCe", Some("a2"));
    assert_eq!(one.sessions.len(), 2);
    assert!(one.sessions.contains_key("a2") && one.sessions.contains_key("b1"));
    let mut cleared = one.take_cleared_owners();
    cleared.sort();
    assert_eq!(cleared, vec!["a1".to_string(), "a3".to_string()]);

    let mut all = state(None);
    drop_sessions_for_user(&mut all, "alice", None);
    assert_eq!(all.sessions.len(), 1);
    // Keeping a token of somebody else changes nothing.
    let mut other = state(None);
    drop_sessions_for_user(&mut other, "bob", Some("a1"));
    assert_eq!(other.sessions.len(), 3);
}

#[test]
fn accounts_of_the_host_match_in_any_casing() {
    let hosts = vec![
        BootstrapUser { username: "Root".to_string(), password_hash: "h1".to_string() },
        BootstrapUser { username: "ROOT".to_string(), password_hash: "h2".to_string() },
    ];
    let state = WebState::new(hosts, false, false, "/".to_string(), false, None);
    assert!(has_any_account(&state));
    assert!(is_env_account(&state, "root") && !is_env_account(&state, "roo"));
    // The first of them wins.
    assert_eq!(env_user_hash(&state, "rOOT").as_deref(), Some("h1"));
    assert_eq!(env_user_hash(&state, "admin"), None);
    let none = WebState::new(Vec::new(), false, false, "/".to_string(), false, None);
    assert!(!has_any_account(&none));
}

#[test]
fn statuses_have_their_http_numbers() {
    let numbers: Vec<u16> = [
        Status::Success,
        Status::BadRequest,
        Status::Unauthorized,
        Status::Forbidden,
        Status::NotFound,
        Status::Conflict,
        Status::TooManyRequests,
        Status::InternalServerError,
    ]
    .iter()
    .map(|status| status.code())
    .collect();
    assert_eq!(numbers, vec![200, 400, 401, 403, 404, 409, 429, 500]);
}
