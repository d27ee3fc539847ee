use dbx_web_auth::limit::{
    clear_login_failures, login_limit_key, login_locked_for, note_login_failure,
};
use dbx_web_auth::state::{LoginRateLimit, WebState, LOCKOUT_SECS, MAX_ATTEMPTS, MAX_TRACKED};

const SECOND: u128 = 1_000_000_000;

fn state() -> WebState {
    WebState::new(Vec::new(), true, false, "/".to_string(), false, None)
}

#[test]
fn limits_are_five_attempts_and_a_minute() {
    assert_eq!((MAX_ATTEMPTS, LOCKOUT_SECS, MAX_TRACKED), (5, 60, 4096));
}

#[test]
fn keys_fold_the_case_of_ascii_letters() {
    assert_eq!(login_limit_key("ADMIN"), "admin");
    assert_eq!(login_limit_key("ÄLICE"), "Älice");
    assert_eq!(login_limit_key("älice"), "älice");
    assert_eq!(login_limit_key("a1-_"), "a1-_");
}

#[test]
fn fifth_failure_locks_for_a_minute() {
    let mut state = state();
    for i in 0..4 {
        note_login_failure(&mut state, "alice", i);
        assert_eq!(state.login_rate_limit.get("alice").unwrap().fail_count, i as u32 + 1);
        assert_eq!(login_locked_for(&state, "alice", i), None);
    }
    note_login_failure(&mut state, "ALICE", 10);
    assert_eq!(state.login_rate_limit.get("alice").unwrap().fail_count, 0);
    assert_eq!(login_locked_for(&state, "Alice", 10), Some(60));
    assert_eq!(login_locked_for(&state, "alice", 11), Some(59));
    assert_eq!(login_locked_for(&state, "alice", 10 + 60 * SECOND - 1), Some(0));
    assert_eq!(login_locked_for(&state, "alice", 10 + 60 * SECOND), None);
    assert_eq!(login_locked_for(&state, "bob", 11), None);
}

#[test]
fn clearing_unlocks_one_account_only() {
    let mut state = state();
    for name in ["alice", "bob"] {
        for _ in 0..5 {
            note_login_failure(&mut state, name, 0);
        }
    }
    clear_login_failures(&mut state, "ALICE");
    assert_eq!(login_locked_for(&state, "alice", 1), None);
    assert_eq!(login_locked_for(&state, "bob", 1), Some(59));
}

#[test]
fn full_table_drops_entries_neither_locked_nor_counting() {
    let mut state = state();
    for _ in 0..5 {
        note_login_failure(&mut state, "locked", 0);
    }
    for i in 0..4092 {
        let expired = LoginRateLimit { fail_count: 0, locked_until: Some(5) };
        state.login_rate_limit.insert(format!("name{i}"), expired);
    }
    let counting = LoginRateLimit { fail_count: 3, locked_until: None };
    state.login_rate_limit.insert("counting".to_string(), counting);
    let again = LoginRateLimit { fail_count: 1, locked_until: Some(2) };
    state.login_rate_limit.insert("again".to_string(), again);
    note_login_failure(&mut state, "last", 5);
    assert_eq!(state.login_rate_limit.len(), 4096);
    // A known account makes nobody leave.
    note_login_failure(&mut state, "name7", 5);
    assert_eq!(state.login_rate_limit.len(), 4096);
    assert_eq!(state.login_rate_limit.get("name7").unwrap().fail_count, 1);
    // A new one does.
    note_login_failure(&mut state, "new", 5);
    assert_eq!(state.login_rate_limit.len(), 6);
    assert_eq!(state.login_rate_limit.get("new").unwrap().fail_count, 1);
    assert_eq!(state.login_rate_limit.get("counting").unwrap().fail_count, 3);
    assert_eq!(state.login_rate_limit.get("again").unwrap().fail_count, 1);
    assert_eq!(state.login_rate_limit.get("last").unwrap().fail_count, 1);
    assert_eq!(login_locked_for(&state, "locked", 5), Some(59));
    assert!(!state.login_rate_limit.contains_key("name8"));
}

#[test]
fn logins_to_other_accounts_leave_an_entry_alone() {
    let mut state = state();
    for _ in 0..5 {
        note_login_failure(&mut state, "locked", 0);
    }
    note_login_failure(&mut state, "counting", 0);
    for round in 1..20 {
        note_login_failure(&mut state, "noisy", round);
        if round % 7 == 0 {
            clear_login_failures(&mut state, "NOISY");
        }
    }
    assert_eq!(login_locked_for(&state, "locked", 20), Some(59));
    assert_eq!(state.login_rate_limit.get("counting").unwrap().fail_count, 1);
}
