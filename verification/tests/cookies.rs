use axum::http::{HeaderMap, HeaderValue};
use dbx_web_auth::cookie::{
    expired_session_cookie, session_cookie, session_cookie_path, session_token_from_cookie,
    session_token_from_headers,
};
use dbx_web_auth::state::WebState;

fn state(base: &str, secure: bool) -> WebState {
    WebState::new(Vec::new(), false, false, base.to_string(), secure, None)
}

#[test]
fn token_is_read_from_the_cookie_header() {
    let mut headers = HeaderMap::new();
    assert_eq!(session_token_from_headers(&headers), None);
    headers.insert("cookie", "theme=dark; dbx_session=abc".parse().unwrap());
    assert_eq!(session_token_from_headers(&headers).as_deref(), Some("abc"));
}

#[test]
fn only_the_first_cookie_header_counts() {
    let mut headers = HeaderMap::new();
    headers.append("cookie", "theme=dark".parse().unwrap());
    headers.append("cookie", "dbx_session=abc".parse().unwrap());
    assert_eq!(session_token_from_headers(&headers), None);
    headers.insert("x-cookie", "dbx_session=abc".parse().unwrap());
    assert_eq!(session_token_from_headers(&headers), None);
}

#[test]
fn unreadable_cookie_header_carries_no_token() {
    let mut headers = HeaderMap::new();
    headers.insert("cookie", HeaderValue::from_bytes(b"dbx_session=\xff").unwrap());
    assert_eq!(session_token_from_headers(&headers), None);
    headers.insert("cookie", HeaderValue::from_bytes(b"\tdbx_session=a b~").unwrap());
    assert_eq!(session_token_from_headers(&headers).as_deref(), Some("a b~"));
}

#[test]
fn first_token_with_a_value_wins() {
    assert_eq!(session_token_from_cookie("dbx_session=; dbx_session=b; dbx_session=c").as_deref(), Some("b"));
    assert_eq!(session_token_from_cookie("  dbx_session=x=y  ;").as_deref(), Some("x=y"));
    assert_eq!(session_token_from_cookie("DBX_SESSION=x"), None);
    assert_eq!(session_token_from_cookie("mydbx_session=x"), None);
    assert_eq!(session_token_from_cookie("dbx_session"), None);
    assert_eq!(session_token_from_cookie(""), None);
}

#[test]
fn cookies_have_the_expected_text() {
    let plain = state("/", false);
    assert_eq!(session_cookie_path(&plain), "/");
    assert_eq!(session_cookie(&plain, "t"), "dbx_session=t; Path=/; HttpOnly; SameSite=Lax");
    assert_eq!(expired_session_cookie(&plain), "dbx_session=; Path=/; HttpOnly; Max-Age=0");
    let secure = state("/dbx", true);
    assert_eq!(session_cookie_path(&secure), "/dbx");
    assert_eq!(session_cookie(&secure, "t"), "dbx_session=t; Path=/dbx; HttpOnly; SameSite=Lax; Secure");
    assert_eq!(expired_session_cookie(&secure), "dbx_session=; Path=/dbx; HttpOnly; Max-Age=0; Secure");
}

#[test]
fn cookie_gives_back_the_token() {
    for state in [state("/", false), state("/a b", true), state("", false)] {
        let cookie = session_cookie(&state, "0f-9z");
        assert_eq!(session_token_from_cookie(&cookie).as_deref(), Some("0f-9z"));
        assert_eq!(session_token_from_cookie(&expired_session_cookie(&state)), None);
    }
}
