//! Sessions: how they are opened, looked up, refreshed and ended.

use axum::http::HeaderMap;
use vstd::prelude::*;
use vstd::string::*;

use crate::cookie::{cookie_safe, request_token, session_token_from_headers};
use crate::state::{
    same_but_for_sessions, texts, SessionInfo, SessionView, WebState, WebStateView,
};
use crate::text::{eq_ignore_ascii_case, owned_text_of, same_ignoring_case, same_text, text_of};

verus! {

/// A lower-case hexadecimal digit.
pub open spec fn hex_digit(c: char) -> bool {
    '0' <= c <= '9' || 'a' <= c <= 'f'
}

/// The hyphenated text of a random (version 4) UUID.
pub open spec fn is_uuid(s: Seq<char>) -> bool {
    &&& s.len() == 36
    &&& forall|i: int|
        0 <= i < 36 ==> if i == 8 || i == 13 || i == 18 || i == 23 {
            #[trigger] s[i] == '-'
        } else {
            hex_digit(s[i])
        }
    &&& s[14] == '4'
    &&& s[19] == '8' || s[19] == '9' || s[19] == 'a' || s[19] == 'b'
}

/// Calls `Uuid::new_v4` and gives its text. Trusted: the text has the form of a
/// random UUID. Nothing is said of which one it is, nor that two differ.
#[verifier::external_body]
pub(crate) fn new_session_token() -> (res: String)
    ensures
        is_uuid(res@),
{
    uuid::Uuid::new_v4().to_string()
}

/// The text of a UUID survives the way through a cookie.
pub proof fn uuid_is_cookie_safe(token: Seq<char>)
    requires
        is_uuid(token),
    ensures
        cookie_safe(token),
{
    assert(hex_digit(token[35]));
}

/// The time from `since` to `now`; none if `now` is earlier.
pub open spec fn elapsed(since: u128, now: u128) -> int {
    if now >= since {
        now - since
    } else {
        0
    }
}

/// The session has been idle for longer than the server allows.
pub open spec fn idle_too_long(state: WebStateView, session: SessionView, now: u128) -> bool {
    match state.session_idle_timeout {
        Some(timeout) => elapsed(session.last_active, now) > timeout,
        None => false,
    }
}

/// The user whose live session the token stands for.
pub open spec fn session_user(state: WebStateView, token: Seq<char>, now: u128) -> Option<
    Seq<char>,
> {
    if state.sessions.contains_key(token) && !idle_too_long(state, state.sessions[token], now) {
        Some(state.sessions[token].username)
    } else {
        None
    }
}

/// The state without a session, and its token noted for clearing.
pub open spec fn without_session(state: WebStateView, token: Seq<char>) -> WebStateView {
    WebStateView {
        sessions: state.sessions.remove(token),
        cleared_owners: state.cleared_owners.push(token),
        ..state
    }
}

/// The state after a token was looked up. Where sessions can time out, a
/// session that was idle for too long has ended, and a live one starts its idle
/// time anew.
pub open spec fn after_lookup(state: WebStateView, token: Seq<char>, now: u128) -> WebStateView {
    if !state.sessions.contains_key(token) || state.session_idle_timeout is None {
        state
    } else if idle_too_long(state, state.sessions[token], now) {
        without_session(state, token)
    } else {
        WebStateView {
            sessions: state.sessions.insert(
                token,
                SessionView { last_active: now, ..state.sessions[token] },
            ),
            ..state
        }
    }
}

/// The user whose live session the request carries.
pub open spec fn request_user(state: WebStateView, token: Option<Seq<char>>, now: u128) -> Option<
    Seq<char>,
> {
    match token {
        Some(token) => session_user(state, token, now),
        None => None,
    }
}

/// The state after the session of a request was looked up.
pub open spec fn after_request(
    state: WebStateView,
    token: Option<Seq<char>>,
    now: u128,
) -> WebStateView {
    match token {
        Some(token) => after_lookup(state, token, now),
        None => state,
    }
}

/// The user whose live session the token stands for. A session that was idle
/// for too long ends here; a live one starts its idle time anew.
pub fn lookup_session(state: &mut WebState, token: &str, now: u128) -> (res: Option<String>)
    requires
        old(state).wf(),
    ensures
        final(state).wf(),
        owned_text_of(res) == session_user(old(state)@, token@, now),
        final(state)@ == after_lookup(old(state)@, token@, now),
{
    let (username, last_active): (String, u128) = match state.sessions.get(token) {
        Some(info) => (info.username.clone(), info.last_active),
        None => {
            return None;
        },
    };
    match state.session_idle_timeout {
        Some(timeout) => {
            let idle: u128 = if now >= last_active {
                now - last_active
            } else {
                0
            };
            if idle > timeout {
                end_session(state, token);
                return None;
            }
            state.sessions.insert(
                token.to_string(),
                SessionInfo { username: username.clone(), last_active: now },
            );
        },
        None => {},
    }
    Some(username)
}

/// Ends a session, and notes its token for clearing whether or not there was
/// one.
pub fn end_session(state: &mut WebState, token: &str)
    requires
        old(state).wf(),
    ensures
        final(state).wf(),
        final(state)@ == without_session(old(state)@, token@),
{
    state.sessions.remove(token);
    state.cleared_owners.push(token.to_string());
    assert(texts(state.cleared_owners@) =~= texts(old(state).cleared_owners@).push(token@));
}

/// The state with a session of the user that has just become active.
pub open spec fn with_session(
    state: WebStateView,
    token: Seq<char>,
    username: Seq<char>,
    now: u128,
) -> WebStateView {
    WebStateView {
        sessions: state.sessions.insert(token, SessionView { username, last_active: now }),
        ..state
    }
}

/// Opens a session of the user under the token.
pub fn open_session(state: &mut WebState, token: String, username: String, now: u128)
    requires
        old(state).wf(),
    ensures
        final(state).wf(),
        final(state)@ == with_session(old(state)@, token@, username@, now),
{
    state.sessions.insert(token, SessionInfo { username, last_active: now });
}

/// The user whose live session the header fields of a request carry.
pub fn session_username(state: &mut WebState, headers: &HeaderMap, now: u128) -> (res: Option<
    String,
>)
    requires
        old(state).wf(),
    ensures
        final(state).wf(),
        owned_text_of(res) == request_user(old(state)@, request_token(*headers), now),
        final(state)@ == after_request(old(state)@, request_token(*headers), now),
{
    match session_token_from_headers(headers) {
        Some(token) => lookup_session(state, token.as_str(), now),
        None => None,
    }
}

/// The token stands for a session of the user, under any casing of the name,
/// and is not the one to be kept.
pub open spec fn revoked(
    state: WebStateView,
    username: Seq<char>,
    keep: Option<Seq<char>>,
    token: Seq<char>,
) -> bool {
    state.sessions.contains_key(token) && same_ignoring_case(
        state.sessions[token].username,
        username,
    ) && Some(token) != keep
}

/// `after` is `before` without the sessions of the user, except the one to be
/// kept; their tokens are noted for clearing, each once, in some order.
pub open spec fn user_sessions_dropped(
    before: WebStateView,
    after: WebStateView,
    username: Seq<char>,
    keep: Option<Seq<char>>,
) -> bool {
    &&& after.sessions == before.sessions.remove_keys(
        Set::new(|token: Seq<char>| revoked(before, username, keep, token)),
    )
    &&& exists|dropped: Seq<Seq<char>>|
        {
            &&& #[trigger] (before.cleared_owners + dropped) == after.cleared_owners
            &&& dropped.no_duplicates()
            &&& forall|token: Seq<char>|
                dropped.contains(token) == #[trigger] revoked(before, username, keep, token)
        }
    &&& after == (WebStateView {
        sessions: after.sessions,
        cleared_owners: after.cleared_owners,
        ..before
    })
}

/// The tokens of the user's sessions, except the one to be kept.
fn user_tokens(state: &WebState, username: &str, keep_token: Option<&str>) -> (res: Vec<String>)
    requires
        state.wf(),
    ensures
        texts(res@).no_duplicates(),
        forall|token: Seq<char>|
            texts(res@).contains(token) == #[trigger] revoked(
                state@,
                username@,
                text_of(keep_token),
                token,
            ),
{
    let mut res: Vec<String> = Vec::new();
    let n: usize = state.sessions.len();
    let mut i: usize = 0;
    let ghost keys = state.sessions.keys();
    let ghost keep = text_of(keep_token);
    proof {
        state.sessions.lemma_keys();
    }
    while i < n
        invariant
            state.wf(),
            i <= n,
            n == keys.len(),
            keys == state.sessions.keys(),
            keys.no_duplicates(),
            keep == text_of(keep_token),
            texts(res@).no_duplicates(),
            forall|j: int|
                0 <= j < texts(res@).len() ==> keys.take(i as int).contains(
                    #[trigger] texts(res@)[j],
                ),
            forall|token: Seq<char>|
                texts(res@).contains(token) == (keys.take(i as int).contains(token)
                    && #[trigger] revoked(state@, username@, keep, token)),
        decreases n - i,
    {
        let token: &String = state.sessions.key_at(i);
        let info: &SessionInfo = state.sessions.value_at(i);
        let kept: bool = match keep_token {
            Some(keep_token) => same_text(token.as_str(), keep_token),
            None => false,
        };
        let ghost found = texts(res@);
        let ghost seen = keys.take(i as int);
        let ghost now_seen = keys.take(i + 1);
        proof {
            assert(now_seen =~= seen.push(token@));
            assert(!seen.contains(token@));
            assert forall|t: Seq<char>|
                now_seen.contains(t) == (seen.contains(t) || t == token@) by {
                if seen.contains(t) {
                    assert(now_seen[seen.index_of(t)] == t);
                }
                assert(now_seen[i as int] == token@);
            }
        }
        if !kept && eq_ignore_ascii_case(info.username.as_str(), username) {
            assert(revoked(state@, username@, keep, token@));
            res.push(token.clone());
            proof {
                assert(texts(res@) =~= found.push(token@));
                assert(!found.contains(token@));
                assert forall|t: Seq<char>|
                    texts(res@).contains(t) == (found.contains(t) || t == token@) by {
                    if found.contains(t) {
                        assert(texts(res@)[found.index_of(t)] == t);
                    }
                    assert(texts(res@)[found.len() as int] == token@);
                }
            }
        } else {
            assert(!revoked(state@, username@, keep, token@));
        }
        i = i + 1;
    }
    proof {
        assert(keys.take(n as int) =~= keys);
        assert forall|token: Seq<char>| texts(res@).contains(token) == #[trigger] revoked(
            state@,
            username@,
            keep,
            token,
        ) by {
            if revoked(state@, username@, keep, token) {
                assert(state.sessions@.contains_key(token));
            }
        }
    }
    res
}

/// Ends every session of the user except the one under `keep_token`, the
/// session that just proved a password. Sessions hold the name as it was typed
/// at login, so its casing does not matter.
pub fn drop_sessions_for_user(state: &mut WebState, username: &str, keep_token: Option<&str>)
    requires
        old(state).wf(),
    ensures
        final(state).wf(),
        user_sessions_dropped(old(state)@, final(state)@, username@, text_of(keep_token)),
{
    let ghost before = state@;
    let ghost keep = text_of(keep_token);
    let dropped: Vec<String> = user_tokens(state, username, keep_token);
    let ghost tokens = texts(dropped@);
    let mut i: usize = 0;
    assert(tokens.take(0).to_set() =~= Set::<Seq<char>>::empty());
    assert(before.sessions.remove_keys(Set::<Seq<char>>::empty()) =~= before.sessions);
    assert(before.cleared_owners + tokens.take(0) =~= before.cleared_owners);
    while i < dropped.len()
        invariant
            i <= dropped.len(),
            tokens == texts(dropped@),
            state.wf(),
            state@ == (WebStateView {
                sessions: before.sessions.remove_keys(tokens.take(i as int).to_set()),
                cleared_owners: before.cleared_owners + tokens.take(i as int),
                ..before
            }),
        decreases dropped.len() - i,
    {
        end_session(state, dropped[i].as_str());
        proof {
            let done = tokens.take(i as int);
            let next = tokens.take(i + 1);
            assert(next =~= done.push(tokens[i as int]));
            assert(next.to_set() =~= done.to_set().insert(tokens[i as int])) by {
                assert forall|t: Seq<char>|
                    next.contains(t) == (done.contains(t) || t == tokens[i as int]) by {
                    if done.contains(t) {
                        assert(next[done.index_of(t)] == t);
                    }
                    assert(next[i as int] == tokens[i as int]);
                }
            }
            assert(before.sessions.remove_keys(next.to_set()) =~= before.sessions.remove_keys(
                done.to_set(),
            ).remove(tokens[i as int]));
            assert(before.cleared_owners + next =~= (before.cleared_owners + done).push(
                tokens[i as int],
            ));
        }
        i = i + 1;
    }
    proof {
        assert(tokens.take(i as int) =~= tokens);
        assert(tokens.to_set() =~= Set::new(
            |token: Seq<char>| revoked(before, username@, keep, token),
        ));
        assert(before.cleared_owners + tokens == state@.cleared_owners);
    }
}

/// Where sessions can time out, one that was idle for longer is no longer good
/// for anything: the request that brings it ends it, and its saved passwords
/// are to be cleared.
pub proof fn idle_session_expires(state: WebStateView, token: Seq<char>, now: u128, t: u128)
    requires
        state.sessions.contains_key(token),
        state.session_idle_timeout is Some,
        elapsed(state.sessions[token].last_active, now) > state.session_idle_timeout->Some_0,
    ensures
        session_user(state, token, now) is None,
        session_user(after_lookup(state, token, now), token, t) is None,
        after_lookup(state, token, now).cleared_owners.contains(token),
{
    let cleared = after_lookup(state, token, now).cleared_owners;
    assert(cleared[cleared.len() - 1] == token);
}

/// A request keeps its session alive: the idle time starts anew.
pub proof fn active_session_stays_alive(state: WebStateView, token: Seq<char>, now: u128, t: u128)
    requires
        session_user(state, token, now) is Some,
        state.session_idle_timeout is Some ==> elapsed(now, t)
            <= state.session_idle_timeout->Some_0,
    ensures
        session_user(after_lookup(state, token, now), token, t) == session_user(state, token, now),
{
}

/// Where sessions cannot time out, they last, and looking them up changes
/// nothing.
pub proof fn sessions_last_without_timeout(
    state: WebStateView,
    token: Seq<char>,
    now: u128,
    t: u128,
)
    requires
        state.session_idle_timeout is None,
    ensures
        session_user(state, token, t) == session_user(state, token, now),
        after_lookup(state, token, now) == state,
{
}

/// Looking one session up, or ending it, touches no other.
pub proof fn other_sessions_are_untouched(
    state: WebStateView,
    token: Seq<char>,
    now: u128,
    other: Seq<char>,
    t: u128,
)
    requires
        other != token,
    ensures
        session_user(after_lookup(state, token, now), other, t) == session_user(state, other, t),
        session_user(without_session(state, token), other, t) == session_user(state, other, t),
{
}

/// A session that was ended is dead, and its saved passwords are to be cleared.
pub proof fn ended_session_is_dead(state: WebStateView, token: Seq<char>, t: u128)
    ensures
        session_user(without_session(state, token), token, t) is None,
        without_session(state, token).cleared_owners.contains(token),
{
    let cleared = without_session(state, token).cleared_owners;
    assert(cleared[cleared.len() - 1] == token);
}

/// When the sessions of a user are dropped, each of them is dead except the one
/// to be kept, and its saved passwords are to be cleared. The one to be kept and
/// those of others live on.
pub proof fn dropped_sessions_are_dead(
    before: WebStateView,
    after: WebStateView,
    username: Seq<char>,
    keep: Option<Seq<char>>,
    token: Seq<char>,
    t: u128,
)
    requires
        user_sessions_dropped(before, after, username, keep),
    ensures
        revoked(before, username, keep, token) ==> session_user(after, token, t) is None
            && after.cleared_owners.contains(token),
        !revoked(before, username, keep, token) ==> session_user(after, token, t) == session_user(
            before,
            token,
            t,
        ),
        keep == Some(token) ==> session_user(after, token, t) == session_user(before, token, t),
        session_user(after, token, t) is Some && same_ignoring_case(
            session_user(after, token, t)->Some_0,
            username,
        ) ==> keep == Some(token),
{
    let dropped = choose|dropped: Seq<Seq<char>>|
        {
            &&& #[trigger] (before.cleared_owners + dropped) == after.cleared_owners
            &&& dropped.no_duplicates()
            &&& forall|token: Seq<char>|
                dropped.contains(token) == #[trigger] revoked(before, username, keep, token)
        };
    if revoked(before, username, keep, token) {
        let i = dropped.index_of(token);
        assert(dropped.contains(token));
        assert((before.cleared_owners + dropped)[before.cleared_owners.len() + i] == token);
    }
}

/// A token stands for the user of its session from the last request on until the
/// allowed idle time has passed, or for ever where none is set; a token without a
/// session stands for nobody, and so does a request without a token.
pub proof fn token_stands_for_its_user_until_idle(
    state: WebStateView,
    token: Seq<char>,
    now: u128,
)
    ensures
        !state.sessions.contains_key(token) ==> session_user(state, token, now) is None,
        state.sessions.contains_key(token) && state.session_idle_timeout is None ==> session_user(
            state,
            token,
            now,
        ) == Some(state.sessions[token].username),
        state.sessions.contains_key(token) ==> (state.session_idle_timeout matches Some(allowed)
            ==> if now <= state.sessions[token].last_active + allowed {
            session_user(state, token, now) == Some(state.sessions[token].username)
        } else {
            session_user(state, token, now) is None
        }),
        request_user(state, Some(token), now) == session_user(state, token, now),
        request_user(state, None, now) is None,
{
}

/// Looking a token up refreshes its session or ends it, as its idle time wants it,
/// and leaves everything else alone; without an idle limit or without a session
/// it leaves all of it alone.
pub proof fn lookup_refreshes_or_ends(state: WebStateView, token: Seq<char>, now: u128)
    ensures
        ({
            let after = after_lookup(state, token, now);
            &&& same_but_for_sessions(after, state)
            &&& forall|other: Seq<char>|
                other != token ==> {
                    &&& #[trigger] after.sessions.contains_key(other)
                        == state.sessions.contains_key(other)
                    &&& state.sessions.contains_key(other) ==> after.sessions[other]
                        == state.sessions[other]
                }
            &&& !state.sessions.contains_key(token) || state.session_idle_timeout is None ==> after
                == state
            &&& state.sessions.contains_key(token) && state.session_idle_timeout is Some ==> if now
                <= state.sessions[token].last_active + state.session_idle_timeout->Some_0 {
                &&& after.sessions.contains_key(token)
                &&& after.sessions[token].username == state.sessions[token].username
                &&& after.sessions[token].last_active == now
                &&& after.cleared_owners == state.cleared_owners
            } else {
                &&& !after.sessions.contains_key(token)
                &&& after.cleared_owners == state.cleared_owners.push(token)
            }
        }),
        after_request(state, Some(token), now) == after_lookup(state, token, now),
        after_request(state, None, now) == state,
{
}

/// Opening a session adds it, active now, or replaces the one of its token;
/// ending one takes it away and notes its token. Nothing else changes.
pub proof fn opening_and_ending_concern_one_session(
    state: WebStateView,
    token: Seq<char>,
    username: Seq<char>,
    now: u128,
    other: Seq<char>,
)
    ensures
        ({
            let opened = with_session(state, token, username, now);
            &&& same_but_for_sessions(opened, state)
            &&& opened.cleared_owners == state.cleared_owners
            &&& opened.sessions.contains_key(token)
            &&& opened.sessions[token].username == username
            &&& opened.sessions[token].last_active == now
            &&& other != token ==> opened.sessions.contains_key(other)
                == state.sessions.contains_key(other)
            &&& other != token && state.sessions.contains_key(other) ==> opened.sessions[other]
                == state.sessions[other]
        }),
        ({
            let ended = without_session(state, token);
            &&& same_but_for_sessions(ended, state)
            &&& ended.cleared_owners == state.cleared_owners.push(token)
            &&& !ended.sessions.contains_key(token)
            &&& other != token ==> ended.sessions.contains_key(other)
                == state.sessions.contains_key(other)
            &&& other != token && state.sessions.contains_key(other) ==> ended.sessions[other]
                == state.sessions[other]
        }),
{
}

/// Dropping the sessions of a user takes exactly those away whose user bears the
/// name in some casing, but for the one to be kept, and notes exactly their
/// tokens behind those noted before. Nothing else changes.
pub proof fn dropping_takes_exactly_the_users_sessions(
    before: WebStateView,
    after: WebStateView,
    username: Seq<char>,
    keep: Option<Seq<char>>,
    token: Seq<char>,
)
    requires
        user_sessions_dropped(before, after, username, keep),
    ensures
        same_but_for_sessions(after, before),
        after.sessions.contains_key(token) <==> before.sessions.contains_key(token) && (
        !same_ignoring_case(before.sessions[token].username, username) || keep == Some(token)),
        after.sessions.contains_key(token) ==> after.sessions[token] == before.sessions[token],
        before.cleared_owners.len() <= after.cleared_owners.len(),
        after.cleared_owners.take(before.cleared_owners.len() as int) == before.cleared_owners,
        after.cleared_owners.skip(before.cleared_owners.len() as int).contains(token)
            <==> before.sessions.contains_key(token) && same_ignoring_case(
            before.sessions[token].username,
            username,
        ) && keep != Some(token),
        after.cleared_owners.skip(before.cleared_owners.len() as int).no_duplicates(),
{
    let dropped = choose|dropped: Seq<Seq<char>>|
        {
            &&& #[trigger] (before.cleared_owners + dropped) == after.cleared_owners
            &&& dropped.no_duplicates()
            &&& forall|token: Seq<char>|
                dropped.contains(token) == #[trigger] revoked(before, username, keep, token)
        };
    assert(after.cleared_owners.take(before.cleared_owners.len() as int)
        =~= before.cleared_owners);
    assert(after.cleared_owners.skip(before.cleared_owners.len() as int) =~= dropped);
    assert(dropped.contains(token) == revoked(before, username, keep, token));
}

} // verus!
