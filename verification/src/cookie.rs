//! The session cookie, on its way out and on its way in.

use axum::http::{HeaderMap, HeaderValue};
use vstd::prelude::*;
use vstd::string::*;

use crate::state::{WebState, WebStateView};
use crate::text::{
    begins_with, chars_of, lemma_before_first, owned_text_of, split, strip_prefix, stripped,
    stripping_undoes_prepending, text_of, trim, trimmed, trimmed_end, trimmed_start,
    trimming_finds_the_core, whitespace,
};

verus! {

/// The header fields of a request.
#[verifier::external_type_specification]
#[verifier::external_body]
#[verifier::reject_recursive_types(T)]
pub struct ExHeaderMap<T>(axum::http::HeaderMap<T>);

/// The value of a header field.
#[verifier::external_type_specification]
#[verifier::external_body]
pub struct ExHeaderValue(axum::http::HeaderValue);

/// The error of a header value that is no visible ASCII text.
#[verifier::external_type_specification]
#[verifier::external_body]
pub struct ExToStrError(axum::http::header::ToStrError);

/// The bytes that a header value holds.
pub uninterp spec fn value_bytes(value: HeaderValue) -> Seq<u8>;

/// The bytes of the first value of each header field, under every spelling of
/// its name by which the fields can be asked for it.
pub uninterp spec fn first_values(headers: HeaderMap) -> Map<Seq<char>, Seq<u8>>;

/// Calls `HeaderMap::get`. Trusted: it finds the first value of the field, and
/// nothing where the field is missing.
#[verifier::external_body]
fn header_value<'a>(headers: &'a HeaderMap, name: &str) -> (res: Option<&'a HeaderValue>)
    ensures
        match res {
            Some(value) => first_values(*headers).contains_key(name@) && value_bytes(*value)
                == first_values(*headers)[name@],
            None => !first_values(*headers).contains_key(name@),
        },
{
    headers.get(name)
}

/// A byte that stands for a printable ASCII character or for a tab.
pub open spec fn visible(b: u8) -> bool {
    32 <= b < 127 || b == 9
}

/// The text that visible bytes stand for.
pub open spec fn visible_text(bytes: Seq<u8>) -> Option<Seq<char>> {
    if forall|i: int| 0 <= i < bytes.len() ==> visible(#[trigger] bytes[i]) {
        Some(bytes.map_values(|b: u8| b as char))
    } else {
        None
    }
}

/// Calls `HeaderValue::to_str`. Trusted: it gives the bytes as text where all
/// of them are visible, and an error otherwise.
#[verifier::external_body]
fn header_text(value: &HeaderValue) -> (res: Result<&str, axum::http::header::ToStrError>)
    ensures
        visible_text(value_bytes(*value)) == (match res {
            Ok(text) => Some(text@),
            Err(_) => None,
        }),
{
    value.to_str()
}

/// The session token in one piece of a `Cookie` header, if the piece is a
/// session cookie with a value.
pub open spec fn token_in(piece: Seq<char>) -> Option<Seq<char>> {
    match stripped(trimmed(piece), "dbx_session="@) {
        Some(value) => if value.len() > 0 {
            Some(value)
        } else {
            None
        },
        None => None,
    }
}

/// The first session token in the pieces of a `Cookie` header.
pub open spec fn first_token(pieces: Seq<Seq<char>>) -> Option<Seq<char>>
    decreases pieces.len(),
{
    if pieces.len() == 0 {
        None
    } else if token_in(pieces[0]) is Some {
        token_in(pieces[0])
    } else {
        first_token(pieces.drop_first())
    }
}

/// The session token that a `Cookie` header carries.
pub open spec fn cookie_token(header: Seq<char>) -> Option<Seq<char>> {
    first_token(split(header, ';'))
}

/// The session token that the header fields of a request carry.
pub open spec fn request_token(headers: HeaderMap) -> Option<Seq<char>> {
    if !first_values(headers).contains_key("cookie"@) {
        None
    } else {
        match visible_text(first_values(headers)["cookie"@]) {
            Some(header) => cookie_token(header),
            None => None,
        }
    }
}

/// The session token in one piece of a `Cookie` header.
fn token_of_piece<'a>(piece: &'a str) -> (res: Option<&'a str>)
    ensures
        text_of(res) == token_in(piece@),
{
    match strip_prefix(trim(piece), "dbx_session=") {
        Some(value) => if value.is_empty() {
            None
        } else {
            Some(value)
        },
        None => None,
    }
}

/// The session token that the text of a `Cookie` header carries.
pub fn session_token_from_cookie(header: &str) -> (res: Option<String>)
    ensures
        owned_text_of(res) == cookie_token(header@),
{
    let chars: Vec<char> = chars_of(header);
    let mut from: usize = 0;
    assert(header@.skip(0) =~= header@);
    loop
        invariant
            chars@ == header@,
            from <= chars.len(),
            cookie_token(header@) == cookie_token(header@.skip(from as int)),
        decreases chars.len() - from,
    {
        let ghost rest = header@.skip(from as int);
        let mut to: usize = from;
        while to < chars.len() && chars[to] != ';'
            invariant
                from <= to <= chars.len(),
                chars@ == header@,
                forall|i: int| from <= i < to ==> #[trigger] chars@[i] != ';',
            decreases chars.len() - to,
        {
            to = to + 1;
        }
        proof {
            let n = to - from;
            assert forall|i: int| 0 <= i < n implies #[trigger] rest[i] != ';' by {
                assert(rest[i] == chars@[from + i]);
            }
            lemma_before_first(rest, ';', n);
            assert(header@.subrange(from as int, to as int) =~= rest.take(n));
            if n < rest.len() {
                assert(split(rest, ';') == seq![rest.take(n)] + split(rest.skip(n + 1), ';'));
                assert(split(rest, ';').drop_first() =~= split(rest.skip(n + 1), ';'));
                assert(rest.skip(n + 1) =~= header@.skip(to + 1));
            } else {
                assert(rest.take(n) =~= rest);
                assert(split(rest, ';') == seq![rest]);
                assert(split(rest, ';').drop_first() =~= Seq::<Seq<char>>::empty());
            }
        }
        match token_of_piece(header.substring_char(from, to)) {
            Some(token) => {
                return Some(token.to_string());
            },
            None => {},
        }
        if to < chars.len() {
            from = to + 1;
        } else {
            assert(first_token(Seq::<Seq<char>>::empty()) is None);
            return None;
        }
    }
}

/// The session token that the header fields of a request carry.
pub fn session_token_from_headers(headers: &HeaderMap) -> (res: Option<String>)
    ensures
        owned_text_of(res) == request_token(*headers),
{
    match header_value(headers, "cookie") {
        Some(value) => match header_text(value) {
            Ok(header) => session_token_from_cookie(header),
            Err(_) => None,
        },
        None => None,
    }
}

/// The path that session cookies are limited to.
pub fn session_cookie_path(state: &WebState) -> (res: &str)
    ensures
        res@ == state@.public_base_path,
{
    state.public_base_path.as_str()
}

/// The attribute that keeps a cookie off plain HTTP, where the deployer has
/// asked for it.
pub open spec fn secure_attribute(secure: bool) -> Seq<char> {
    if secure {
        "; Secure"@
    } else {
        ""@
    }
}

/// The `Set-Cookie` text that gives a client its session token.
pub open spec fn session_cookie_text(state: WebStateView, token: Seq<char>) -> Seq<char> {
    "dbx_session="@ + token + "; Path="@ + state.public_base_path + "; HttpOnly; SameSite=Lax"@
        + secure_attribute(state.cookie_secure)
}

/// The `Set-Cookie` text that takes the session token from a client.
pub open spec fn expired_cookie_text(state: WebStateView) -> Seq<char> {
    "dbx_session=; Path="@ + state.public_base_path + "; HttpOnly; Max-Age=0"@ + secure_attribute(
        state.cookie_secure,
    )
}

/// The `Set-Cookie` text that gives a client its session token.
pub fn session_cookie(state: &WebState, token: &str) -> (res: String)
    ensures
        res@ == session_cookie_text(state@, token@),
{
    let secure: &str = if state.cookie_secure {
        "; Secure"
    } else {
        ""
    };
    let mut res: String = "dbx_session=".to_string();
    res.append(token);
    res.append("; Path=");
    res.append(session_cookie_path(state));
    res.append("; HttpOnly; SameSite=Lax");
    res.append(secure);
    res
}

/// The `Set-Cookie` text that takes the session token from a client.
pub fn expired_session_cookie(state: &WebState) -> (res: String)
    ensures
        res@ == expired_cookie_text(state@),
{
    let secure: &str = if state.cookie_secure {
        "; Secure"
    } else {
        ""
    };
    let mut res: String = "dbx_session=; Path=".to_string();
    res.append(session_cookie_path(state));
    res.append("; HttpOnly; Max-Age=0");
    res.append(secure);
    res
}

/// A token that survives the way through a cookie: not empty, without a
/// semicolon, and without whitespace at its end.
pub open spec fn cookie_safe(token: Seq<char>) -> bool {
    token.len() > 0 && !whitespace(token.last()) && forall|i: int|
        0 <= i < token.len() ==> #[trigger] token[i] != ';'
}

proof fn lemma_first_piece(piece: Seq<char>, rest: Seq<char>)
    requires
        forall|i: int| 0 <= i < piece.len() ==> #[trigger] piece[i] != ';',
    ensures
        split(piece, ';') == seq![piece],
        split(piece + seq![';'] + rest, ';') == seq![piece] + split(rest, ';'),
{
    lemma_before_first(piece, ';', piece.len() as int);
    let whole = piece + seq![';'] + rest;
    let n = piece.len() as int;
    assert(forall|i: int| 0 <= i < n ==> whole[i] == piece[i]);
    assert(whole[n] == ';');
    lemma_before_first(whole, ';', n);
    assert(whole.take(n) =~= piece);
    assert(whole.skip(n + 1) =~= rest);
}

proof fn lemma_token_piece(token: Seq<char>)
    requires
        cookie_safe(token),
    ensures
        token_in("dbx_session="@ + token) == Some(token),
        forall|i: int|
            0 <= i < 12 + token.len() ==> #[trigger] ("dbx_session="@ + token)[i] != ';',
{
    reveal_strlit("dbx_session=");
    let piece = "dbx_session="@ + token;
    assert(piece[0] == 'd');
    assert(piece.last() == token.last());
    assert(trimmed(piece) == piece);
    assert(piece.take(12) =~= "dbx_session="@);
    assert(piece.skip(12) =~= token);
}

/// A client that sends back the cookie it was given, either its name and value
/// alone or the `Set-Cookie` text as a whole, presents the token it was given.
pub proof fn cookie_gives_back_token(state: WebStateView, token: Seq<char>)
    requires
        cookie_safe(token),
    ensures
        cookie_token("dbx_session="@ + token) == Some(token),
        cookie_token(session_cookie_text(state, token)) == Some(token),
{
    reveal_strlit("; Path=");
    lemma_token_piece(token);
    let piece = "dbx_session="@ + token;
    let rest = " Path="@ + state.public_base_path + "; HttpOnly; SameSite=Lax"@ + secure_attribute(
        state.cookie_secure,
    );
    reveal_strlit(" Path=");
    reveal_strlit("dbx_session=");
    lemma_first_piece(piece, rest);
    assert("; Path="@ =~= seq![';'] + " Path="@);
    assert(session_cookie_text(state, token) =~= piece + seq![';'] + rest);
}

/// The cookie that ends a session carries no token, provided that the path it
/// is limited to has no semicolon in it.
pub proof fn expired_cookie_has_no_token(state: WebStateView)
    requires
        forall|i: int|
            0 <= i < state.public_base_path.len() ==> #[trigger] state.public_base_path[i] != ';',
    ensures
        cookie_token(expired_cookie_text(state)) is None,
{
    reveal_strlit("dbx_session=; Path=");
    reveal_strlit("dbx_session=");
    reveal_strlit(" Path=");
    reveal_strlit(" HttpOnly");
    reveal_strlit(" Max-Age=0");
    reveal_strlit(" Secure");
    reveal_strlit("; HttpOnly; Max-Age=0");
    reveal_strlit("; Secure");
    reveal_strlit("");
    reveal_strlit("Path=");
    reveal_strlit("HttpOnly");
    reveal_strlit("Max-Age=0");
    reveal_strlit("Secure");
    let a = "dbx_session="@;
    let b = " Path="@ + state.public_base_path;
    let c = " HttpOnly"@;
    let d = " Max-Age=0"@;
    let e = " Secure"@;
    assert(trimmed(a) == a);
    assert(a.take(12) =~= a);
    assert(b =~= seq![' '] + ("Path="@ + state.public_base_path));
    assert(c =~= seq![' '] + "HttpOnly"@);
    assert(d =~= seq![' '] + "Max-Age=0"@);
    assert(e =~= seq![' '] + "Secure"@);
    lemma_other_piece(b, "Path="@ + state.public_base_path);
    lemma_other_piece(c, "HttpOnly"@);
    lemma_other_piece(d, "Max-Age=0"@);
    lemma_other_piece(e, "Secure"@);
    let semicolon = seq![';'];
    let tail = if state.cookie_secure {
        d + semicolon + e
    } else {
        d
    };
    lemma_first_piece(e, e);
    lemma_first_piece(d, e);
    lemma_first_piece(c, tail);
    lemma_first_piece(b, c + semicolon + tail);
    lemma_first_piece(a, b + semicolon + (c + semicolon + tail));
    assert(expired_cookie_text(state) =~= a + semicolon + (b + semicolon + (c + semicolon + tail)));
    let pieces = split(expired_cookie_text(state), ';');
    if state.cookie_secure {
        assert(pieces =~= seq![a, b, c, d, e]);
    } else {
        assert(pieces =~= seq![a, b, c, d]);
    }
    lemma_no_token(pieces);
}

proof fn lemma_no_token(pieces: Seq<Seq<char>>)
    requires
        forall|i: int| 0 <= i < pieces.len() ==> token_in(#[trigger] pieces[i]) is None,
    ensures
        first_token(pieces) is None,
    decreases pieces.len(),
{
    if pieces.len() > 0 {
        let rest = pieces.drop_first();
        assert(forall|i: int| 0 <= i < rest.len() ==> rest[i] == pieces[i + 1]);
        lemma_no_token(rest);
    }
}

/// A piece that starts, behind a space, with another letter than the session
/// cookie holds no token.
proof fn lemma_other_piece(piece: Seq<char>, inner: Seq<char>)
    requires
        piece == seq![' '] + inner,
        inner.len() > 0,
        inner[0] != 'd',
        !whitespace(inner[0]),
    ensures
        token_in(piece) is None,
{
    reveal_strlit("dbx_session=");
    assert(piece.drop_first() =~= inner);
    assert(trimmed_start(piece) == trimmed_start(inner));
    assert(trimmed_start(inner) == inner);
    lemma_trimmed_end_is_prefix(inner);
    let t = trimmed(piece);
    if begins_with(t, "dbx_session="@) {
        assert(t.take(12)[0] == 'd');
    }
}

proof fn lemma_trimmed_end_is_prefix(s: Seq<char>)
    ensures
        trimmed_end(s).len() <= s.len(),
        trimmed_end(s) == s.take(trimmed_end(s).len() as int),
    decreases s.len(),
{
    if s.len() > 0 && whitespace(s.last()) {
        lemma_trimmed_end_is_prefix(s.drop_last());
        assert(trimmed_end(s) =~= s.take(trimmed_end(s).len() as int));
    } else {
        assert(s.take(s.len() as int) =~= s);
    }
}

/// The cookie of a session carries its token and is limited to the path of the
/// server; the one that ends it carries none and is over at once. Both go over
/// encrypted connections only exactly where the server is set to that.
pub proof fn cookies_read_as_set(state: WebStateView, token: Seq<char>)
    ensures
        !state.cookie_secure ==> session_cookie_text(state, token) == "dbx_session="@ + token
            + "; Path="@ + state.public_base_path + "; HttpOnly; SameSite=Lax"@,
        state.cookie_secure ==> session_cookie_text(state, token) == "dbx_session="@ + token
            + "; Path="@ + state.public_base_path + "; HttpOnly; SameSite=Lax; Secure"@,
        !state.cookie_secure ==> expired_cookie_text(state) == "dbx_session=; Path="@
            + state.public_base_path + "; HttpOnly; Max-Age=0"@,
        state.cookie_secure ==> expired_cookie_text(state) == "dbx_session=; Path="@
            + state.public_base_path + "; HttpOnly; Max-Age=0; Secure"@,
{
    reveal_strlit("");
    reveal_strlit("; Secure");
    reveal_strlit("; HttpOnly; SameSite=Lax");
    reveal_strlit("; HttpOnly; SameSite=Lax; Secure");
    reveal_strlit("; HttpOnly; Max-Age=0");
    reveal_strlit("; HttpOnly; Max-Age=0; Secure");
    assert("; HttpOnly; SameSite=Lax"@ + "; Secure"@ =~= "; HttpOnly; SameSite=Lax; Secure"@);
    assert("; HttpOnly; Max-Age=0"@ + "; Secure"@ =~= "; HttpOnly; Max-Age=0; Secure"@);
    let head = "dbx_session="@ + token + "; Path="@ + state.public_base_path;
    let tail = "dbx_session=; Path="@ + state.public_base_path;
    if state.cookie_secure {
        assert(session_cookie_text(state, token) =~= head + ("; HttpOnly; SameSite=Lax"@
            + "; Secure"@));
        assert(expired_cookie_text(state) =~= tail + ("; HttpOnly; Max-Age=0"@ + "; Secure"@));
    } else {
        assert(session_cookie_text(state, token) =~= head + "; HttpOnly; SameSite=Lax"@);
        assert(expired_cookie_text(state) =~= tail + "; HttpOnly; Max-Age=0"@);
    }
}

/// A piece of a `Cookie` header gives the value of a session cookie, whatever
/// whitespace is around it.
pub proof fn session_cookie_gives_its_value(
    before: Seq<char>,
    value: Seq<char>,
    after: Seq<char>,
)
    requires
        forall|i: int| 0 <= i < before.len() ==> whitespace(#[trigger] before[i]),
        forall|i: int| 0 <= i < after.len() ==> whitespace(#[trigger] after[i]),
        value.len() > 0 ==> !whitespace(value.last()),
    ensures
        value.len() > 0 ==> token_in(before + ("dbx_session="@ + value) + after) == Some(value),
        value.len() == 0 ==> token_in(before + ("dbx_session="@ + value) + after) is None,
{
    reveal_strlit("dbx_session=");
    let core = "dbx_session="@ + value;
    assert(core[0] == 'd');
    assert(core.last() == if value.len() > 0 {
        value.last()
    } else {
        '='
    });
    trimming_finds_the_core(before, core, after);
    stripping_undoes_prepending(core, "dbx_session="@, value);
}

/// A piece of a `Cookie` header gives a token only if it is a session cookie with
/// that value, but for whitespace around it.
pub proof fn only_a_session_cookie_gives_a_token(piece: Seq<char>, value: Seq<char>)
    requires
        token_in(piece) == Some(value),
    ensures
        value.len() > 0,
        trimmed(piece) == "dbx_session="@ + value,
{
    stripping_undoes_prepending(trimmed(piece), "dbx_session="@, value);
}

/// A `Cookie` header gives the token of its first piece that has one; the pieces
/// stand between semicolons.
pub proof fn first_session_cookie_counts(piece: Seq<char>, rest: Seq<char>)
    requires
        forall|i: int| 0 <= i < piece.len() ==> #[trigger] piece[i] != ';',
    ensures
        cookie_token(piece) == token_in(piece),
        token_in(piece) is Some ==> cookie_token(piece + seq![';'] + rest) == token_in(piece),
        token_in(piece) is None ==> cookie_token(piece + seq![';'] + rest) == cookie_token(rest),
{
    lemma_first_piece(piece, rest);
    let one = seq![piece];
    assert(one.drop_first() =~= Seq::<Seq<char>>::empty());
    let all = one + split(rest, ';');
    assert(all[0] == piece);
    assert(all.drop_first() =~= split(rest, ';'));
    assert(first_token(one.drop_first()) is None);
}

/// A request carries the token in its `Cookie` header, if that header is there
/// and is made of visible characters, tabs included, and no other header.
pub proof fn request_carries_its_cookie(headers: HeaderMap, header: Seq<char>)
    ensures
        !first_values(headers).contains_key("cookie"@) ==> request_token(headers) is None,
        first_values(headers).contains_key("cookie"@) ==> {
            let bytes = first_values(headers)["cookie"@];
            &&& (exists|i: int|
                0 <= i < bytes.len() && !(32 <= #[trigger] bytes[i] < 127 || bytes[i] == 9))
                ==> request_token(headers) is None
            &&& (bytes.len() == header.len() && forall|i: int|
                0 <= i < bytes.len() ==> (32 <= #[trigger] bytes[i] < 127 || bytes[i] == 9)
                    && header[i] == bytes[i] as char) ==> request_token(headers) == cookie_token(
                header,
            )
        },
{
    if first_values(headers).contains_key("cookie"@) {
        let bytes = first_values(headers)["cookie"@];
        if bytes.len() == header.len() && forall|i: int|
            0 <= i < bytes.len() ==> (32 <= #[trigger] bytes[i] < 127 || bytes[i] == 9)
                && header[i] == bytes[i] as char {
            assert(bytes.map_values(|b: u8| b as char) =~= header);
            assert forall|i: int| 0 <= i < bytes.len() implies visible(#[trigger] bytes[i]) by {}
        }
        if exists|i: int|
            0 <= i < bytes.len() && !(32 <= #[trigger] bytes[i] < 127 || bytes[i] == 9) {
            let i = choose|i: int|
                0 <= i < bytes.len() && !(32 <= #[trigger] bytes[i] < 127 || bytes[i] == 9);
            assert(!visible(bytes[i]));
        }
    }
}

} // verus!
