//! Which request paths belong to the API.

use vstd::prelude::*;
use vstd::string::*;

use crate::text::{
    begins_with, strip_prefix, stripped, stripping_undoes_prepending, text_of,
    trailing_characters_come_off, trim_end_matches, without_trailing,
};

verus! {

/// The path under which the server is mounted, without slashes at its end.
pub open spec fn mount(public_base_path: Seq<char>) -> Seq<char> {
    without_trailing(public_base_path, '/')
}

/// What follows `/api/` in the path, at the root or below the mount.
pub open spec fn api_suffix(path: Seq<char>, public_base_path: Seq<char>) -> Option<Seq<char>> {
    let base = mount(public_base_path);
    if begins_with(path, "/api/"@) {
        stripped(path, "/api/"@)
    } else if base.len() > 0 && begins_with(path, base) {
        stripped(path.skip(base.len() as int), "/api/"@)
    } else {
        None
    }
}

/// The API path that the guard takes the request path for: as [`api_suffix`],
/// but a path that lies neither below `/api/` nor below the mount counts as one
/// whose `/api` a router has already taken off.
pub open spec fn guarded_suffix(path: Seq<char>, public_base_path: Seq<char>) -> Option<Seq<char>> {
    let base = mount(public_base_path);
    if api_suffix(path, public_base_path) is Some {
        api_suffix(path, public_base_path)
    } else if base.len() > 0 && begins_with(path, base) {
        None
    } else if path.len() > 1 && path[0] == '/' {
        Some(path.skip(1))
    } else {
        None
    }
}

/// What follows `/api/` in the path, at the root or below the mount.
pub fn api_path_suffix<'a>(path: &'a str, public_base_path: &str) -> (res: Option<&'a str>)
    ensures
        text_of(res) == api_suffix(path@, public_base_path@),
{
    if let Some(suffix) = strip_prefix(path, "/api/") {
        return Some(suffix);
    }
    let base: &str = trim_end_matches(public_base_path, '/');
    if base.is_empty() {
        return None;
    }
    match strip_prefix(path, base) {
        Some(rest) => strip_prefix(rest, "/api/"),
        None => None,
    }
}

/// The API path that the guard takes the request path for.
pub fn middleware_api_path_suffix<'a>(path: &'a str, public_base_path: &str) -> (res: Option<
    &'a str,
>)
    ensures
        text_of(res) == guarded_suffix(path@, public_base_path@),
{
    if let Some(suffix) = api_path_suffix(path, public_base_path) {
        return Some(suffix);
    }
    let base: &str = trim_end_matches(public_base_path, '/');
    if !base.is_empty() && strip_prefix(path, base).is_some() {
        return None;
    }
    proof {
        reveal_strlit("/");
        if path@.len() > 0 {
            assert(path@.take(1)[0] == path@[0]);
            if path@[0] == '/' {
                assert(path@.take(1) =~= "/"@);
            }
        }
    }
    match strip_prefix(path, "/") {
        Some(suffix) => if suffix.is_empty() {
            None
        } else {
            Some(suffix)
        },
        None => None,
    }
}

/// Slashes at the end of the mount do not matter.
pub proof fn mount_ignores_trailing_slash(path: Seq<char>, public_base_path: Seq<char>)
    ensures
        api_suffix(path, public_base_path.push('/')) == api_suffix(path, public_base_path),
        guarded_suffix(path, public_base_path.push('/')) == guarded_suffix(path, public_base_path),
{
    assert(public_base_path.push('/').drop_last() =~= public_base_path);
}

/// Every API path at the root is found, whatever the mount.
pub proof fn root_api_path_is_found(suffix: Seq<char>, public_base_path: Seq<char>)
    ensures
        api_suffix("/api/"@ + suffix, public_base_path) == Some(suffix),
        guarded_suffix("/api/"@ + suffix, public_base_path) == Some(suffix),
{
    lemma_strip_prepended("/api/"@, suffix);
}

/// Every API path below the mount is found. The exception is a path below a
/// mount that looks like an API path at the root.
pub proof fn mounted_api_path_is_found(suffix: Seq<char>, public_base_path: Seq<char>)
    requires
        !begins_with(mount(public_base_path) + ("/api/"@ + suffix), "/api/"@) || mount(
            public_base_path,
        ).len() == 0,
    ensures
        api_suffix(mount(public_base_path) + ("/api/"@ + suffix), public_base_path) == Some(suffix),
        guarded_suffix(mount(public_base_path) + ("/api/"@ + suffix), public_base_path) == Some(
            suffix,
        ),
{
    let base = mount(public_base_path);
    lemma_strip_prepended("/api/"@, suffix);
    if base.len() == 0 {
        assert(base + ("/api/"@ + suffix) =~= "/api/"@ + suffix);
    } else {
        lemma_strip_prepended(base, "/api/"@ + suffix);
    }
}

/// A path below the mount that does not go on with `/api/` is no API path,
/// unless it is one at the root.
pub proof fn other_mounted_path_is_open(rest: Seq<char>, public_base_path: Seq<char>)
    requires
        mount(public_base_path).len() > 0,
        !begins_with(rest, "/api/"@),
        !begins_with(mount(public_base_path) + rest, "/api/"@),
    ensures
        guarded_suffix(mount(public_base_path) + rest, public_base_path) is None,
{
    lemma_strip_prepended(mount(public_base_path), rest);
}

/// The guard never misses what [`api_path_suffix`] finds.
pub proof fn guard_agrees_with_api_suffix(path: Seq<char>, public_base_path: Seq<char>)
    ensures
        api_suffix(path, public_base_path) is Some ==> guarded_suffix(path, public_base_path)
            == api_suffix(path, public_base_path),
{
}

proof fn lemma_strip_prepended(prefix: Seq<char>, rest: Seq<char>)
    ensures
        stripped(prefix + rest, prefix) == Some(rest),
{
    assert((prefix + rest).take(prefix.len() as int) =~= prefix);
    assert((prefix + rest).skip(prefix.len() as int) =~= rest);
}

/// The mount is the base path without the slashes at its end.
pub proof fn mount_has_no_trailing_slash(base: Seq<char>, n: nat)
    requires
        base.len() > 0 ==> base.last() != '/',
    ensures
        mount(base + Seq::new(n, |i: int| '/')) == base,
{
    trailing_characters_come_off(base, '/', n);
}

/// What is taken for an API path is one: the path is the suffix behind `/api/`, at
/// the root or below the mount.
pub proof fn api_suffix_is_behind_api(
    path: Seq<char>,
    public_base_path: Seq<char>,
    suffix: Seq<char>,
)
    requires
        api_suffix(path, public_base_path) == Some(suffix),
    ensures
        path == "/api/"@ + suffix || (mount(public_base_path).len() > 0 && path == mount(
            public_base_path,
        ) + ("/api/"@ + suffix)),
{
    let base = mount(public_base_path);
    stripping_undoes_prepending(path, "/api/"@, suffix);
    if !begins_with(path, "/api/"@) {
        let rest = path.skip(base.len() as int);
        stripping_undoes_prepending(path, base, rest);
        stripping_undoes_prepending(rest, "/api/"@, suffix);
    }
}

/// What the guard takes for an API path is one, or a path at the root, outside the
/// mount, that is more than a slash.
pub proof fn guarded_suffix_is_behind_api_or_root(
    path: Seq<char>,
    public_base_path: Seq<char>,
    suffix: Seq<char>,
)
    requires
        guarded_suffix(path, public_base_path) == Some(suffix),
    ensures
        path == "/api/"@ + suffix || (mount(public_base_path).len() > 0 && path == mount(
            public_base_path,
        ) + ("/api/"@ + suffix)) || (path == seq!['/'] + suffix && suffix.len() > 0),
{
    if api_suffix(path, public_base_path) is Some {
        api_suffix_is_behind_api(path, public_base_path, suffix);
    } else {
        assert(path =~= seq!['/'] + path.skip(1));
    }
}

/// A path at the root that is more than a slash is guarded as what follows the
/// slash, unless it lies below the mount or goes on with `api/`.
pub proof fn root_path_is_guarded(suffix: Seq<char>, public_base_path: Seq<char>)
    requires
        suffix.len() > 0,
        !begins_with(seq!['/'] + suffix, "/api/"@),
        mount(public_base_path).len() == 0 || !begins_with(
            seq!['/'] + suffix,
            mount(public_base_path),
        ),
    ensures
        api_suffix(seq!['/'] + suffix, public_base_path) is None,
        guarded_suffix(seq!['/'] + suffix, public_base_path) == Some(suffix),
{
    assert((seq!['/'] + suffix).skip(1) =~= suffix);
}

} // verus!
