use dbx_web_auth::paths::{api_path_suffix, middleware_api_path_suffix};

#[test]
fn api_path_suffix_handles_root_api_paths() {
    assert_eq!(api_path_suffix("/api/auth/check", "/"), Some("auth/check"));
    assert_eq!(api_path_suffix("/api/query/execute", "/"), Some("query/execute"));
    assert_eq!(api_path_suffix("/dbx/api/auth/check", "/"), None);
}

#[test]
fn api_path_suffix_handles_mounted_api_paths() {
    assert_eq!(api_path_suffix("/dbx/api/auth/check", "/dbx"), Some("auth/check"));
    assert_eq!(api_path_suffix("/tools/dbx/api/query/execute", "/tools/dbx"), Some("query/execute"));
    assert_eq!(api_path_suffix("/dbx/login", "/dbx"), None);
}

#[test]
fn middleware_api_path_suffix_handles_nested_router_paths() {
    assert_eq!(middleware_api_path_suffix("/auth/check", "/"), Some("auth/check"));
    assert_eq!(middleware_api_path_suffix("/connection/list", "/"), Some("connection/list"));
    assert_eq!(middleware_api_path_suffix("/api/connection/list", "/"), Some("connection/list"));
    assert_eq!(middleware_api_path_suffix("/dbx/api/connection/list", "/dbx"), Some("connection/list"));
    assert_eq!(middleware_api_path_suffix("/dbx/login", "/dbx"), None);
}

#[test]
fn slashes_at_the_end_of_the_mount_do_not_matter() {
    for base in ["/dbx", "/dbx/", "/dbx//"] {
        assert_eq!(api_path_suffix("/dbx/api/x", base), Some("x"));
        assert_eq!(api_path_suffix("/api/x", base), Some("x"));
        assert_eq!(middleware_api_path_suffix("/dbx", base), None);
        assert_eq!(middleware_api_path_suffix("/other", base), Some("other"));
    }
}

#[test]
fn paths_that_are_no_api_paths() {
    assert_eq!(api_path_suffix("/api", "/"), None);
    assert_eq!(api_path_suffix("/api/", "/"), Some(""));
    assert_eq!(api_path_suffix("", ""), None);
    assert_eq!(middleware_api_path_suffix("/", "/"), None);
    assert_eq!(middleware_api_path_suffix("", "/"), None);
    assert_eq!(middleware_api_path_suffix("x", "/"), None);
}

#[test]
fn mount_that_looks_like_the_api() {
    assert_eq!(api_path_suffix("/api/api/x", "/api"), Some("api/x"));
}
