use dbx_web_auth::password::{hash_password, hash_password_with_salt, verify_password};
use dbx_web_auth::reply::Status;

const SALT: &str = "c29tZXNhbHRzb21lc2FsdA";

#[test]
fn hash_fits_its_password_only() {
    let hash = hash_password("secret").unwrap();
    assert!(verify_password("secret", &hash));
    assert!(!verify_password("Secret", &hash));
    assert!(!verify_password("", &hash));
    assert!(!verify_password(&hash, &hash));
}

#[test]
fn salts_differ() {
    assert_ne!(hash_password("secret").unwrap(), hash_password("secret").unwrap());
}

#[test]
fn hash_names_its_costs_and_salt() {
    let hash = hash_password_with_salt("secret", SALT).unwrap();
    assert!(hash.starts_with("$argon2id$v=19$m=19456,t=2,p=1$c29tZXNhbHRzb21lc2FsdA$"));
    assert_eq!(hash, hash_password_with_salt("secret", SALT).unwrap());
    assert_ne!(hash, hash_password_with_salt("secreT", SALT).unwrap());
    assert!(verify_password("secret", &hash));
}

#[test]
fn generated_salts_are_sixteen_bytes_in_base64() {
    let hash = hash_password("secret").unwrap();
    let salt = hash.split('$').nth(4).unwrap();
    assert_eq!(salt.len(), 22);
    assert!(salt.chars().all(|c| c.is_ascii_alphanumeric() || c == '+' || c == '/'));
    assert!("AQgw".contains(salt.chars().last().unwrap()));
}

#[test]
fn refused_salts_are_internal_errors() {
    for salt in ["", "abc", "not base64!", "AAAAAAAA"] {
        assert_eq!(hash_password_with_salt("secret", salt).unwrap_err(), Status::InternalServerError);
    }
}

#[test]
fn texts_that_are_no_hash_fit_nothing() {
    for hash in ["", "secret", "$argon2id$", "$argon2id$v=19$m=19456,t=2,p=1$c29tZXNhbHRzb21lc2FsdA"] {
        assert!(!verify_password("secret", hash));
    }
    let hash = hash_password_with_salt("secret", SALT).unwrap();
    assert!(!verify_password("secret", &hash[1..]));
    assert!(!verify_password("secret", &format!("{hash}$")));
    assert!(!verify_password("secret", &format!("x{hash}")));
    // Texts with the outline of a hash that cannot be read as one.
    assert!(!verify_password("secret", &hash.replace("v=19", "v=x")));
    assert!(!verify_password("secret", &hash.replace("t=2", "t=02")));
    assert!(!verify_password("secret", &hash.replace(SALT, "a b")));
    assert!(!verify_password("secret", "$argon2id$v=19$m=19456,t=2,p=1$c29tZXNhbHQ$!"));
    assert!(!verify_password("secret", &hash.replace("argon2id", "scrypt")));
}

#[test]
fn hashes_with_too_many_lanes_fit_nothing() {
    let hash = hash_password_with_salt("secret", SALT).unwrap();
    for lanes in ["p=16777216", "p=536870912", "p=999999999", "p=4294967295", "p=99999999999999999999"] {
        assert!(!verify_password("secret", &hash.replace("p=1", lanes)));
    }
}
