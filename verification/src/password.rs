//! Password hashes in the PHC text format, computed and checked by `argon2`.

use argon2::password_hash::rand_core::OsRng;
use argon2::password_hash::{PasswordHasher, PasswordVerifier, SaltString};
use argon2::{Argon2, PasswordHash};
use vstd::prelude::*;

use crate::reply::Status;
use crate::text::{chars_of, split};

verus! {

/// The error of the `password_hash` crate, which says why a text is no password
/// hash or why a password does not fit it.
#[verifier::external_type_specification]
#[verifier::external_body]
pub struct ExPasswordHashError(argon2::password_hash::Error);

/// Does `PasswordHash::new` read the text as a password hash?
pub uninterp spec fn is_password_hash(text: Seq<char>) -> bool;

/// Does `argon2` find that the password fits the hash text? The text names its
/// own algorithm, costs and salt.
pub uninterp spec fn argon2_verifies(password: Seq<char>, hash: Seq<char>) -> bool;

/// The hash text that `argon2` computes with its default costs from a password
/// and a salt in base64, if it accepts them.
pub uninterp spec fn argon2_hash(password: Seq<char>, salt: Seq<char>) -> Option<Seq<char>>;

/// A field named `p`, the lane count, starts at position `at`.
pub open spec fn lanes_at(hash: Seq<char>, at: int) -> bool {
    0 <= at && at + 1 < hash.len() && hash[at] == 'p' && hash[at + 1] == '='
}

/// The nine characters from position `at` on are decimal digits.
pub open spec fn nine_digits_at(hash: Seq<char>, at: int) -> bool {
    &&& 0 <= at
    &&& at + 9 <= hash.len()
    &&& forall|i: int| at <= i < at + 9 ==> '0' <= #[trigger] hash[i] <= '9'
}

/// The last lane count in the text has nine digits or more. No hash of that
/// kind fits a password: `argon2` allows at most 16777215 lanes.
pub open spec fn too_many_lanes(hash: Seq<char>) -> bool {
    exists|at: int|
        #[trigger] lanes_at(hash, at) && nine_digits_at(hash, at + 2) && forall|later: int|
            at < later ==> !#[trigger] lanes_at(hash, later)
}

/// The password fits the hash text. A text that is no password hash fits nothing.
pub open spec fn password_fits(password: Seq<char>, hash: Seq<char>) -> bool {
    !too_many_lanes(hash) && is_password_hash(hash) && argon2_verifies(password, hash)
}

/// The outline of a hash text: behind a first dollar sign the name of the
/// algorithm, then, between dollar signs, a version and costs that may be left
/// out, a salt and the hash proper.
pub open spec fn hash_outline(hash: Seq<char>) -> bool {
    let fields = split(hash, '$');
    &&& 4 <= fields.len() <= 6
    &&& fields[0].len() == 0
    &&& fields[1] == "argon2d"@ || fields[1] == "argon2i"@ || fields[1] == "argon2id"@
}

/// Calls `PasswordHash::new` and, on the hash it reads, the `verify_password` of
/// `Argon2::default()`. The error is that of the first call; the truth value says
/// whether the second one succeeded. Trusted: whether the text is read depends on
/// the text alone, and a text without a dollar sign in front is not; whether the
/// password fits depends on the password and the text alone, and none fits a text
/// that has not even the outline of a hash. What else makes a text a hash is left
/// to the name. Ruled out are texts with too many lanes: the crate multiplies the
/// lane count by eight before it bounds it, which can overflow. The call takes as
/// much memory and time as the costs in the text ask for.
#[verifier::external_body]
fn argon2_verify(password: &str, hash: &str) -> (res: Result<bool, argon2::password_hash::Error>)
    requires
        !too_many_lanes(hash@),
    ensures
        res is Ok == is_password_hash(hash@),
        res matches Ok(fits) ==> fits == argon2_verifies(password@, hash@),
        hash@.len() == 0 || hash@[0] != '$' ==> res is Err,
        !hash_outline(hash@) ==> !(res matches Ok(fits) && fits),
{
    let parsed = PasswordHash::new(hash)?;
    Ok(Argon2::default().verify_password(password.as_bytes(), &parsed).is_ok())
}

/// As many characters fit in the 4294967295 bytes that `argon2` takes at most
/// for a password, whatever they are.
pub const LONGEST_PASSWORD: usize = 1_073_741_823;

/// A character of the base64 alphabet.
pub open spec fn base64_char(c: char) -> bool {
    'A' <= c <= 'Z' || 'a' <= c <= 'z' || '0' <= c <= '9' || c == '+' || c == '/'
}

/// Sixteen bytes in base64: the last character holds only two of their bits.
pub open spec fn salt_text(salt: Seq<char>) -> bool {
    &&& salt.len() == 22
    &&& forall|i: int| 0 <= i < 22 ==> base64_char(#[trigger] salt[i])
    &&& salt[21] == 'A' || salt[21] == 'Q' || salt[21] == 'g' || salt[21] == 'w'
}

/// Calls the `hash_password` of `Argon2::default()` on the salt that
/// `SaltString::from_b64` reads from the text. Trusted: the result depends on
/// the password and the salt alone; the text that comes out is a password hash
/// that fits the password it was made from, and it names one lane; and with a salt of sixteen
/// bytes only a password that is too long is refused.
#[verifier::external_body]
fn argon2_hash_password(password: &str, salt: &str) -> (res: Result<
    String,
    argon2::password_hash::Error,
>)
    ensures
        argon2_hash(password@, salt@) == (match res {
            Ok(hash) => Some(hash@),
            Err(_) => None,
        }),
        res matches Ok(hash) ==> password_fits(password@, hash@),
        salt_text(salt@) && password@.len() <= LONGEST_PASSWORD ==> res is Ok,
{
    let salt = SaltString::from_b64(salt)?;
    let hash = Argon2::default().hash_password(password.as_bytes(), &salt)?;
    Ok(hash.to_string())
}

/// Calls `SaltString::generate` on the random numbers of the operating system.
/// Trusted: sixteen bytes come out in base64. Nothing is said of which ones.
#[verifier::external_body]
fn fresh_salt() -> (res: String)
    ensures
        salt_text(res@),
{
    SaltString::generate(&mut OsRng).to_string()
}

/// Is `c` a decimal digit?
fn is_digit(c: char) -> (res: bool)
    ensures
        res == ('0' <= c <= '9'),
{
    '0' <= c && c <= '9'
}

/// Does the last lane count in the text have nine digits or more?
fn names_too_many_lanes(hash: &str) -> (res: bool)
    ensures
        res == too_many_lanes(hash@),
{
    let chars: Vec<char> = chars_of(hash);
    let mut end: usize = chars.len();
    while end >= 2
        invariant
            end <= chars.len(),
            chars@ == hash@,
            forall|later: int| end - 1 <= later ==> !#[trigger] lanes_at(hash@, later),
        decreases end,
    {
        let at: usize = end - 2;
        if chars[at] == 'p' && chars[at + 1] == '=' {
            assert(lanes_at(hash@, at as int));
            if chars.len() - at < 11 {
                return false;
            }
            let mut i: usize = 0;
            while i < 9
                invariant
                    i <= 9,
                    chars@ == hash@,
                    at + 11 <= chars.len(),
                    lanes_at(hash@, at as int),
                    forall|later: int| at < later ==> !#[trigger] lanes_at(hash@, later),
                    forall|j: int| at + 2 <= j < at + 2 + i ==> '0' <= #[trigger] hash@[j] <= '9',
                decreases 9 - i,
            {
                if !is_digit(chars[at + 2 + i]) {
                    assert(!nine_digits_at(hash@, at + 2)) by {
                        let j = at + 2 + i;
                        assert(!('0' <= hash@[j] <= '9'));
                    }
                    return false;
                }
                i = i + 1;
            }
            assert(nine_digits_at(hash@, at + 2));
            return true;
        }
        end = end - 1;
    }
    false
}

/// Does the password fit the hash text? A text that is no password hash fits
/// nothing.
pub fn verify_password(password: &str, hash: &str) -> (res: bool)
    ensures
        res == password_fits(password@, hash@),
        !is_password_hash(hash@) ==> !res,
        !hash_outline(hash@) ==> !res,
        hash@.len() == 0 || hash@[0] != '$' ==> !res,
{
    if names_too_many_lanes(hash) {
        return false;
    }
    match argon2_verify(password, hash) {
        Ok(fits) => fits,
        Err(_) => false,
    }
}

/// The hash text of a password under a given salt; an internal error if
/// `argon2` refuses the two.
pub fn hash_password_with_salt(password: &str, salt: &str) -> (res: Result<String, Status>)
    ensures
        match argon2_hash(password@, salt@) {
            Some(hash) => res is Ok && res->Ok_0@ == hash,
            None => res == Err::<String, Status>(Status::InternalServerError),
        },
        res matches Ok(hash) ==> password_fits(password@, hash@),
        salt_text(salt@) && password@.len() <= LONGEST_PASSWORD ==> res is Ok,
{
    match argon2_hash_password(password, salt) {
        Ok(hash) => Ok(hash),
        Err(_) => Err(Status::InternalServerError),
    }
}

/// The text is what hashing the password gives under some salt of sixteen
/// bytes.
pub open spec fn fresh_hash(password: Seq<char>, hash: Seq<char>) -> bool {
    password_fits(password, hash) && exists|salt: Seq<char>| #[trigger]
        argon2_hash(password, salt) == Some(hash) && salt_text(salt)
}

/// What hashing a password may come to: a hash text of it, or an internal error
/// if it is too long.
pub open spec fn hash_outcome(password: Seq<char>, res: Result<Seq<char>, Status>) -> bool {
    match res {
        Ok(hash) => fresh_hash(password, hash),
        Err(status) => status == Status::InternalServerError && password.len() > LONGEST_PASSWORD,
    }
}

/// The view of a text or of the status that stands in its place.
pub open spec fn text_or_status(res: Result<String, Status>) -> Result<Seq<char>, Status> {
    match res {
        Ok(hash) => Ok(hash@),
        Err(status) => Err(status),
    }
}

/// A hash text of the password, under a random salt. The password fits every
/// text that comes out.
pub fn hash_password(password: &str) -> (res: Result<String, Status>)
    ensures
        hash_outcome(password@, text_or_status(res)),
{
    let salt: String = fresh_salt();
    hash_password_with_salt(password, salt.as_str())
}

/// A password fits a text exactly if the text is read as a password hash that
/// `argon2` verifies with it, as long as its lane count is one that can be.
pub proof fn fitting_is_verifying(password: Seq<char>, hash: Seq<char>)
    ensures
        password_fits(password, hash) ==> is_password_hash(hash) && argon2_verifies(
            password,
            hash,
        ),
        !too_many_lanes(hash) && is_password_hash(hash) && argon2_verifies(password, hash)
            ==> password_fits(password, hash),
{
}

/// A text whose last lane count has at most eight digits does not name too many
/// lanes, nor does one without a lane count. One whose last lane count has nine
/// digits or more does, and fits no password.
pub proof fn lane_counts_are_told_by_their_digits(hash: Seq<char>, at: int, password: Seq<char>)
    requires
        forall|later: int|
            at < later && 0 <= later < hash.len() - 1 ==> !(#[trigger] hash[later] == 'p'
                && hash[later + 1] == '='),
        at < 0 || (at + 1 < hash.len() && hash[at] == 'p' && hash[at + 1] == '='),
    ensures
        at < 0 ==> !too_many_lanes(hash),
        at >= 0 ==> (too_many_lanes(hash) <==> at + 11 <= hash.len() && forall|i: int|
            at + 2 <= i < at + 11 ==> '0' <= #[trigger] hash[i] <= '9'),
        too_many_lanes(hash) ==> !password_fits(password, hash),
{
    if at >= 0 {
        assert(lanes_at(hash, at));
    }
    assert forall|later: int| at < later implies !#[trigger] lanes_at(hash, later) by {
        if lanes_at(hash, later) {
            assert(hash[later] == 'p' && hash[later + 1] == '=');
        }
    }
    if too_many_lanes(hash) {
        let place = choose|place: int|
            #[trigger] lanes_at(hash, place) && nine_digits_at(hash, place + 2) && forall|later:
                int|
                place < later ==> !#[trigger] lanes_at(hash, later);
        assert(place == at);
    }
}

/// Hashing gives a hash that the password fits; it fails, with an internal error,
/// only for passwords of more than 1073741823 characters.
pub proof fn hashing_gives_what_fits(password: Seq<char>, res: Result<Seq<char>, Status>)
    requires
        hash_outcome(password, res),
    ensures
        res matches Ok(hash) ==> is_password_hash(hash) && argon2_verifies(password, hash)
            && password_fits(password, hash),
        password.len() <= 1_073_741_823 ==> res is Ok,
        res matches Err(status) ==> status == Status::InternalServerError,
{
}

/// A text or the status in its place is seen as it is.
pub proof fn text_results_are_seen_as_they_are(text: String, status: Status)
    ensures
        text_or_status(Ok(text)) == Ok::<Seq<char>, Status>(text@),
        text_or_status(Err(status)) == Err::<Seq<char>, Status>(status),
{
}

} // verus!
