//! Passwords: the length rule, the slow salted hash they are kept as, and the
//! check a login makes against it.
//!
//! Argon2id, not a plain digest: a password is low-entropy and guessable, so it
//! needs a deliberately slow hash. Tokens use SHA-256 and that is right for
//! them, being long random strings.
use vstd::prelude::*;
use crate::error::{ApiError, BAD_REQUEST, INTERNAL_SERVER_ERROR, NOT_FOUND};
use crate::text::{cat, has_prefix};
use argon2::password_hash::{PasswordHash, PasswordHasher, PasswordVerifier, SaltString};

verus! {

/// Short enough not to be a chore on a TV remote, long enough to matter.
pub const MIN_LENGTH: usize = 8;

/// Counted in characters, not bytes, so non-ASCII is not penalised.
pub fn validate(password: &str) -> (r: Result<(), ApiError>)
    ensures
        password@.len() >= MIN_LENGTH <==> r is Ok,
        r is Err ==> r->Err_0.0 == BAD_REQUEST
            && r->Err_0.1@ == "password must be at least 8 characters"@,
{
    if password.unicode_len() < MIN_LENGTH {
        return Err(ApiError::bad_request("password must be at least 8 characters"));
    }
    Ok(())
}

/// The PHC string that Argon2id with the crate's default parameters makes of
/// this password and these salt bytes.
pub uninterp spec fn argon2_phc(password: Seq<char>, salt: Seq<u8>) -> Seq<char>;

/// Whether Argon2 accepts this password against this stored PHC string.
pub uninterp spec fn argon2_accepts(password: Seq<char>, stored: Seq<char>) -> bool;

/// The form every hash made here takes.
pub open spec fn argon2id_prefix() -> Seq<char> {
    seq!['$', 'a', 'r', 'g', 'o', 'n', '2', 'i', 'd', '$']
}

/// Where a hash could not be made, and the crate's own words for why.
pub enum HashFailure {
    Salt(String),
    Hash(String),
}

/// Calls `rand::fill` on sixteen bytes. Claimed: sixteen bytes come back;
/// nothing is claimed of which.
#[verifier::external_body]
fn random_salt() -> (b: Vec<u8>)
    ensures
        b@.len() == 16,
{
    let mut raw = [0u8; 16];
    rand::fill(&mut raw);
    raw.to_vec()
}

/// The longest password, in characters, whose UTF-8 encoding is sure to fit
/// Argon2's limit of `u32::MAX` bytes (a character takes at most four).
pub const MAX_HASHED_CHARS: usize = 0x3fff_ffff;

/// Calls `SaltString::encode_b64` on `salt`, then
/// `Argon2::default().hash_password` on the UTF-8 bytes of `password` with it.
/// Claimed, of a hash that comes back: it is the PHC string of these inputs,
/// it names Argon2id, and `verify_password` accepts the same password against
/// it (verification recomputes with the salt and parameters it records).
/// Claimed too: with a sixteen-byte salt (inside the 4 to 48 bytes the
/// encoding takes, and above Argon2's minimum of 8) and a password whose
/// UTF-8 bytes stay within `u32::MAX`, neither step fails; Argon2 with its
/// default parameters fails only on lengths out of range.
#[verifier::external_body]
fn argon2_hash(password: &str, salt: &Vec<u8>) -> (r: Result<String, HashFailure>)
    ensures
        salt@.len() == 16 && password@.len() <= MAX_HASHED_CHARS ==> r is Ok,
        r matches Ok(h) ==> h@ == argon2_phc(password@, salt@) && has_prefix(h@, argon2id_prefix())
            && argon2_accepts(password@, h@),
{
    let salt = SaltString::encode_b64(salt).map_err(|e| HashFailure::Salt(e.to_string()))?;
    let made = argon2::Argon2::default().hash_password(password.as_bytes(), &salt);
    made.map(|h| h.to_string()).map_err(|e| HashFailure::Hash(e.to_string()))
}

/// Calls `PasswordHash::new` on `stored` and, when that parses,
/// `Argon2::default().verify_password` with the UTF-8 bytes of `password`.
/// Claimed: the answer is a fixed function of the two texts, and text that
/// does not begin with `$` (the empty text among it) never parses, so it is
/// never accepted.
#[verifier::external_body]
fn argon2_verify(password: &str, stored: &str) -> (r: bool)
    ensures
        r == argon2_accepts(password@, stored@),
        !has_prefix(stored@, seq!['$']) ==> !r,
{
    match PasswordHash::new(stored) {
        Ok(parsed) => argon2::Argon2::default().verify_password(password.as_bytes(), &parsed).is_ok(),
        Err(_) => false,
    }
}

/// What a hashing attempt answers: the hash, or a 500 that says which step
/// failed.
pub fn hash_outcome(r: Result<String, HashFailure>) -> (out: Result<String, ApiError>)
    ensures
        match r {
            Ok(h) => out is Ok && out->Ok_0 == h,
            Err(HashFailure::Salt(e)) => out is Err && out->Err_0.0 == INTERNAL_SERVER_ERROR
                && out->Err_0.1@ == "salt: "@ + e@,
            Err(HashFailure::Hash(e)) => out is Err && out->Err_0.0 == INTERNAL_SERVER_ERROR
                && out->Err_0.1@ == "hash password: "@ + e@,
        },
{
    match r {
        Ok(h) => Ok(h),
        Err(HashFailure::Salt(e)) => Err(ApiError::internal(&cat("salt: ", &e))),
        Err(HashFailure::Hash(e)) => Err(ApiError::internal(&cat("hash password: ", &e))),
    }
}

/// Hashes `password` with a fresh random salt, so that two accounts with the
/// same password are not visibly equal in the database. Whatever hash comes
/// back names Argon2id and verifies against this password; hashing fails only
/// for a password too long for Argon2. Which salt is drawn is left to chance.
pub fn hash(password: &str) -> (r: Result<String, ApiError>)
    ensures
        password@.len() <= MAX_HASHED_CHARS ==> r is Ok,
        r matches Ok(h) ==> has_prefix(h@, argon2id_prefix()) && argon2_accepts(password@, h@)
            && exists|salt: Seq<u8>| salt.len() == 16 && h@ == argon2_phc(password@, salt),
        r is Err ==> r->Err_0.0 == INTERNAL_SERVER_ERROR,
{
    let salt = random_salt();
    let made = argon2_hash(password, &salt);
    hash_outcome(made)
}

/// Whether `password` matches the stored hash. Anything in the column that is
/// not a hash (empty, hand-edited, corrupted) fails closed.
pub fn verify(password: &str, stored: &str) -> (r: bool)
    ensures
        r == argon2_accepts(password@, stored@),
        !has_prefix(stored@, seq!['$']) ==> !r,
{
    argon2_verify(password, stored)
}

/// The answer to a login, from the row found under the name (its id and the
/// stored hash, if it has one). "No such user", "no password set" and "wrong
/// password" answer the same, so the caller cannot learn which accounts exist.
pub open spec fn spec_login(row: Option<(i64, Option<Seq<char>>)>, password: Seq<char>) -> Option<i64> {
    match row {
        Some((id, Some(stored))) => if argon2_accepts(password, stored) { Some(id) } else { None },
        _ => None,
    }
}

/// Checks a name's row and a password; the user id on success.
pub fn check_row(row: Option<(i64, Option<String>)>, password: &str) -> (r: Option<i64>)
    ensures
        r == spec_login(
            match row {
                Some((id, Some(s))) => Some((id, Some(s@))),
                Some((id, None)) => Some((id, None)),
                None => None,
            },
            password@,
        ),
{
    match row {
        Some((id, Some(stored))) => {
            if verify(password, &stored) {
                Some(id)
            } else {
                None
            }
        },
        _ => None,
    }
}

/// What setting a password answers once the update has run: no row changed
/// means there is no such user.
pub fn set_outcome(rows_changed: u64) -> (r: Result<(), ApiError>)
    ensures
        rows_changed > 0 <==> r is Ok,
        r is Err ==> r->Err_0.0 == NOT_FOUND && r->Err_0.1@ == "no such user"@,
{
    if rows_changed == 0 {
        return Err(ApiError::not_found("no such user"));
    }
    Ok(())
}

} // verus!
