//! API tokens: how they are made, how they are stored, and how a request
//! presents one.
use vstd::prelude::*;
use crate::error::{ApiError, UNAUTHORIZED, FORBIDDEN};
use crate::text::{cat, has_prefix, spec_strip_prefix, strip_prefix};
use crate::users::{User, role_is_admin};
use sha2::Digest;

verus! {

/// The character for a number below sixteen, in lower case.
pub open spec fn hex_digit(n: int) -> char {
    if n < 10 {
        (48 + n) as char
    } else {
        (87 + n) as char
    }
}

/// Bytes written as lower-case hexadecimal, two characters each, high nibble
/// first.
pub open spec fn hex_lower(b: Seq<u8>) -> Seq<char>
    decreases b.len(),
{
    if b.len() == 0 {
        Seq::empty()
    } else {
        seq![hex_digit(b[0] as int / 16), hex_digit(b[0] as int % 16)] + hex_lower(b.drop_first())
    }
}

/// Whether `c` is one of `0-9a-f`.
pub open spec fn is_lower_hex(c: char) -> bool {
    (48 <= c as int && c as int <= 57) || (97 <= c as int && c as int <= 102)
}

pub proof fn lemma_hex_lower(b: Seq<u8>)
    ensures
        hex_lower(b).len() == 2 * b.len(),
        forall|i: int| 0 <= i < hex_lower(b).len() ==> is_lower_hex(#[trigger] hex_lower(b)[i]),
    decreases b.len(),
{
    if b.len() > 0 {
        lemma_hex_lower(b.drop_first());
        let h = seq![hex_digit(b[0] as int / 16), hex_digit(b[0] as int % 16)];
        assert(is_lower_hex(h[0]) && is_lower_hex(h[1]));
        assert forall|i: int| 0 <= i < hex_lower(b).len() implies is_lower_hex(
            #[trigger] hex_lower(b)[i],
        ) by {
            if i >= 2 {
                assert(hex_lower(b)[i] == hex_lower(b.drop_first())[i - 2]);
            }
        }
    }
}

/// The SHA-256 digest of the UTF-8 encoding of `text`.
pub uninterp spec fn sha256_utf8(text: Seq<char>) -> Seq<u8>;

/// Calls `rand::random::<[u8; 32]>()`. Claimed: thirty-two bytes come back;
/// nothing is claimed of which.
#[verifier::external_body]
fn random_32_bytes() -> (b: Vec<u8>)
    ensures
        b@.len() == 32,
{
    let raw: [u8; 32] = rand::random();
    raw.to_vec()
}

/// Calls `hex::encode`. Claimed: each byte becomes two lower-case hex digits,
/// high nibble first, as the crate documents.
#[verifier::external_body]
fn hex_encode(bytes: &Vec<u8>) -> (r: String)
    ensures
        r@ == hex_lower(bytes@),
{
    hex::encode(bytes)
}

/// Calls `sha2::Sha256::digest` on the UTF-8 bytes of `text`. Claimed: the
/// result is the digest of those bytes, a fixed function of the text, and is
/// thirty-two bytes long.
#[verifier::external_body]
fn sha256_digest(text: &str) -> (d: Vec<u8>)
    ensures
        d@ == sha256_utf8(text@),
        d@.len() == 32,
{
    sha2::Sha256::digest(text.as_bytes()).to_vec()
}

/// What every token begins with, so that one is recognisable in a config file.
pub open spec fn token_prefix() -> Seq<char> {
    seq!['a', 'l', 't', 'c', '_']
}

/// The token made from these random bytes.
pub open spec fn token_text(b: Seq<u8>) -> Seq<char> {
    token_prefix() + hex_lower(b)
}

/// The token made from `bytes`.
pub fn token_from(bytes: &Vec<u8>) -> (r: String)
    ensures
        r@ == token_text(bytes@),
{
    proof {
        reveal_strlit("altc_");
    }
    let hex = hex_encode(bytes);
    cat("altc_", &hex)
}

/// A fresh bearer token: `altc_` and 64 lower-case hex digits from 32 random
/// bytes.
pub fn new_token() -> (r: String)
    ensures
        exists|b: Seq<u8>| b.len() == 32 && r@ == token_text(b),
        r@.len() == 69,
        has_prefix(r@, token_prefix()),
{
    let b = random_32_bytes();
    let r = token_from(&b);
    proof {
        lemma_hex_lower(b@);
        assert(r@.subrange(0, 5) =~= token_prefix());
    }
    r
}

/// What the database keeps of a token.
pub open spec fn token_hash(token: Seq<char>) -> Seq<char> {
    hex_lower(sha256_utf8(token))
}

/// The stored form of a token: its SHA-256 digest in lower-case hex. A token
/// is a long random string, so a fast digest is enough not to keep it in the
/// clear.
pub fn hash_token(token: &str) -> (r: String)
    ensures
        r@ == token_hash(token@),
        r@.len() == 64,
        forall|i: int| 0 <= i < r@.len() ==> is_lower_hex(#[trigger] r@[i]),
{
    let d = sha256_digest(token);
    proof {
        lemma_hex_lower(d@);
    }
    hex_encode(&d)
}

/// How a request presents its token.
pub open spec fn bearer_prefix() -> Seq<char> {
    seq!['B', 'e', 'a', 'r', 'e', 'r', ' ']
}

/// The token carried by an `Authorization` header, if it has one.
pub open spec fn spec_bearer(header: Option<Seq<char>>) -> Option<Seq<char>> {
    match header {
        Some(h) => spec_strip_prefix(h, bearer_prefix()),
        None => None,
    }
}

/// Takes the token out of an `Authorization` header (absent when the request
/// had none, or one that is not readable text). Anything but `Bearer <token>`
/// is refused with 401.
pub fn bearer_token(header: &Option<String>) -> (r: Result<String, ApiError>)
    ensures
        match spec_bearer(match header { Some(h) => Some(h@), None => None }) {
            Some(t) => r is Ok && r->Ok_0@ == t,
            None => r is Err && r->Err_0.0 == UNAUTHORIZED
                && r->Err_0.1@ == "missing bearer token"@,
        },
{
    proof {
        reveal_strlit("Bearer ");
        assert("Bearer "@ =~= bearer_prefix());
    }
    match header {
        Some(h) => match strip_prefix(h, "Bearer ") {
            Some(t) => Ok(t),
            None => Err(ApiError::unauthorized("missing bearer token")),
        },
        None => Err(ApiError::unauthorized("missing bearer token")),
    }
}

/// The account a presented token belongs to, as the token table answered:
/// none means the token is unknown, and the request is refused with 401.
pub fn authenticated(found: Option<User>) -> (r: Result<User, ApiError>)
    ensures
        match found {
            Some(u) => r is Ok && r->Ok_0 == u,
            None => r is Err && r->Err_0.0 == UNAUTHORIZED && r->Err_0.1@ == "invalid token"@,
        },
{
    match found {
        Some(u) => Ok(u),
        None => Err(ApiError::unauthorized("invalid token")),
    }
}

/// An account that may use the admin routes.
pub struct AdminUser(pub User);

impl AdminUser {
    /// Admits `user` to an admin route, or refuses with 403.
    pub fn from_user(user: User) -> (r: Result<AdminUser, ApiError>)
        ensures
            role_is_admin(user.role@) ==> r is Ok && r->Ok_0.0 == user,
            !role_is_admin(user.role@) ==> r is Err && r->Err_0.0 == FORBIDDEN
                && r->Err_0.1@ == "admin role required"@,
    {
        if user.is_admin() {
            Ok(AdminUser(user))
        } else {
            Err(ApiError::forbidden("admin role required"))
        }
    }
}

} // verus!
