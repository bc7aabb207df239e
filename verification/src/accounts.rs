//! The decisions behind the account routes: claiming a fresh server, creating
//! and removing accounts, signing in and recovering a lost password. Each
//! takes what the database answered and says what the route answers.
use vstd::prelude::*;
use crate::error::{ApiError, BAD_REQUEST, CONFLICT, FORBIDDEN, NOT_FOUND, UNAUTHORIZED};
use crate::passwords::{validate, MIN_LENGTH};
use crate::storage::{join, path_join};
use crate::text::{cat, eq, spec_trim, trim};
use crate::users::{User, admin_role, member_role, owner_role};

verus! {

/// The body of a claim: the owner's name and password.
pub struct Claim {
    pub name: String,
    pub password: String,
}

/// The body of a recovery: whose password to set, and to what.
pub struct Recover {
    pub name: String,
    pub password: String,
}

/// The body of an account creation; the role defaults to member.
pub struct NewUser {
    pub name: String,
    pub role: Option<String>,
}

/// The body of a sign-in.
pub struct Login {
    pub name: String,
    pub password: String,
}

/// The body of a password change by its owner.
pub struct SetPassword {
    pub password: String,
}

/// The body of a settings change.
pub struct SettingsPatch {
    pub locale: Option<String>,
}

/// A server is claimed once any account exists.
pub open spec fn claimed(user_count: int) -> bool {
    user_count > 0
}

/// Whether a claim with this name and password is let through at
/// `user_count` accounts.
pub open spec fn claim_passes(user_count: int, name: Seq<char>, password: Seq<char>) -> bool {
    !claimed(user_count) && spec_trim(name).len() > 0 && password.len() >= MIN_LENGTH
}

/// A server is claimed once any account exists. First arrival wins, and the
/// window is shut for good afterwards.
pub fn is_claimed(user_count: i64) -> (r: bool)
    ensures
        r == claimed(user_count as int),
{
    user_count > 0
}

/// A claim succeeds once: counting accounts from zero, a claim is let through
/// only while there are none, and once it has created its owner every later
/// claim, whatever it says, is refused as made on a claimed server.
pub proof fn law_claim_succeeds_once(user_count: int, first: Claim, later: Claim)
    requires
        user_count >= 0,
        claim_passes(user_count, first.name@, first.password@),
    ensures
        user_count == 0,
        claimed(user_count + 1),
        !claim_passes(user_count + 1, later.name@, later.password@),
{
}

/// Whether a claim is let through, given how many accounts exist: the name it
/// creates (trimmed), or why not. 409 once claimed, since nothing is wrong
/// with the request; 400 for a blank name or a short password.
pub fn check_claim(user_count: i64, c: &Claim) -> (r: Result<String, ApiError>)
    ensures
        r is Ok <==> claim_passes(user_count as int, c.name@, c.password@),
        claimed(user_count as int) ==> r is Err && r->Err_0.0 == CONFLICT
            && r->Err_0.1@ == "this server has already been set up"@,
        user_count <= 0 && spec_trim(c.name@).len() == 0 ==> r is Err && r->Err_0.0 == BAD_REQUEST
            && r->Err_0.1@ == "name is required"@,
        user_count <= 0 && spec_trim(c.name@).len() > 0 && c.password@.len() < MIN_LENGTH ==> r is Err
            && r->Err_0.0 == BAD_REQUEST,
        user_count <= 0 && spec_trim(c.name@).len() > 0 && c.password@.len() >= MIN_LENGTH ==> r is Ok
            && r->Ok_0@ == spec_trim(c.name@),
{
    if is_claimed(user_count) {
        return Err(ApiError::conflict("this server has already been set up"));
    }
    let name = trim(&c.name);
    if name.unicode_len() == 0 {
        return Err(ApiError::bad_request("name is required"));
    }
    match validate(&c.password) {
        Err(e) => Err(e),
        Ok(()) => Ok(name),
    }
}

/// The role a new account gets: member unless one is asked for. Owner is
/// unique, and only admin or member may be asked for.
pub fn new_user_role(n: &NewUser) -> (r: Result<String, ApiError>)
    ensures
        match n.role {
            None => r is Ok && r->Ok_0@ == member_role(),
            Some(role) => if role@ == owner_role() {
                r is Err && r->Err_0.0 == BAD_REQUEST && r->Err_0.1@ == "owner is unique"@
            } else if role@ == admin_role() || role@ == member_role() {
                r is Ok && r->Ok_0@ == role@
            } else {
                r is Err && r->Err_0.0 == BAD_REQUEST
                    && r->Err_0.1@ == "role must be admin or member"@
            },
        },
        r matches Ok(role) ==> role@ != owner_role(),
{
    proof {
        reveal_strlit("owner");
        reveal_strlit("admin");
        reveal_strlit("member");
        assert("owner"@ =~= owner_role());
        assert("admin"@ =~= admin_role());
        assert("member"@ =~= member_role());
    }
    match &n.role {
        None => Ok(String::from_str("member")),
        Some(role) => {
            if eq(role, "owner") {
                Err(ApiError::bad_request("owner is unique"))
            } else if eq(role, "admin") || eq(role, "member") {
                Ok(role.clone())
            } else {
                Err(ApiError::bad_request("role must be admin or member"))
            }
        },
    }
}

/// The account a route acts on, as the database answered: none is a 404.
pub fn found_user(found: Option<User>) -> (r: Result<User, ApiError>)
    ensures
        match found {
            Some(u) => r is Ok && r->Ok_0 == u,
            None => r is Err && r->Err_0.0 == NOT_FOUND && r->Err_0.1@ == "no such user"@,
        },
{
    match found {
        Some(u) => Ok(u),
        None => Err(ApiError::not_found("no such user")),
    }
}

/// Whether an account may be deleted: every one but the owner.
pub fn check_removal(target: &User) -> (r: Result<(), ApiError>)
    ensures
        target.role@ == owner_role() <==> r is Err,
        r is Err ==> r->Err_0.0 == BAD_REQUEST && r->Err_0.1@ == "owner cannot be deleted"@,
{
    proof {
        reveal_strlit("owner");
        assert("owner"@ =~= owner_role());
    }
    if eq(&target.role, "owner") {
        return Err(ApiError::bad_request("owner cannot be deleted"));
    }
    Ok(())
}

/// What a sign-in answers once name and password were checked: one message
/// for every failure, so a caller cannot learn which accounts exist.
pub fn login_result(checked: Option<i64>) -> (r: Result<i64, ApiError>)
    ensures
        match checked {
            Some(id) => r is Ok && r->Ok_0 == id,
            None => r is Err && r->Err_0.0 == UNAUTHORIZED
                && r->Err_0.1@ == "invalid name or password"@,
        },
{
    match checked {
        Some(id) => Ok(id),
        None => Err(ApiError::unauthorized("invalid name or password")),
    }
}

/// The name of the file whose presence arms recovery.
pub open spec fn recovery_file() -> Seq<char> {
    seq!['r', 'e', 'c', 'o', 'v', 'e', 'r']
}

/// Where the recovery file lives: in the agent's state folder. Being able to
/// write there is the proof of being at the machine, and it cannot be done
/// from the network.
pub fn recovery_path(state_dir: &str) -> (r: String)
    ensures
        r@ == path_join(state_dir@, recovery_file()),
{
    proof {
        reveal_strlit("recover");
        assert("recover"@ =~= recovery_file());
    }
    join(state_dir, "recover")
}

/// The warning logged when recovery has been left armed: an unnoticed file
/// means anyone who can reach the API can reset a password.
pub fn warn_if_armed(state_dir: &str, marker_exists: bool) -> (r: Option<String>)
    ensures
        marker_exists <==> r is Some,
        r matches Some(w) ==> w@ == "recovery is armed: "@ + path_join(state_dir@, recovery_file())
            + " exists, so a password can be reset without signing in. Delete it once you are done."@,
{
    if !marker_exists {
        return None;
    }
    let path = recovery_path(state_dir);
    let a = cat("recovery is armed: ", &path);
    Some(cat(&a, " exists, so a password can be reset without signing in. Delete it once you are done."))
}

/// Whether recovery may go ahead: only while the file exists. The refusal
/// says where to create it.
pub fn check_recovery_armed(marker: &str, marker_exists: bool) -> (r: Result<(), ApiError>)
    ensures
        marker_exists <==> r is Ok,
        r is Err ==> r->Err_0.0 == FORBIDDEN && r->Err_0.1@ == "recovery is not enabled. Create "@
            + marker@ + " on the server to prove you have access to it, then try again."@,
{
    if marker_exists {
        return Ok(());
    }
    let a = cat("recovery is not enabled. Create ", marker);
    let m = cat(&a, " on the server to prove you have access to it, then try again.");
    Err(ApiError::forbidden(&m))
}

/// The account a recovery resets, looked up by the trimmed name. The file
/// already proves physical access, so naming the problem costs nothing.
pub fn recovery_target(name: &str, found: Option<User>) -> (r: Result<User, ApiError>)
    ensures
        match found {
            Some(u) => r is Ok && r->Ok_0 == u,
            None => r is Err && r->Err_0.0 == NOT_FOUND
                && r->Err_0.1@ == "no account called '"@ + name@ + "'"@,
        },
{
    match found {
        Some(u) => Ok(u),
        None => {
            let a = cat("no account called '", name);
            Err(ApiError::not_found(&cat(&a, "'")))
        },
    }
}

} // verus!
