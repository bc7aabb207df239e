//! Pairing streaming clients and binding them to accounts.
use vstd::prelude::*;
use crate::error::{ApiError, FORBIDDEN};
use crate::users::{User, role_is_admin};

verus! {

/// A paired client bound to an account.
#[derive(Debug)]
pub struct Device {
    pub id: i64,
    pub user_id: i64,
    pub client_id: String,
    pub name: Option<String>,
    pub created_at: String,
}

/// The body that approves a pairing: the secret and PIN the client shows,
/// and optionally a name and (for admins) the account to bind it to.
pub struct PairApproval {
    pub pair_secret: String,
    pub pin: String,
    pub device_name: Option<String>,
    pub user_id: Option<i64>,
}

/// The body that attaches an already-paired client to an account.
pub struct ClaimRequest {
    pub user_id: i64,
    pub device_name: Option<String>,
}

/// The body that unpairs a client.
pub struct UnpairRequest {
    pub client_id: String,
}

/// Whom an approved device is bound to.
#[derive(Debug, PartialEq, Eq, Structural)]
pub enum PairOwner {
    /// The approving account itself.
    Actor(i64),
    /// Another account, which must be looked up before pairing.
    Other(i64),
}

/// Any signed-in account may approve a pairing, and the device is bound to
/// it. Naming another account is for admins only.
pub fn pairing_owner(actor: &User, approval: &PairApproval) -> (r: Result<PairOwner, ApiError>)
    ensures
        match approval.user_id {
            Some(target) if target != actor.id => if role_is_admin(actor.role@) {
                r == Ok::<PairOwner, ApiError>(PairOwner::Other(target))
            } else {
                r is Err && r->Err_0.0 == FORBIDDEN
                    && r->Err_0.1@ == "admin role required to pair for another user"@
            },
            _ => r == Ok::<PairOwner, ApiError>(PairOwner::Actor(actor.id)),
        },
{
    match approval.user_id {
        Some(target) => {
            if target != actor.id {
                if !actor.is_admin() {
                    return Err(ApiError::forbidden("admin role required to pair for another user"));
                }
                return Ok(PairOwner::Other(target));
            }
            Ok(PairOwner::Actor(actor.id))
        },
        None => Ok(PairOwner::Actor(actor.id)),
    }
}

} // verus!
