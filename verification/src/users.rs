//! Accounts and the roles they hold.
use vstd::prelude::*;
use crate::text::eq;

verus! {

/// The role of the one account that created the server.
pub open spec fn owner_role() -> Seq<char> {
    seq!['o', 'w', 'n', 'e', 'r']
}

/// The role that may administer everything but the owner.
pub open spec fn admin_role() -> Seq<char> {
    seq!['a', 'd', 'm', 'i', 'n']
}

/// The role every account created by an admin gets unless told otherwise.
pub open spec fn member_role() -> Seq<char> {
    seq!['m', 'e', 'm', 'b', 'e', 'r']
}

/// Whether an account with this role may use the admin routes.
pub open spec fn role_is_admin(role: Seq<char>) -> bool {
    role == owner_role() || role == admin_role()
}

/// An account.
#[derive(Clone, Debug)]
pub struct User {
    pub id: i64,
    pub name: String,
    pub role: String,
    pub locale: Option<String>,
}

impl User {
    pub fn is_admin(&self) -> (r: bool)
        ensures
            r == role_is_admin(self.role@),
    {
        proof {
            reveal_strlit("owner");
            reveal_strlit("admin");
            assert("owner"@ =~= owner_role());
            assert("admin"@ =~= admin_role());
        }
        eq(&self.role, "owner") || eq(&self.role, "admin")
    }
}

} // verus!
