use altc::pairing::{pairing_owner, PairApproval, PairOwner};
use altc::users::User;

fn approval(user_id: Option<i64>) -> PairApproval {
    PairApproval { pair_secret: "s3cret".into(), pin: "1234".into(), device_name: None, user_id }
}

fn user(id: i64, role: &str) -> User {
    User { id, name: "x".into(), role: role.into(), locale: None }
}

#[test]
fn an_approved_device_belongs_to_the_approver() {
    assert_eq!(pairing_owner(&user(2, "member"), &approval(None)).unwrap(), PairOwner::Actor(2));
    assert_eq!(pairing_owner(&user(2, "member"), &approval(Some(2))).unwrap(), PairOwner::Actor(2));
}

#[test]
fn pairing_for_another_account_needs_an_admin() {
    let e = pairing_owner(&user(2, "member"), &approval(Some(3))).unwrap_err();
    assert_eq!((e.0, e.1.as_str()), (403, "admin role required to pair for another user"));
    assert_eq!(pairing_owner(&user(1, "owner"), &approval(Some(3))).unwrap(), PairOwner::Other(3));
}
