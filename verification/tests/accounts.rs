use altc::accounts::{
    check_claim, check_recovery_armed, check_removal, found_user, is_claimed, login_result, new_user_role,
    recovery_path, recovery_target, warn_if_armed, Claim, NewUser,
};
use altc::users::User;

fn claim(name: &str, password: &str) -> Claim {
    Claim { name: name.to_string(), password: password.to_string() }
}

fn user(role: &str) -> User {
    User { id: 1, name: "matt".to_string(), role: role.to_string(), locale: None }
}

#[test]
fn a_claim_on_a_fresh_server_creates_the_trimmed_name() {
    assert!(!is_claimed(0));
    assert_eq!(check_claim(0, &claim("  matt ", "a good password")).unwrap(), "matt");
}

#[test]
fn an_already_claimed_server_refuses_setup_from_the_start() {
    assert!(is_claimed(1));
    let e = check_claim(1, &claim("someone", "a good password")).unwrap_err();
    assert_eq!(e.0, 409);
    assert_eq!(e.1, "this server has already been set up");
}

#[test]
fn a_weak_or_nameless_claim_is_refused_and_leaves_it_unclaimed() {
    assert_eq!(check_claim(0, &claim("matt", "short")).unwrap_err().0, 400);
    let e = check_claim(0, &claim("", "a good password")).unwrap_err();
    assert_eq!((e.0, e.1.as_str()), (400, "name is required"));
    assert_eq!(check_claim(0, &claim("   ", "a good password")).unwrap_err().1, "name is required");
}

#[test]
fn owner_cannot_be_deleted_or_duplicated() {
    let e = check_removal(&user("owner")).unwrap_err();
    assert_eq!((e.0, e.1.as_str()), (400, "owner cannot be deleted"));
    assert!(check_removal(&user("member")).is_ok());
    let e = new_user_role(&NewUser { name: "x".into(), role: Some("owner".into()) }).unwrap_err();
    assert_eq!((e.0, e.1.as_str()), (400, "owner is unique"));
}

#[test]
fn new_accounts_are_members_unless_admin_is_asked_for() {
    assert_eq!(new_user_role(&NewUser { name: "dave".into(), role: None }).unwrap(), "member");
    assert_eq!(new_user_role(&NewUser { name: "dave".into(), role: Some("admin".into()) }).unwrap(), "admin");
    let e = new_user_role(&NewUser { name: "dave".into(), role: Some("root".into()) }).unwrap_err();
    assert_eq!(e.1, "role must be admin or member");
}

#[test]
fn login_fails_the_same_way_for_every_reason() {
    assert_eq!(login_result(Some(4)).unwrap(), 4);
    let e = login_result(None).unwrap_err();
    assert_eq!((e.0, e.1.as_str()), (401, "invalid name or password"));
}

#[test]
fn a_missing_account_is_a_404() {
    let e = found_user(None).unwrap_err();
    assert_eq!((e.0, e.1.as_str()), (404, "no such user"));
    assert_eq!(found_user(Some(user("member"))).unwrap().role, "member");
}

#[test]
fn recovery_is_refused_without_the_file() {
    let marker = recovery_path("/etc/wolf/altc");
    assert_eq!(marker, "/etc/wolf/altc/recover");
    let e = check_recovery_armed(&marker, false).unwrap_err();
    assert_eq!(e.0, 403);
    assert!(e.1.contains("recover"), "got {}", e.1);
    assert!(check_recovery_armed(&marker, true).is_ok());
}

#[test]
fn recovery_names_a_missing_account() {
    let e = recovery_target("nobody", None).unwrap_err();
    assert_eq!((e.0, e.1.as_str()), (404, "no account called 'nobody'"));
    assert_eq!(recovery_target("matt", Some(user("owner"))).unwrap().name, "matt");
}

#[test]
fn an_armed_recovery_file_is_warned_about() {
    assert!(warn_if_armed("/state", false).is_none());
    let w = warn_if_armed("/state", true).unwrap();
    assert!(w.starts_with("recovery is armed: /state/recover exists"));
}

#[test]
fn a_claim_goes_through_once() {
    let first = claim("matt", "a good password");
    assert!(check_claim(0, &first).is_ok());
    // The claim created the owner: the same claim, or any other, now conflicts.
    assert_eq!(check_claim(1, &first).unwrap_err().0, 409);
    assert_eq!(check_claim(1, &claim("other", "another good one")).unwrap_err().0, 409);
}
