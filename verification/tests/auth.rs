use altc::auth::{authenticated, bearer_token, hash_token, new_token, token_from, AdminUser};
use altc::users::User;

fn user(role: &str) -> User {
    User { id: 3, name: "dave".to_string(), role: role.to_string(), locale: None }
}

#[test]
fn a_token_is_altc_and_sixty_four_hex_digits() {
    let t = new_token();
    assert!(t.starts_with("altc_"));
    assert_eq!(t.len(), 69);
    assert!(t[5..].chars().all(|c| c.is_ascii_hexdigit() && !c.is_ascii_uppercase()));
    assert_ne!(new_token(), t);
}

#[test]
fn a_token_is_made_of_its_bytes_in_lower_hex() {
    assert_eq!(token_from(&vec![0x00, 0xab, 0x10, 0xff]), "altc_00ab10ff");
}

#[test]
fn the_stored_form_of_a_token_is_its_sha256() {
    assert_eq!(
        hash_token("abc"),
        "ba7816bf8f01cfea414140de5dae2223b00361a396177a9cb410ff61f20015ad"
    );
    assert_eq!(hash_token("abc"), hash_token("abc"));
    assert_ne!(hash_token("abc"), hash_token("abd"));
}

#[test]
fn only_a_bearer_header_carries_a_token() {
    assert_eq!(bearer_token(&Some("Bearer altc_x".to_string())).unwrap(), "altc_x");
    let e = bearer_token(&Some("Basic abc".to_string())).unwrap_err();
    assert_eq!(e.0, 401);
    assert_eq!(e.1, "missing bearer token");
    assert_eq!(bearer_token(&None).unwrap_err().0, 401);
}

#[test]
fn an_unknown_token_is_refused() {
    let e = authenticated(None).unwrap_err();
    assert_eq!(e.0, 401);
    assert_eq!(e.1, "invalid token");
    assert_eq!(authenticated(Some(user("member"))).unwrap().name, "dave");
}

#[test]
fn admin_routes_admit_owners_and_admins_only() {
    assert!(user("owner").is_admin());
    assert!(user("admin").is_admin());
    assert!(!user("member").is_admin());
    assert!(AdminUser::from_user(user("admin")).is_ok());
    let e = AdminUser::from_user(user("member")).err().unwrap();
    assert_eq!(e.0, 403);
    assert_eq!(e.1, "admin role required");
}
