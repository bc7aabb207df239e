use altc::passwords::{check_row, hash, set_outcome, validate, verify, MIN_LENGTH};

#[test]
fn a_password_verifies_against_its_own_hash() {
    let h = hash("correct horse battery").unwrap();
    assert!(verify("correct horse battery", &h));
    assert!(!verify("wrong horse battery", &h));
}

#[test]
fn the_same_password_hashes_differently_every_time() {
    // Salted: two users with the same password must not be visibly equal
    // in the database.
    let a = hash("same password").unwrap();
    let b = hash("same password").unwrap();
    assert_ne!(a, b);
    assert!(verify("same password", &a) && verify("same password", &b));
}

#[test]
fn the_stored_form_is_not_the_password() {
    let h = hash("hunter2hunter2").unwrap();
    assert!(!h.contains("hunter2"));
    assert!(h.starts_with("$argon2"), "got {h}");
}

#[test]
fn garbage_in_the_column_fails_closed() {
    // A corrupted or hand-edited row must reject, never accept.
    assert!(!verify("anything", ""));
    assert!(!verify("anything", "not-a-hash"));
    assert!(!verify("anything", "$argon2id$broken"));
}

#[test]
fn too_short_is_refused() {
    assert!(validate("short").is_err());
    assert!(validate("longenough").is_ok());
    // Counted in characters, not bytes, so non-ASCII is not penalised.
    assert!(validate("übergänge").is_ok());
}

#[test]
fn the_length_rule_is_exactly_eight_characters() {
    assert_eq!(MIN_LENGTH, 8);
    assert!(validate("1234567").is_err());
    assert!(validate("12345678").is_ok());
    let e = validate("").unwrap_err();
    assert_eq!(e.0, 400);
    assert_eq!(e.1, "password must be at least 8 characters");
}

#[test]
fn hashes_name_argon2id() {
    let h = hash("correct horse battery").unwrap();
    assert!(h.starts_with("$argon2id$"));
}

#[test]
fn login_answers_only_for_a_matching_password() {
    let h = hash("dave's password").unwrap();
    assert_eq!(check_row(Some((7, Some(h.clone()))), "dave's password"), Some(7));
    assert_eq!(check_row(Some((7, Some(h))), "wrong"), None);
    // No such user, and an account with no password set, look the same.
    assert_eq!(check_row(None, "dave's password"), None);
    assert_eq!(check_row(Some((1, None)), ""), None);
    assert_eq!(check_row(Some((1, None)), "anything"), None);
}

#[test]
fn setting_a_password_for_nobody_is_a_404() {
    assert!(set_outcome(1).is_ok());
    let e = set_outcome(0).unwrap_err();
    assert_eq!(e.0, 404);
    assert_eq!(e.1, "no such user");
}

#[test]
fn any_ordinary_password_can_be_hashed() {
    for p in ["", "x", "пароль-пароль", "🔑🔑🔑🔑🔑🔑🔑🔑", &"a".repeat(4096)] {
        let h = hash(p).unwrap();
        assert!(h.starts_with("$argon2id$"));
        assert!(verify(p, &h));
    }
}
