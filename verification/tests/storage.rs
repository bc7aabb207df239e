use altc::storage::{host_path_for, join, within, Library};

#[test]
fn maps_a_container_path_back_to_the_host() {
    let mounts = vec!["/mnt/HDDs/Media/Games/doom:/games/doom:rw".to_string()];
    assert_eq!(
        host_path_for("/games/doom/DOOM.exe", &mounts).unwrap(),
        "/mnt/HDDs/Media/Games/doom/DOOM.exe"
    );
}

#[test]
fn does_not_match_a_sibling_with_a_shared_prefix() {
    let mounts = vec!["/host/doom:/games/doom:rw".to_string()];
    assert!(host_path_for("/games/doomsday/x.exe", &mounts).is_none());
}

#[test]
fn the_deepest_mount_wins() {
    let mounts = vec!["/host/all:/games:rw".to_string(), "/host/doom:/games/doom:rw".to_string()];
    assert_eq!(host_path_for("/games/doom/DOOM.exe", &mounts).unwrap(), "/host/doom/DOOM.exe");
}

#[test]
fn an_unmapped_path_has_no_host_equivalent() {
    let mounts = vec!["/host/doom:/games/doom:rw".to_string()];
    assert!(host_path_for("/elsewhere/x.exe", &mounts).is_none());
}

#[test]
fn an_unconfigured_library_refuses_rather_than_exposing_the_filesystem() {
    let err = Library::default().resolve("/etc", Some("/etc".to_string()), &vec![]).unwrap_err();
    assert_eq!(err.0, 500);
}

#[test]
fn traversal_cannot_escape_a_root() {
    // The requested path is compared in its canonical form: `..` has been
    // resolved before the check, so this lands outside the root.
    let lib = Library::new(vec!["/tmp/altc-roots/games".to_string()]);
    let roots = vec![Some("/tmp/altc-roots/games".to_string())];
    assert!(lib.resolve("/tmp/altc-roots/games", Some("/tmp/altc-roots/games".to_string()), &roots).is_ok());
    let escape = lib.resolve("/tmp/altc-roots/games/../../etc", Some("/etc".to_string()), &roots);
    assert!(escape.is_err());
}

#[test]
fn a_relative_path_is_refused() {
    let lib = Library::new(vec!["/games".to_string()]);
    let e = lib.resolve("games", None, &vec![Some("/games".to_string())]).unwrap_err();
    assert_eq!(e.0, 400);
}

#[test]
fn a_missing_path_is_not_found() {
    let lib = Library::new(vec!["/games".to_string()]);
    let e = lib.resolve("/games/nope", None, &vec![Some("/games".to_string())]).unwrap_err();
    assert_eq!(e.0, 404);
    assert_eq!(e.1, "no such path: /games/nope");
}

#[test]
fn a_sibling_folder_is_not_inside_a_root() {
    assert!(within("/games/doom", "/games"));
    assert!(within("/games", "/games"));
    assert!(!within("/gamesx/doom", "/games"));
}

#[test]
fn roots_come_from_a_json_array() {
    let lib = Library::from_setting(r#"["/games", "/mnt/more"]"#);
    assert_eq!(lib.roots(), &vec!["/games".to_string(), "/mnt/more".to_string()]);
    assert!(lib.is_configured());
    assert!(!Library::from_setting("").is_configured());
    assert!(!Library::from_setting("/games").is_configured());
    assert!(!Library::from_setting("[1]").is_configured());
}

#[test]
fn joining_follows_path_rules() {
    assert_eq!(join("/cache", "a.jpg"), "/cache/a.jpg");
    assert_eq!(join("/cache/", "a.jpg"), "/cache/a.jpg");
    assert_eq!(join("/cache", "/abs"), "/abs");
}

#[test]
fn an_escape_is_answered_like_a_missing_path() {
    let lib = Library::new(vec!["/tmp/altc-roots/games".to_string()]);
    let roots = vec![Some("/tmp/altc-roots/games".to_string())];
    let requested = "/tmp/altc-roots/games/../../etc";
    let escape = lib.resolve(requested, Some("/etc".to_string()), &roots).unwrap_err();
    assert_eq!(escape.0, 404);
    assert_eq!(escape.1, "no such path: /tmp/altc-roots/games/../../etc");
    let missing = lib.resolve(requested, None, &roots).unwrap_err();
    assert_eq!((escape.0, escape.1), (missing.0, missing.1));
}

#[test]
fn nothing_is_within_an_unconfigured_library() {
    assert!(!Library::default().is_within(Some("/games".to_string()), &vec![]));
}

#[test]
fn a_missing_file_under_a_root_is_within_but_does_not_resolve() {
    let lib = Library::new(vec!["/games".to_string()]);
    let roots = vec![Some("/games".to_string())];
    // The nearest existing ancestor of /games/doom/DOOM.exe is the root itself.
    assert!(lib.is_within(Some("/games".to_string()), &roots));
    let e = lib.resolve("/games/doom/DOOM.exe", None, &roots).unwrap_err();
    assert_eq!(e.0, 404);
}

#[test]
fn the_first_of_equally_deep_mounts_wins() {
    let mounts = vec!["/a:/games:rw".to_string(), "/b:/games:ro".to_string()];
    assert_eq!(host_path_for("/games/x.exe", &mounts).unwrap(), "/a/x.exe");
}
