use altc::apps::{
    admin_app, app_exists, apply_engine_edit, art_content_type, art_file, blank_to_none, client_apps, client_icon,
    edited_title_and_icon, everyone, normalize_controller, sees, AppEdit,
};
use altc::library::Game;
use altc::users::User;

fn game(id: &str, title: &str, icon: &str) -> Game {
    Game {
        id: id.into(),
        title: title.into(),
        support_hdr: false,
        icon_png_path: icon.into(),
        render_node: "/dev/dri/renderD128".into(),
        runner_json: r#"{"type":"docker"}"#.into(),
        video_producer_buffer_caps: "video/x-raw".into(),
        h264_gst_pipeline: "h264".into(),
        hevc_gst_pipeline: "hevc".into(),
        av1_gst_pipeline: "av1".into(),
        opus_gst_pipeline: "opus".into(),
        start_audio_server: true,
        start_virtual_compositor: true,
        store: String::new(),
        store_id: String::new(),
        slug: String::new(),
        release_date: String::new(),
        description: "A game.".into(),
        protondb_tier: String::new(),
        steam_appid: String::new(),
        appid_source: String::new(),
        tagline: String::new(),
        developer: String::new(),
        genres: String::new(),
        controller_override: String::new(),
    }
}

fn user(id: i64, role: &str) -> User {
    User { id, name: format!("u{id}"), role: role.into(), locale: None }
}

#[test]
fn apps_default_to_everyone() {
    let games = vec![game("134906179", "Wolf UI", ""), game("1354165435", "Baldur’s Gate 3", "")];
    let shown = client_apps(&games, &vec![], &user(2, "member"));
    assert_eq!(shown.len(), 2);
    assert!(everyone(&vec![]));
    assert!(!everyone(&vec![2]));
}

#[test]
fn restricting_an_app_hides_it_from_others() {
    let games = vec![game("134906179", "Wolf UI", ""), game("1354165435", "Baldur’s Gate 3", "")];
    let rows = vec![("1354165435".to_string(), 2)];
    let dave: Vec<String> = client_apps(&games, &rows, &user(2, "member")).into_iter().map(|a| a.title).collect();
    assert_eq!(dave, vec!["Wolf UI", "Baldur’s Gate 3"]);
    let erin: Vec<String> = client_apps(&games, &rows, &user(3, "member")).into_iter().map(|a| a.title).collect();
    assert_eq!(erin, vec!["Wolf UI"]);
    let owner = client_apps(&games, &rows, &user(1, "owner"));
    assert_eq!(owner.len(), 2);
    assert!(sees(&rows, "1354165435", &user(1, "admin")));
    assert!(!sees(&rows, "1354165435", &user(3, "member")));
}

#[test]
fn apps_trimmed_for_clients() {
    let g = game("134906179", "Wolf UI", "https://example.com/wolf_ui_icon.png");
    let a = &client_apps(&vec![g], &vec![], &user(1, "owner"))[0];
    assert_eq!(a.id, "134906179");
    assert_eq!(a.title, "Wolf UI");
    assert!(!a.support_hdr);
    assert_eq!(a.icon.as_deref(), Some("https://example.com/wolf_ui_icon.png"));
    assert_eq!(a.description.as_deref(), Some("A game."));
    assert_eq!(a.store, None);
    assert_eq!(a.controller_override, None);
}

#[test]
fn cached_art_is_served_by_the_api() {
    assert_eq!(
        client_icon(&game("42", "x", "/etc/wolf/altc/art/42.jpg")).as_deref(),
        Some("/api/v1/apps/42/art")
    );
    assert_eq!(client_icon(&game("42", "x", "   ")), None);
    assert_eq!(client_icon(&game("42", "x", " http://a/b.png ")).as_deref(), Some("http://a/b.png"));
    let a = admin_app(&game("42", "x", "/cache/42.png"));
    assert_eq!(a.icon.as_deref(), Some("/api/v1/apps/42/art"));
}

#[test]
fn blank_fields_are_left_out() {
    assert_eq!(blank_to_none(""), None);
    assert_eq!(blank_to_none("gold").as_deref(), Some("gold"));
}

#[test]
fn shares_for_an_unknown_app_are_a_404_not_everyone() {
    let games = vec![game("1", "One", "")];
    assert!(app_exists(&games, "1").is_ok());
    let e = app_exists(&games, "does-not-exist").unwrap_err();
    assert_eq!((e.0, e.1.as_str()), (404, "no such app"));
}

#[test]
fn an_edit_keeps_what_it_does_not_name() {
    let g = game("1", "One", "/icon.png");
    let none = AppEdit { title: None, icon: None, controller_override: None, render_node: None };
    assert_eq!(edited_title_and_icon(&g, &none).unwrap(), ("One".to_string(), "/icon.png".to_string()));
    let blank = AppEdit { title: Some("  ".into()), icon: None, controller_override: None, render_node: None };
    let e = edited_title_and_icon(&g, &blank).unwrap_err();
    assert_eq!((e.0, e.1.as_str()), (400, "title cannot be empty"));
    let renamed = AppEdit { title: Some(" Two ".into()), icon: Some("x".into()), controller_override: None, render_node: None };
    assert_eq!(edited_title_and_icon(&g, &renamed).unwrap(), ("Two".to_string(), "x".to_string()));
}

#[test]
fn controller_settings_are_normalised() {
    assert_eq!(normalize_controller(" xbox ").unwrap(), "XBOX");
    assert_eq!(normalize_controller("Auto").unwrap(), "");
    assert_eq!(normalize_controller("").unwrap(), "");
    let e = normalize_controller("gamecube").unwrap_err();
    assert_eq!((e.0, e.1.as_str()), (400, "controller_override must be XBOX, PS, NINTENDO or AUTO"));
    let g = apply_engine_edit(game("1", "One", ""), Some("ps".into()), Some("/dev/dri/renderD129".into())).unwrap();
    assert_eq!(g.controller_override, "PS");
    assert_eq!(g.render_node, "/dev/dri/renderD129");
}

#[test]
fn art_is_served_with_the_type_its_name_says() {
    assert_eq!(art_content_type("/cache/42.png"), "image/png");
    assert_eq!(art_content_type("/cache/42.webp"), "image/webp");
    assert_eq!(art_content_type("/cache/42.jpg"), "image/jpeg");
    assert_eq!(art_content_type("/cache/42"), "image/jpeg");
    assert_eq!(art_file(Some(game("1", "x", ""))).unwrap_err().1, "no art for this game");
    assert_eq!(art_file(None).unwrap_err().1, "no such app");
    assert_eq!(art_file(Some(game("1", "x", "/a.png"))).unwrap(), "/a.png");
}

#[test]
fn share_edits_are_admin_only_and_validated() {
    let e = altc::apps::no_such_share_user(9999);
    assert_eq!((e.0, e.1.as_str()), (400, "no such user: 9999"));
    assert_eq!(altc::apps::no_such_share_user(-5).1, "no such user: -5");
    assert_eq!(altc::apps::no_such_share_user(i64::MIN).1, format!("no such user: {}", i64::MIN));
}

#[test]
fn extensions_are_found_as_std_finds_them() {
    let paths = [
        "/cache/42.png", "/cache/42.jpg", "/cache/42", "/cache/.hidden", "/cache/.hidden.webp", "/cache/a.b.c",
        "/cache/dir.d/", "/cache/dir.d//", "/cache/x./", "/cache/x.", "/cache/..", "/cache/../a.png", "/", "",
        ".", "..", "a.png/.", "./a.webp", "...", "a..b", "/a/./b.jpeg", "/cache/42.PNG", "/é/ü.ñ",
    ];
    for p in paths {
        let std_ext = std::path::Path::new(p).extension().and_then(|e| e.to_str()).map(|e| e.to_string());
        assert_eq!(altc::apps::extension_of(p), std_ext, "{p:?}");
    }
}
