use altc::games::{game_changed, id_candidate, no_free_id, APPID_FROM_GAMEID};
use altc::web::{docker_socket, state_dir, web_target, WebTarget};

#[test]
fn candidate_ids_are_positive_32_bit_values() {
    assert_eq!(id_candidate(0), "1");
    assert_eq!(id_candidate(41), "42");
    assert_eq!(id_candidate(2147483645), "2147483646");
    assert_eq!(id_candidate(2147483646), "1");
    assert_eq!(id_candidate(u32::MAX), "4");
    let e = no_free_id();
    assert_eq!((e.0, e.1.as_str()), (500, "could not allocate a free app id"));
}

#[test]
fn editing_a_missing_game_is_a_404() {
    assert!(game_changed(1).is_ok());
    assert_eq!(game_changed(0).unwrap_err().1, "no such game");
    assert_eq!(APPID_FROM_GAMEID, "gameid");
}

#[test]
fn an_unknown_api_path_answers_as_an_api() {
    assert!(matches!(web_target("/api/v1/nope"), WebTarget::NoSuchEndpoint));
    match web_target("/") {
        WebTarget::Asset(n, mime) => assert_eq!((n.as_str(), mime.as_str()), ("index.html", "text/html")),
        _ => panic!("expected the app"),
    }
    match web_target("/assets/app.js") {
        WebTarget::Asset(n, _) => assert_eq!(n, "assets/app.js"),
        _ => panic!("expected an asset"),
    }
    match web_target("/blob.unknownext") {
        WebTarget::Asset(_, mime) => assert_eq!(mime, "application/octet-stream"),
        _ => panic!("expected an asset"),
    }
}

#[test]
fn the_state_folder_sits_inside_wolfs() {
    assert_eq!(state_dir(None), "/etc/wolf/altc");
    assert_eq!(state_dir(Some("/srv/wolf/".into())), "/srv/wolf/altc");
    assert_eq!(docker_socket(None), "/var/run/docker.sock");
}

#[test]
fn a_game_is_looked_for_in_its_mount_sources() {
    let mut g = altc::library::build_game(
        &altc::library::NewGame {
            title: "Doom".into(),
            image: "img".into(),
            mounts: vec!["/host/doom:/games/doom:rw".into(), "/host/saves:/saves:rw".into()],
            env: vec![],
            icon: None,
            render_node: None,
            support_hdr: None,
            steam_appid: None,
        },
        &altc::library::EngineDefaults {
            h264_gst_pipeline: String::new(),
            hevc_gst_pipeline: String::new(),
            av1_gst_pipeline: String::new(),
            opus_gst_pipeline: String::new(),
            start_audio_server: true,
            start_virtual_compositor: true,
            video_producer_buffer_caps: String::new(),
            render_node: String::new(),
            runner_base_create_json: String::new(),
        },
        "1".into(),
    );
    assert_eq!(
        altc::games::install_candidates(&g).unwrap(),
        vec!["/host/doom".to_string(), "/host/saves".to_string()]
    );
    g.runner_json = r#"{"mounts":["/a:/b:rw", 3, "/c:/d:rw"]}"#.into();
    assert_eq!(altc::games::install_candidates(&g).unwrap(), vec!["/a".to_string()]);
    g.runner_json = r#"{"type":"process"}"#.into();
    assert!(altc::games::install_candidates(&g).is_none());
}
