use altc::json::Json;
use altc::library::{game_from, import_plan, push_payloads, to_wolf_app, wolf_app_ids};
use serde_json::Value;

const SAMPLE_APP: &str = r#"{
    "id": "578802895",
    "title": "Baldur's Gate 3",
    "support_hdr": false,
    "icon_png_path": "",
    "render_node": "/dev/dri/renderD128",
    "h264_gst_pipeline": "h264...",
    "hevc_gst_pipeline": "hevc...",
    "av1_gst_pipeline": "av1...",
    "opus_gst_pipeline": "opus...",
    "video_producer_buffer_caps": "video/x-raw, format=NV12",
    "start_audio_server": true,
    "start_virtual_compositor": true,
    "runner": {"type": "docker", "image": "wolf-runner:v7"}
}"#;

// Test ball as it really is in Wolf: its own sources, and both servers off.
const OVERRIDING_APP: &str = r#"{
    "id": "249285395",
    "title": "Test ball",
    "support_hdr": false,
    "icon_png_path": "",
    "render_node": "/dev/dri/renderD128",
    "h264_gst_pipeline": "videotestsrc pattern=ball ...",
    "hevc_gst_pipeline": "videotestsrc pattern=ball ...",
    "av1_gst_pipeline": "videotestsrc pattern=ball ...",
    "opus_gst_pipeline": "audiotestsrc wave=ticks ...",
    "video_producer_buffer_caps": "video/x-raw, format=NV12",
    "start_audio_server": false,
    "start_virtual_compositor": false,
    "runner": {"type": "process", "run_cmd": "sh -c 'sleep 10'"}
}"#;

fn ours(text: &str) -> Json {
    Json::read(text).unwrap()
}

fn theirs(text: &str) -> Value {
    serde_json::from_str(text).unwrap()
}

/// The value of member `key` of what the library sent.
fn member(out: &Json, key: &str) -> Value {
    serde_json::from_str(&out.get(key).unwrap()).unwrap()
}

#[test]
fn round_trips_an_app_through_the_library_shape() {
    let app = theirs(SAMPLE_APP);
    let out = to_wolf_app(&game_from(&ours(SAMPLE_APP)));
    // Every field Wolf demands must survive; it defaults none of them.
    for key in [
        "id",
        "title",
        "support_hdr",
        "icon_png_path",
        "render_node",
        "h264_gst_pipeline",
        "hevc_gst_pipeline",
        "av1_gst_pipeline",
        "opus_gst_pipeline",
        "video_producer_buffer_caps",
        "start_audio_server",
        "start_virtual_compositor",
        "runner",
    ] {
        assert_eq!(member(&out, key), app[key], "field {key} did not round-trip");
    }
}

#[test]
fn an_apps_engine_overrides_are_not_replaced_by_another_apps() {
    let (normal, ball) = (theirs(SAMPLE_APP), theirs(OVERRIDING_APP));
    let out_ball = to_wolf_app(&game_from(&ours(OVERRIDING_APP)));
    let out_normal = to_wolf_app(&game_from(&ours(SAMPLE_APP)));

    assert_eq!(member(&out_ball, "h264_gst_pipeline"), ball["h264_gst_pipeline"]);
    assert_eq!(member(&out_ball, "opus_gst_pipeline"), ball["opus_gst_pipeline"]);
    assert_eq!(member(&out_ball, "start_audio_server"), Value::Bool(false));
    assert_eq!(member(&out_ball, "start_virtual_compositor"), Value::Bool(false));
    // ...and the ordinary app is untouched by the override's presence.
    assert_eq!(member(&out_normal, "h264_gst_pipeline"), normal["h264_gst_pipeline"]);
    assert_eq!(member(&out_normal, "start_audio_server"), Value::Bool(true));
}

#[test]
fn id_is_carried_through_unchanged() {
    assert_eq!(
        member(&to_wolf_app(&game_from(&ours(SAMPLE_APP))), "id"),
        Value::String("578802895".to_string())
    );
}

#[test]
fn a_colon_in_a_title_survives_the_round_trip() {
    let text = SAMPLE_APP.replace("Baldur's Gate 3", "Wolfenstein: The New Order");
    let out = to_wolf_app(&game_from(&ours(&text)));
    assert_eq!(member(&out, "title"), Value::String("Wolfenstein: The New Order".to_string()));
}

#[test]
fn a_process_runner_survives_the_round_trip() {
    let out = to_wolf_app(&game_from(&ours(OVERRIDING_APP)));
    let runner = member(&out, "runner");
    assert_eq!(runner["type"], Value::String("process".to_string()));
    assert_eq!(runner["run_cmd"], Value::String("sh -c 'sleep 10'".to_string()));
}

fn template() -> altc::library::EngineDefaults {
    altc::library::EngineDefaults {
        h264_gst_pipeline: "h264".into(),
        hevc_gst_pipeline: "hevc".into(),
        av1_gst_pipeline: "av1".into(),
        opus_gst_pipeline: "opus".into(),
        start_audio_server: true,
        start_virtual_compositor: true,
        video_producer_buffer_caps: "video/x-raw".into(),
        render_node: "/dev/dri/renderD128".into(),
        runner_base_create_json: "{}".into(),
    }
}

fn new_game(title: &str) -> altc::library::NewGame {
    altc::library::NewGame {
        title: title.into(),
        image: " ghcr.io/runner:v7 ".into(),
        mounts: vec!["/games/bg3:/games/bg3:rw".into()],
        env: vec!["RUN_EXE=/games/bg3/bg3.exe".into()],
        icon: None,
        render_node: None,
        support_hdr: None,
        steam_appid: Some("1086940".into()),
    }
}

#[test]
fn a_created_game_inherits_the_template_and_names_its_runner_after_the_title() {
    let g = altc::library::build_game(&new_game(" Baldur's Gate 3 "), &template(), "42".into());
    assert_eq!(g.id, "42");
    assert_eq!(g.title, "Baldur's Gate 3");
    assert_eq!(g.hevc_gst_pipeline, "hevc");
    assert_eq!(g.render_node, "/dev/dri/renderD128");
    assert_eq!(g.appid_source, "admin");
    let runner: Value = serde_json::from_str(&g.runner_json).unwrap();
    assert_eq!(runner["name"], Value::String("BaldursGate3".into()));
    assert_eq!(runner["image"], Value::String("ghcr.io/runner:v7".into()));
    assert_eq!(runner["mounts"][0], Value::String("/games/bg3:/games/bg3:rw".into()));
    assert_eq!(runner["type"], Value::String("docker".into()));
    // The same text serde would print for that object.
    assert_eq!(runner.to_string(), g.runner_json);
}

#[test]
fn a_title_that_exists_already_is_a_conflict() {
    let lib = altc::storage::Library::new(vec!["/games".into()]);
    let existing = vec![altc::library::build_game(&new_game("Baldur's Gate 3"), &template(), "1".into())];
    let facts = vec![altc::library::PathFacts { within: true, exists: true }];
    let host = Some(altc::library::PathFacts { within: true, exists: true });
    let e = altc::library::check_create(
        &new_game("baldur's gate 3"),
        &lib,
        &facts,
        host,
        &existing,
        &Some(template()),
    )
    .unwrap_err();
    assert_eq!((e.0, e.1.as_str()), (409, "a game called 'baldur's gate 3' already exists"));
    assert!(altc::library::check_create(&new_game("Other"), &lib, &facts, host, &existing, &Some(template())).is_ok());
    let e = altc::library::check_create(&new_game("Other"), &lib, &facts, host, &existing, &None).unwrap_err();
    assert_eq!(e.0, 500);
}

#[test]
fn a_missing_executable_is_named() {
    let lib = altc::storage::Library::new(vec!["/games".into()]);
    let facts = vec![altc::library::PathFacts { within: true, exists: true }];
    let host = Some(altc::library::PathFacts { within: true, exists: false });
    let e = altc::library::validate(&new_game("X"), &lib, &facts, host).unwrap_err();
    assert_eq!(e.1, "no such executable: /games/bg3/bg3.exe (from RUN_EXE '/games/bg3/bg3.exe')");
}

#[test]
fn an_import_that_stored_games_is_not_repeated() {
    let apps = vec![ours(SAMPLE_APP)];
    let first = import_plan(0, &apps, false);
    assert_eq!(first.games.len(), 1);
    assert!(first.defaults.is_some());
    let again = import_plan(first.games.len() as i64, &apps, false);
    assert!(again.games.is_empty());
    assert!(again.defaults.is_none());
}

#[test]
fn a_second_push_deletes_exactly_what_the_first_added() {
    let games = import_plan(0, &vec![ours(SAMPLE_APP), ours(OVERRIDING_APP)], false).games;
    let payloads = push_payloads(&games).unwrap().unwrap();
    // Wolf's list after the first push: an app it holds without an id, then ours.
    let mut list = vec![ours(r#"{"title":"Desktop"}"#)];
    list.extend(payloads.iter().cloned());
    assert_eq!(wolf_app_ids(&list), vec!["578802895".to_string(), "249285395".to_string()]);
}
