use altc::json::Json;
use altc::wolf::{
    app_id_body, check_known_client, check_reply, client_id_body, pair_body, paired_client_id, parse_sse,
    socket_path, PairedClient, SseBuffer, WolfError,
};

#[test]
fn a_refusal_is_wolfs_own_words() {
    let e = check_reply(r#"{"success":false,"error":"invalid pair secret"}"#).err().unwrap();
    assert_eq!(e.0, "invalid pair secret");
    let api = e.into_api();
    assert_eq!(api.0, 502);
    assert_eq!(api.1, "wolf socket: invalid pair secret");
    assert_eq!(check_reply(r#"{"success":false}"#).err().unwrap().0, "unknown error");
    assert!(check_reply("not json").is_err());
    assert!(check_reply(r#"{"success":true,"client_id":"abc"}"#).is_ok());
}

#[test]
fn a_pairing_reply_names_the_client() {
    let v = check_reply(r#"{"success":true,"client_id":"abc123"}"#).ok().unwrap();
    assert_eq!(paired_client_id(&v).ok().unwrap(), "abc123");
    let e = paired_client_id(&Json::Null).err().unwrap();
    assert_eq!(e.0, "pair response missing client_id");
}

#[test]
fn request_bodies_are_json() {
    assert_eq!(pair_body("s3cret", "1234"), r#"{"pair_secret":"s3cret","pin":"1234"}"#);
    assert_eq!(app_id_body("42"), r#"{"id":"42"}"#);
    assert_eq!(client_id_body("a\"b"), r#"{"client_id":"a\"b"}"#);
}

#[test]
fn event_frames_carry_a_kind_and_data() {
    let (kind, data) = parse_sse("event: wolf::core::events::StartRunner\ndata: {\"session_id\":\"d1\"}").unwrap();
    assert_eq!(kind, "wolf::core::events::StartRunner");
    assert_eq!(data.get("session_id").unwrap(), "\"d1\"");
    assert!(parse_sse("event: x").is_none());
    assert!(parse_sse("data: {}").is_none());
    assert!(parse_sse("event: x\ndata: not json").is_none());
}

#[test]
fn the_stream_is_cut_at_blank_lines() {
    let mut b = SseBuffer::new();
    b.push(b"event: a\ndata: {}\n\nevent: b\nda");
    assert_eq!(b.next_frame().unwrap(), "event: a\ndata: {}");
    assert!(b.next_frame().is_none());
    b.push(b"ta: {}\n\n");
    assert_eq!(b.next_frame().unwrap(), "event: b\ndata: {}");
    assert_eq!(b.pending, "");
}

#[test]
fn the_socket_is_found_from_the_settings() {
    assert_eq!(socket_path(Some("/run/w.sock".into()), None), "/run/w.sock");
    assert_eq!(socket_path(None, Some("/run/user/1000".into())), "/run/user/1000/wolf.sock");
    assert_eq!(socket_path(None, None), "/tmp/sockets/wolf.sock");
}

#[test]
fn only_a_paired_client_can_be_claimed() {
    let known = vec![PairedClient { client_id: "abc123".into(), app_state_folder: "x".into() }];
    assert!(check_known_client(&known, "abc123").is_ok());
    let e = check_known_client(&known, "zzz").unwrap_err();
    assert_eq!((e.0, e.1.as_str()), (404, "no paired client with that id"));
    assert_eq!(WolfError("down".into()).message(), "wolf socket: down");
}
