use altc::apps::sees_event;
use altc::events::{coarse_percent, LaunchEvent, LaunchTracker};
use altc::json::Json;
use altc::progress::RunnerUpdate;

/// Feeds Wolf's events through a fresh tracker; what clients would get.
fn collect(events: &[(&str, &str)]) -> Vec<LaunchEvent> {
    let mut t = LaunchTracker::new();
    let mut out = Vec::new();
    for (kind, data) in events {
        if let Some(e) = t.publish(kind, &Json::read(data).unwrap()).event {
            out.push(e);
        }
    }
    out
}

#[test]
fn wolf_events_translate_to_launch_states() {
    let got = collect(&[
        (
            "wolf::core::events::StreamSession",
            r#"{"client_id": "dev1", "app_id": "639825709", "aes_key": "SECRET", "aes_iv": "SECRET"}"#,
        ),
        ("wolf::core::events::StartRunner", r#"{"session_id": "dev1"}"#),
        ("wolf::core::events::DockerContainerCreated", r#"{"session_id": "dev1", "container_id": "abc"}"#),
        ("wolf::core::events::DockerContainerStopped", r#"{"session_id": "dev1"}"#),
    ]);
    let states: Vec<&str> = got.iter().map(|e| e.state.as_str()).collect();
    assert_eq!(states, vec!["connecting", "launching", "container_started", "stopped"]);
    // app_id is remembered from StreamSession for the follow-up events.
    assert_eq!(got[1].app_id.as_deref(), Some("639825709"));
    assert_eq!(got[2].app_id.as_deref(), Some("639825709"));
    let raw = format!("{got:?}");
    assert!(!raw.contains("SECRET"), "session secrets must never be forwarded");
    assert!(!raw.contains("aes"));
    assert!(!raw.contains("container_id"));
}

#[test]
fn numeric_session_ids_are_stringified() {
    let got = collect(&[("StopStreamEvent", r#"{"session_id": 11720759129636514154}"#)]);
    assert_eq!(got.len(), 1);
    assert_eq!(got[0].client_id, "11720759129636514154");
    assert_eq!(got[0].state, "stopped");
}

#[test]
fn unmapped_events_are_dropped() {
    let got = collect(&[
        ("PairSignal", r#"{"client_ip": "10.0.0.1", "host_ip": "10.0.0.2"}"#),
        ("wolf::core::events::RTPVideoPingEvent", r#"{"client_ip": "10.0.0.1"}"#),
        ("VideoSession", r#"{"session_id": "dev1", "aes_key": "SECRET"}"#),
    ]);
    assert!(got.is_empty(), "only mapped launch events should surface");
}

#[test]
fn members_only_see_their_own_devices() {
    let got = collect(&[
        ("wolf::core::events::StartRunner", r#"{"session_id": "dave-dev"}"#),
        ("wolf::core::events::StartRunner", r#"{"session_id": "someone-else"}"#),
    ]);
    let daves = vec!["dave-dev".to_string()];
    let dave_saw: Vec<&LaunchEvent> = got.iter().filter(|e| sees_event(false, &daves, &e.client_id)).collect();
    assert_eq!(dave_saw.len(), 1);
    assert_eq!(dave_saw[0].client_id, "dave-dev");
    let owner_saw: Vec<&LaunchEvent> = got.iter().filter(|e| sees_event(true, &vec![], &e.client_id)).collect();
    assert_eq!(owner_saw.len(), 2, "admins see every session");
}

#[test]
fn spurious_resume_at_session_start_is_suppressed() {
    // Wolf fires ResumeStream during setup, before the runner even starts.
    let got = collect(&[
        ("wolf::core::events::StreamSession", r#"{"client_id": "d1", "app_id": "a1"}"#),
        ("wolf::core::events::ResumeStreamEvent", r#"{"session_id": "d1"}"#),
        ("wolf::core::events::StartRunner", r#"{"session_id": "d1"}"#),
    ]);
    let states: Vec<&str> = got.iter().map(|e| e.state.as_str()).collect();
    assert_eq!(states, vec!["connecting", "launching"]);
}

#[test]
fn genuine_pause_resume_pair_surfaces() {
    let got = collect(&[
        ("wolf::core::events::PauseStreamEvent", r#"{"session_id": "d1"}"#),
        ("wolf::core::events::ResumeStreamEvent", r#"{"session_id": "d1"}"#),
    ]);
    let states: Vec<&str> = got.iter().map(|e| e.state.as_str()).collect();
    assert_eq!(states, vec!["paused", "resumed"]);
}

#[test]
fn every_coarse_state_carries_a_number() {
    assert_eq!(coarse_percent("connecting"), Some(1));
    assert_eq!(coarse_percent("launching"), Some(3));
    assert_eq!(coarse_percent("container_started"), Some(5));
    assert_eq!(coarse_percent("stopped"), Some(0));
    assert_eq!(coarse_percent("paused"), None);
}

#[test]
fn a_started_container_is_followed_once() {
    let mut t = LaunchTracker::new();
    let data = Json::read(r#"{"session_id": "d1", "container_id": "abc"}"#).unwrap();
    let first = t.publish("DockerContainerCreated", &data);
    let f = first.follow.unwrap();
    assert_eq!((f.container_id.as_str(), f.client_id.as_str()), ("abc", "d1"));
    assert!(t.publish("DockerContainerCreated", &data).follow.is_none());
    t.follow_finished("abc");
    assert!(t.publish("DockerContainerCreated", &data).follow.is_some());
}

#[test]
fn runner_progress_only_moves_forward() {
    let mut t = LaunchTracker::new();
    let app = Some("a1".to_string());
    let e = t.runner_update("d1", &app, RunnerUpdate::Percent(40)).unwrap();
    assert_eq!((e.state.as_str(), e.percent), ("starting", Some(40)));
    assert!(t.runner_update("d1", &app, RunnerUpdate::Percent(30)).is_none());
    let done = t.runner_update("d1", &app, RunnerUpdate::Percent(100)).unwrap();
    assert_eq!(done.state, "running");
    let failed = t.runner_update("d1", &app, RunnerUpdate::Failed("no disk".into())).unwrap();
    assert_eq!((failed.state.as_str(), failed.error.as_deref()), ("failed", Some("no disk")));
}
