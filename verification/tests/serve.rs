use altc::serve::{warn_about_http, Listeners, DEFAULT_HTTPS_PORT};

fn setting(v: &str) -> Option<String> {
    Some(v.to_string())
}

#[test]
fn defaults_keep_todays_behaviour_exactly() {
    // Existing clients, paired devices and tokens all assume 47990 over
    // TLS. Adding HTTP must not move that.
    let l = Listeners::from_settings(&None, &None).unwrap();
    assert_eq!(l.https, Some(47990));
    assert_eq!(l.http, None, "HTTP must be opt-in, not a silent downgrade");
}

#[test]
fn http_is_enabled_by_setting_a_port() {
    let l = Listeners::from_settings(&None, &setting("47989")).unwrap();
    assert_eq!(l.http, Some(47989));
    assert_eq!(l.https, Some(47990), "enabling HTTP must not disable HTTPS");
}

#[test]
fn zero_disables_a_listener() {
    let l = Listeners::from_settings(&setting("0"), &setting("8080")).unwrap();
    assert_eq!(l.https, None);
    assert_eq!(l.http, Some(8080));
}

#[test]
fn a_nonsense_port_falls_back_rather_than_crashing() {
    // A typo in a compose file must not leave the agent unreachable.
    let l = Listeners::from_settings(&setting("not-a-port"), &None).unwrap();
    assert_eq!(l.https, Some(47990));
}

#[test]
fn describe_says_what_is_actually_exposed() {
    let both = Listeners { http: Some(80), https: Some(443) };
    assert!(both.describe().contains("http://0.0.0.0:80"));
    assert!(both.describe().contains("https://0.0.0.0:443"));
    let only_https = Listeners { http: None, https: Some(47990) };
    assert!(!only_https.describe().contains("http://"));
}

#[test]
fn describe_names_each_listener_exactly() {
    assert_eq!(
        Listeners { http: Some(80), https: Some(443) }.describe(),
        "http://0.0.0.0:80 and https://0.0.0.0:443"
    );
    assert_eq!(Listeners { http: None, https: Some(DEFAULT_HTTPS_PORT) }.describe(), "https://0.0.0.0:47990");
    assert_eq!(Listeners { http: Some(8080), https: None }.describe(), "http://0.0.0.0:8080");
}

#[test]
fn an_open_http_port_is_warned_about() {
    assert!(warn_about_http(&Listeners { http: None, https: Some(47990) }).is_none());
    let w = warn_about_http(&Listeners { http: Some(47989), https: Some(47990) }).unwrap();
    assert!(w.starts_with("HTTP is enabled on port 47989: bearer tokens cross the network in clear."));
}

#[test]
fn a_port_out_of_range_is_not_a_port() {
    let l = Listeners::from_settings(&setting("70000"), &setting(" 8080 ")).unwrap();
    assert_eq!(l.https, Some(47990));
    assert_eq!(l.http, Some(8080));
}

#[test]
fn turning_off_both_listeners_is_refused() {
    let e = Listeners::from_settings(&setting("0"), &None).unwrap_err();
    assert_eq!(e, "both ALTC_API_PORT and ALTC_HTTP_PORT are disabled: nothing could reach the agent");
    assert!(Listeners::from_settings(&setting("0"), &setting("0")).is_err());
    assert!(Listeners::from_settings(&setting("0"), &setting("not-a-port")).is_err());
    assert!(Listeners::from_settings(&setting("0"), &setting("8080")).is_ok());
}
