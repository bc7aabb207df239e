use altc::identity::{acf_value, detect, ManifestFile, SteamDir};

fn file(name: &str, body: &str) -> ManifestFile {
    ManifestFile { name: name.to_string(), body: Some(body.to_string()) }
}

const PORTAL_ACF: &str =
    "\"AppState\"\n{\n\t\"appid\"\t\t\"400\"\n\t\"name\"\t\t\"Portal\"\n\t\"installdir\"\t\t\"Portal\"\n}\n";

#[test]
fn reads_a_gog_install() {
    // Shape taken from the real file.
    let listing = Some(vec![file(
        "goggame-1943729964.info",
        r#"{"buildId":"52","clientId":"49","gameId":"1943729964",
            "name":"Wolfenstein: The New Order","rootGameId":"1943729964","version":1}"#,
    )]);
    let id = detect(&listing, &vec![], &Some("gog".to_string())).unwrap();
    assert_eq!(id.store, "gog");
    assert_eq!(id.store_id, "1943729964");
    // The colon is the store's own punctuation, not a mistake to strip.
    assert_eq!(id.title, "Wolfenstein: The New Order");
}

#[test]
fn prefers_the_base_game_over_a_dlc_id() {
    let listing = Some(vec![file(
        "goggame-2000.info",
        r#"{"gameId":"2000","rootGameId":"1000","name":"Some DLC"}"#,
    )]);
    assert_eq!(detect(&listing, &vec![], &Some("gogdlc".to_string())).unwrap().store_id, "1000");
}

#[test]
fn reads_a_steam_install_from_the_game_folder() {
    // steamapps/common/Portal: the folder itself, common/, and steamapps/.
    let dirs = vec![
        SteamDir { is_folder: true, listing: Some(vec![]) },
        SteamDir { is_folder: false, listing: Some(vec![ManifestFile { name: "Portal".into(), body: None }]) },
        SteamDir {
            is_folder: false,
            listing: Some(vec![ManifestFile { name: "common".into(), body: None }, file("appmanifest_400.acf", PORTAL_ACF)]),
        },
    ];
    let id = detect(&Some(vec![]), &dirs, &Some("Portal".to_string())).unwrap();
    assert_eq!(id.store, "steam");
    assert_eq!(id.store_id, "400");
    assert_eq!(id.title, "Portal");
}

#[test]
fn does_not_claim_a_sibling_games_manifest() {
    let dirs = vec![
        SteamDir { is_folder: true, listing: Some(vec![]) },
        SteamDir { is_folder: false, listing: Some(vec![ManifestFile { name: "HalfLife".into(), body: None }]) },
        SteamDir { is_folder: false, listing: Some(vec![file("appmanifest_400.acf", PORTAL_ACF)]) },
    ];
    assert!(
        detect(&Some(vec![]), &dirs, &Some("HalfLife".to_string())).is_none(),
        "must not label HalfLife as Portal"
    );
}

#[test]
fn an_unrecognised_folder_is_not_guessed_at() {
    let listing = Some(vec![ManifestFile { name: "game.exe".into(), body: None }]);
    let dirs = vec![SteamDir { is_folder: true, listing: Some(vec![ManifestFile { name: "game.exe".into(), body: None }]) }];
    assert!(detect(&listing, &dirs, &Some("plain".to_string())).is_none());
}

#[test]
fn acf_lines_are_read_by_key() {
    assert_eq!(acf_value(PORTAL_ACF, "appid"), Some("400".to_string()));
    assert_eq!(acf_value(PORTAL_ACF, "installdir"), Some("Portal".to_string()));
    assert_eq!(acf_value(PORTAL_ACF, "missing"), None);
}
