use altc::error::ApiError;
use altc::identity::Identity;
use altc::metadata::{
    art_path, art_urls_for, extension_for, fetch_art, gog_boxart_url, gog_product_url, lookup, parse_gog,
    steam_art_urls, Metadata, Source,
};
use std::collections::HashMap;

// Trimmed from the real api.gog.com response for Wolfenstein.
const GOG_BODY: &str = r#"{
    "id": 1943729964,
    "title": "Wolfenstein: The New Order",
    "slug": "wolfenstein_the_new_order",
    "release_date": "2014-05-19T00:00:00+0300",
    "description": {"lead": "Wolfenstein returns.", "full": "..."},
    "images": {
        "background": "//images-1.gog-statics.com/aaa_bg.jpg",
        "logo": "//images-3.gog-statics.com/bbb_glx_logo.jpg",
        "logo2x": "//images-1.gog-statics.com/bbb_glx_logo_2x.jpg",
        "icon": "//images-2.gog-statics.com/ccc_icon.png"
    }
}"#;

#[test]
fn reads_gogs_own_answer() {
    let m = parse_gog(GOG_BODY).unwrap();
    assert_eq!(m.title, "Wolfenstein: The New Order");
    assert_eq!(m.slug, "wolfenstein_the_new_order");
    assert_eq!(m.release_date, "2014-05-19T00:00:00+0300");
    assert_eq!(m.description, "Wolfenstein returns.");
}

#[test]
fn art_urls_become_absolute_without_gaining_an_extension() {
    let m = parse_gog(GOG_BODY).unwrap();
    // The suffix is already in the URL; appending .png/.jpg 404s.
    assert_eq!(m.art_urls[0], "https://images-1.gog-statics.com/bbb_glx_logo_2x.jpg");
    assert!(m.art_urls.iter().all(|u| u.starts_with("https://")));
    assert!(!m.art_urls.iter().any(|u| u.ends_with(".jpg.jpg")));
}

#[test]
fn the_high_resolution_logo_is_preferred() {
    let m = parse_gog(GOG_BODY).unwrap();
    assert!(m.art_urls[0].contains("_2x"), "got {:?}", m.art_urls);
}

#[test]
fn steam_art_is_portrait_first() {
    let urls = steam_art_urls("220");
    assert!(urls[0].contains("library_600x900"));
    assert!(urls.iter().all(|u| u.contains("/steam/apps/220/")));
}

#[test]
fn a_steam_game_uses_steam_art_not_the_stores_metadata_images() {
    let id = Identity {
        store: "steam".to_string(),
        store_id: "220".into(),
        title: "Half-Life 2".into(),
    };
    let urls = art_urls_for(&id, &Metadata::default());
    assert!(urls[0].contains("library_600x900"));
}

#[test]
fn art_is_keyed_by_id_so_a_rename_does_not_orphan_it() {
    let p = art_path("/cache", "578802895", "jpg");
    assert_eq!(p, "/cache/578802895.jpg");
}

#[test]
fn content_type_picks_the_extension() {
    assert_eq!(extension_for("image/png"), "png");
    assert_eq!(extension_for("image/jpeg"), "jpg");
    assert_eq!(extension_for("image/webp"), "webp");
}

#[test]
fn gog_urls_name_the_product() {
    assert_eq!(
        gog_product_url("1943729964"),
        "https://api.gog.com/products/1943729964?expand=description"
    );
    assert_eq!(gog_boxart_url("1943729964"), "https://api.gog.com/v2/games/1943729964");
}

#[test]
fn a_reply_that_is_not_json_is_an_error() {
    let e = parse_gog("<html>").unwrap_err();
    assert_eq!(e.0, 500);
}

struct Fake {
    text: HashMap<String, String>,
    bytes: HashMap<String, (Vec<u8>, String)>,
}

impl Source for Fake {
    fn get_text(&self, url: &str) -> Result<String, ApiError> {
        self.text
            .get(url)
            .cloned()
            .ok_or_else(|| ApiError::internal(&format!("{url} returned 404")))
    }
    fn get_bytes(&self, url: &str) -> Result<(Vec<u8>, String), ApiError> {
        self.bytes
            .get(url)
            .cloned()
            .ok_or_else(|| ApiError::internal(&format!("{url} returned 404")))
    }
}

fn gog_identity() -> Identity {
    Identity {
        store: "gog".to_string(),
        store_id: "1943729964".into(),
        title: "Wolfenstein: The New Order".into(),
    }
}

#[test]
fn prefers_real_box_art_over_the_store_logo() {
    // v1 gives a 200x120 landscape logo; v2 gives 342x482 portrait art.
    let fake = Fake {
        text: HashMap::from([
            (
                gog_product_url("1943729964"),
                r#"{"title":"W","images":{"logo2x":"//x/logo_2x.jpg"}}"#.to_string(),
            ),
            (
                gog_boxart_url("1943729964"),
                r#"{"_links":{"boxArtImage":{"href":"https://x/box.jpg"}}}"#.to_string(),
            ),
        ]),
        bytes: HashMap::new(),
    };
    let meta = lookup(&fake, &gog_identity()).unwrap();
    assert_eq!(meta.art_urls[0], "https://x/box.jpg");
    // The logo is kept behind it, not discarded.
    assert!(meta.art_urls.iter().any(|u| u.contains("logo")));
}

#[test]
fn missing_box_art_keeps_the_metadata_and_the_logo() {
    let fake = Fake {
        text: HashMap::from([(
            gog_product_url("1943729964"),
            r#"{"title":"W","images":{"logo2x":"//x/logo_2x.jpg"}}"#.to_string(),
        )]),
        bytes: HashMap::new(),
    };
    let meta = lookup(&fake, &gog_identity()).unwrap();
    assert_eq!(meta.title, "W");
    assert_eq!(meta.art_urls[0], "https://x/logo_2x.jpg");
}

#[test]
fn looks_a_gog_game_up_by_the_id_in_its_install_folder() {
    let fake = Fake {
        text: HashMap::from([(
            gog_product_url("1943729964"),
            r#"{"title":"Wolfenstein: The New Order","slug":"w","images":{"logo2x":"//x/a_2x.jpg"}}"#.to_string(),
        )]),
        bytes: HashMap::new(),
    };
    let meta = lookup(&fake, &gog_identity()).unwrap();
    assert_eq!(meta.title, "Wolfenstein: The New Order");
}

#[test]
fn a_steam_game_needs_no_lookup() {
    let fake = Fake { text: HashMap::new(), bytes: HashMap::new() };
    let id = Identity { store: "steam".into(), store_id: "220".into(), title: "Half-Life 2".into() };
    let meta = lookup(&fake, &id).unwrap();
    assert_eq!(meta.title, "Half-Life 2");
    assert!(meta.art_urls.is_empty());
}

#[test]
fn an_unknown_store_has_no_metadata_source() {
    let fake = Fake { text: HashMap::new(), bytes: HashMap::new() };
    let id = Identity { store: "itch".into(), store_id: "1".into(), title: "x".into() };
    let e = lookup(&fake, &id).unwrap_err();
    assert_eq!(e.0, 500);
    assert_eq!(e.1, "no metadata source for itch");
}

#[test]
fn falls_back_when_the_best_art_is_missing() {
    let meta = Metadata {
        art_urls: vec!["https://x/missing.jpg".into(), "https://x/works.jpg".into()],
        ..Default::default()
    };
    let fake = Fake {
        text: HashMap::new(),
        bytes: HashMap::from([(
            "https://x/works.jpg".to_string(),
            (b"JPEGDATA".to_vec(), "image/jpeg".to_string()),
        )]),
    };
    let urls = art_urls_for(&gog_identity(), &meta);
    let art = fetch_art(&fake, "/tmp/altc-art", "42", &urls).unwrap();
    assert_eq!(art.bytes, b"JPEGDATA");
    assert!(art.path.ends_with("42.jpg"));
}

#[test]
fn the_extension_follows_what_was_served_not_the_url() {
    let meta = Metadata {
        // URL says .jpg, server says png: the file must be named png.
        art_urls: vec!["https://x/lying.jpg".into()],
        ..Default::default()
    };
    let fake = Fake {
        text: HashMap::new(),
        bytes: HashMap::from([(
            "https://x/lying.jpg".to_string(),
            (b"PNGDATA".to_vec(), "image/png".to_string()),
        )]),
    };
    let urls = art_urls_for(&gog_identity(), &meta);
    let art = fetch_art(&fake, "/tmp/altc-art2", "42", &urls).unwrap();
    assert!(art.path.ends_with("42.png"), "got {:?}", art.path);
}

#[test]
fn no_working_art_is_an_error_not_an_empty_file() {
    let meta = Metadata {
        art_urls: vec!["https://x/gone.jpg".into()],
        ..Default::default()
    };
    let fake = Fake { text: HashMap::new(), bytes: HashMap::new() };
    let urls = art_urls_for(&gog_identity(), &meta);
    let e = fetch_art(&fake, "/tmp/altc-art3", "42", &urls).unwrap_err();
    assert_eq!(e.0, 404);
}

fn stored_game() -> altc::library::Game {
    altc::library::Game {
        id: "42".into(),
        title: "wolfenstein tno".into(),
        support_hdr: false,
        icon_png_path: "/var/lib/altc/art/old.png".into(),
        render_node: "/dev/dri/renderD128".into(),
        runner_json: r#"{"type":"docker"}"#.into(),
        video_producer_buffer_caps: "video/x-raw".into(),
        h264_gst_pipeline: "h264".into(),
        hevc_gst_pipeline: "hevc".into(),
        av1_gst_pipeline: "av1".into(),
        opus_gst_pipeline: "opus".into(),
        start_audio_server: true,
        start_virtual_compositor: true,
        store: String::new(),
        store_id: String::new(),
        slug: String::new(),
        release_date: String::new(),
        description: String::new(),
        protondb_tier: String::new(),
        steam_appid: String::new(),
        appid_source: String::new(),
        tagline: String::new(),
        developer: String::new(),
        genres: String::new(),
        controller_override: String::new(),
    }
}

fn gog_fake(bytes: HashMap<String, (Vec<u8>, String)>) -> Fake {
    Fake {
        text: HashMap::from([(
            gog_product_url("1943729964"),
            r#"{"title":"W","slug":"wolfenstein","images":{"logo2x":"//x/logo_2x.jpg"}}"#.to_string(),
        )]),
        bytes,
    }
}

#[test]
fn failed_art_does_not_lose_the_metadata() {
    let (g, art) = altc::games::refresh(&gog_fake(HashMap::new()), stored_game(), &gog_identity(), "/tmp/altc-art4")
        .unwrap();
    assert!(art.is_none());
    assert_eq!((g.store.as_str(), g.store_id.as_str()), ("gog", "1943729964"));
    assert_eq!((g.title.as_str(), g.slug.as_str()), ("W", "wolfenstein"));
    assert_eq!(g.icon_png_path, "/var/lib/altc/art/old.png");
    assert_eq!(g.id, "42");
}

#[test]
fn a_refresh_brings_the_art_the_store_served() {
    let fake = gog_fake(HashMap::from([(
        "https://x/logo_2x.jpg".to_string(),
        (b"PNGDATA".to_vec(), "image/png".to_string()),
    )]));
    let (g, art) = altc::games::refresh(&fake, stored_game(), &gog_identity(), "/tmp/altc-art5").unwrap();
    let art = art.unwrap();
    assert_eq!(art.path, "/tmp/altc-art5/42.png");
    assert_eq!(art.bytes, b"PNGDATA".to_vec());
    // The icon is pointed at the art only once the caller has written it.
    assert_eq!(g.icon_png_path, "/var/lib/altc/art/old.png");
}

#[test]
fn a_store_without_a_source_fails_the_refresh() {
    let mut id = gog_identity();
    id.store = "epic".into();
    let e = altc::games::refresh(&gog_fake(HashMap::new()), stored_game(), &id, "/tmp/altc-art6").unwrap_err();
    assert_eq!((e.0, e.1.as_str()), (500, "no metadata source for epic"));
}
