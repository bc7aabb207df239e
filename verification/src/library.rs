//! The game library: what the agent stores about each app, and how an app
//! travels between Wolf's shape and ours. Every app carries its own engine
//! configuration; the stored defaults are only a template for games the
//! agent creates itself.
use vstd::prelude::*;
use crate::json::{self, Json, JsonV, at, lookup, bool_at, str_at, field, json_canonical, json_parse, json_quote, str_or_empty};
use crate::error::{ApiError, INTERNAL_SERVER_ERROR, BAD_REQUEST, CONFLICT};
use crate::storage::{Library, host_path_for, spec_host_path_for};
use crate::text::{
    cat, chars_of, has_prefix, slice, lemma_split_char_nonempty, own, spec_strip_prefix, spec_trim, split, split_char, starts_with,
    strip_prefix, trim, views,
};
use vstd::string::*;

verus! {

/// One app, as stored.
#[derive(Clone, Debug)]
pub struct Game {
    pub id: String,
    pub title: String,
    pub support_hdr: bool,
    pub icon_png_path: String,
    pub render_node: String,
    /// The runner object, as JSON text.
    pub runner_json: String,
    pub video_producer_buffer_caps: String,
    pub h264_gst_pipeline: String,
    pub hevc_gst_pipeline: String,
    pub av1_gst_pipeline: String,
    pub opus_gst_pipeline: String,
    pub start_audio_server: bool,
    pub start_virtual_compositor: bool,
    pub store: String,
    pub store_id: String,
    pub slug: String,
    pub release_date: String,
    pub description: String,
    pub protondb_tier: String,
    pub steam_appid: String,
    pub appid_source: String,
    pub tagline: String,
    pub developer: String,
    pub genres: String,
    pub controller_override: String,
}

/// The template a game created by the agent inherits.
#[derive(Clone, Debug)]
pub struct EngineDefaults {
    pub h264_gst_pipeline: String,
    pub hevc_gst_pipeline: String,
    pub av1_gst_pipeline: String,
    pub opus_gst_pipeline: String,
    pub start_audio_server: bool,
    pub start_virtual_compositor: bool,
    pub video_producer_buffer_caps: String,
    pub render_node: String,
    /// The HostConfig blob every docker runner needs.
    pub runner_base_create_json: String,
}

/// `v[key].as_bool().unwrap_or(default)`.
pub open spec fn bool_or(j: JsonV, key: Seq<char>, default: bool) -> bool {
    match bool_at(j, key) {
        Some(b) => b,
        None => default,
    }
}

/// The text of member `key`, or `null` when there is none: what printing
/// `v[key]` gives.
pub open spec fn member_text(j: JsonV, key: Seq<char>) -> Seq<char> {
    match field(j, key) {
        Some(t) => t,
        None => "null"@,
    }
}

/// `g` is the game read from Wolf's app object `app`: every field Wolf
/// holds is copied, a missing or mistyped string is empty, the two server
/// switches default to on, and nothing about store identity is guessed.
pub open spec fn game_from_app(app: JsonV, g: Game) -> bool {
    &&& g.id@ == str_or_empty(app, "id"@)
    &&& g.title@ == str_or_empty(app, "title"@)
    &&& g.support_hdr == bool_or(app, "support_hdr"@, false)
    &&& g.icon_png_path@ == str_or_empty(app, "icon_png_path"@)
    &&& g.render_node@ == str_or_empty(app, "render_node"@)
    &&& g.runner_json@ == member_text(app, "runner"@)
    &&& g.video_producer_buffer_caps@ == str_or_empty(app, "video_producer_buffer_caps"@)
    &&& g.h264_gst_pipeline@ == str_or_empty(app, "h264_gst_pipeline"@)
    &&& g.hevc_gst_pipeline@ == str_or_empty(app, "hevc_gst_pipeline"@)
    &&& g.av1_gst_pipeline@ == str_or_empty(app, "av1_gst_pipeline"@)
    &&& g.opus_gst_pipeline@ == str_or_empty(app, "opus_gst_pipeline"@)
    &&& g.start_audio_server == bool_or(app, "start_audio_server"@, true)
    &&& g.start_virtual_compositor == bool_or(app, "start_virtual_compositor"@, true)
    &&& g.store@.len() == 0
    &&& g.store_id@.len() == 0
    &&& g.slug@.len() == 0
    &&& g.release_date@.len() == 0
    &&& g.description@.len() == 0
    &&& g.protondb_tier@.len() == 0
    &&& g.steam_appid@.len() == 0
    &&& g.appid_source@.len() == 0
    &&& g.tagline@.len() == 0
    &&& g.developer@.len() == 0
    &&& g.genres@.len() == 0
    &&& g.controller_override@.len() == 0
}

fn empty() -> (r: String)
    ensures
        r@.len() == 0,
{
    String::new()
}

fn bool_member(app: &Json, key: &str, default: bool) -> (r: bool)
    ensures
        r == bool_or(app@, key@, default),
{
    match app.bool_at(key) {
        Some(b) => b,
        None => default,
    }
}

/// Wolf's app object as a game of ours.
pub fn game_from(app: &Json) -> (g: Game)
    ensures
        game_from_app(app@, g),
{
    let runner_json = match app.get("runner") {
        Some(t) => t,
        None => {
            proof { reveal_strlit("null"); }
            own("null")
        },
    };
    Game {
        id: app.str_or_empty("id"),
        title: app.str_or_empty("title"),
        support_hdr: bool_member(app, "support_hdr", false),
        icon_png_path: app.str_or_empty("icon_png_path"),
        render_node: app.str_or_empty("render_node"),
        runner_json,
        video_producer_buffer_caps: app.str_or_empty("video_producer_buffer_caps"),
        h264_gst_pipeline: app.str_or_empty("h264_gst_pipeline"),
        hevc_gst_pipeline: app.str_or_empty("hevc_gst_pipeline"),
        av1_gst_pipeline: app.str_or_empty("av1_gst_pipeline"),
        opus_gst_pipeline: app.str_or_empty("opus_gst_pipeline"),
        start_audio_server: bool_member(app, "start_audio_server", true),
        start_virtual_compositor: bool_member(app, "start_virtual_compositor", true),
        store: empty(),
        store_id: empty(),
        slug: empty(),
        release_date: empty(),
        description: empty(),
        protondb_tier: empty(),
        steam_appid: empty(),
        appid_source: empty(),
        tagline: empty(),
        developer: empty(),
        genres: empty(),
        controller_override: empty(),
    }
}

/// `d` is the template read from Wolf's app object `app`.
pub open spec fn defaults_from_app(app: JsonV, d: EngineDefaults) -> bool {
    &&& d.h264_gst_pipeline@ == str_or_empty(app, "h264_gst_pipeline"@)
    &&& d.hevc_gst_pipeline@ == str_or_empty(app, "hevc_gst_pipeline"@)
    &&& d.av1_gst_pipeline@ == str_or_empty(app, "av1_gst_pipeline"@)
    &&& d.opus_gst_pipeline@ == str_or_empty(app, "opus_gst_pipeline"@)
    &&& d.start_audio_server == bool_or(app, "start_audio_server"@, true)
    &&& d.start_virtual_compositor == bool_or(app, "start_virtual_compositor"@, true)
    &&& d.video_producer_buffer_caps@ == str_or_empty(app, "video_producer_buffer_caps"@)
    &&& d.render_node@ == str_or_empty(app, "render_node"@)
    &&& d.runner_base_create_json@ == str_or_empty(at(app, "runner"@), "base_create_json"@)
}

/// The new-game template taken from one of Wolf's app objects.
pub fn defaults_from(app: &Json) -> (d: EngineDefaults)
    ensures
        defaults_from_app(app@, d),
{
    EngineDefaults {
        h264_gst_pipeline: app.str_or_empty("h264_gst_pipeline"),
        hevc_gst_pipeline: app.str_or_empty("hevc_gst_pipeline"),
        av1_gst_pipeline: app.str_or_empty("av1_gst_pipeline"),
        opus_gst_pipeline: app.str_or_empty("opus_gst_pipeline"),
        start_audio_server: bool_member(app, "start_audio_server", true),
        start_virtual_compositor: bool_member(app, "start_virtual_compositor", true),
        video_producer_buffer_caps: app.str_or_empty("video_producer_buffer_caps"),
        render_node: app.str_or_empty("render_node"),
        runner_base_create_json: app.at("runner").str_or_empty("base_create_json"),
    }
}

pub open spec fn bool_json(b: bool) -> Seq<char> {
    if b { "true"@ } else { "false"@ }
}

/// The runner as sent: the stored text printed back by `serde_json`, or an
/// empty object when the stored text is not JSON.
pub open spec fn runner_text(g: Game) -> Seq<char> {
    match json_canonical(g.runner_json@) {
        Some(t) => t,
        None => "{}"@,
    }
}

/// The controller layout as sent: `AUTO` when the game states none.
pub open spec fn controller_text(g: Game) -> Seq<char> {
    if g.controller_override@.len() == 0 {
        json_quote("AUTO"@)
    } else {
        json_quote(g.controller_override@)
    }
}

/// The members of an `apps/add` payload for `g`, in the order sent.
pub open spec fn wolf_app_members(g: Game) -> Seq<(Seq<char>, Seq<char>)> {
    seq![
        ("id"@, json_quote(g.id@)),
        ("title"@, json_quote(g.title@)),
        ("support_hdr"@, bool_json(g.support_hdr)),
        ("icon_png_path"@, json_quote(g.icon_png_path@)),
        ("render_node"@, json_quote(g.render_node@)),
        ("video_producer_buffer_caps"@, json_quote(g.video_producer_buffer_caps@)),
        ("h264_gst_pipeline"@, json_quote(g.h264_gst_pipeline@)),
        ("hevc_gst_pipeline"@, json_quote(g.hevc_gst_pipeline@)),
        ("av1_gst_pipeline"@, json_quote(g.av1_gst_pipeline@)),
        ("opus_gst_pipeline"@, json_quote(g.opus_gst_pipeline@)),
        ("start_audio_server"@, bool_json(g.start_audio_server)),
        ("start_virtual_compositor"@, bool_json(g.start_virtual_compositor)),
        ("controller_override"@, controller_text(g)),
        ("runner"@, runner_text(g)),
    ]
}

/// `out` is the `apps/add` payload for `g`, and each of its members reads
/// back as the value it was made from.
pub open spec fn wolf_app_of(out: JsonV, g: Game) -> bool {
    &&& out == JsonV::Object(wolf_app_members(g))
    &&& at(out, "id"@) == JsonV::Str(g.id@)
    &&& at(out, "title"@) == JsonV::Str(g.title@)
    &&& at(out, "support_hdr"@) == JsonV::Bool(g.support_hdr)
    &&& at(out, "icon_png_path"@) == JsonV::Str(g.icon_png_path@)
    &&& at(out, "render_node"@) == JsonV::Str(g.render_node@)
    &&& at(out, "video_producer_buffer_caps"@) == JsonV::Str(g.video_producer_buffer_caps@)
    &&& at(out, "h264_gst_pipeline"@) == JsonV::Str(g.h264_gst_pipeline@)
    &&& at(out, "hevc_gst_pipeline"@) == JsonV::Str(g.hevc_gst_pipeline@)
    &&& at(out, "av1_gst_pipeline"@) == JsonV::Str(g.av1_gst_pipeline@)
    &&& at(out, "opus_gst_pipeline"@) == JsonV::Str(g.opus_gst_pipeline@)
    &&& at(out, "start_audio_server"@) == JsonV::Bool(g.start_audio_server)
    &&& at(out, "start_virtual_compositor"@) == JsonV::Bool(g.start_virtual_compositor)
    &&& field(out, "runner"@) == Some(runner_text(g))
}

fn member(key: &str, text: String) -> (r: (String, String))
    ensures
        r.0@ == key@,
        r.1@ == text@,
{
    (own(key), text)
}

/// A game as an `apps/add` payload. Engine configuration comes from the game
/// itself, so an app that overrides a pipeline keeps its override.
pub fn to_wolf_app(g: &Game) -> (r: Json)
    ensures
        wolf_app_of(r@, *g),
        g.controller_override@.len() > 0 ==> field(r@, "controller_override"@) == Some(json_quote(g.controller_override@)),
        g.controller_override@.len() == 0 ==> field(r@, "controller_override"@) == Some(json_quote("AUTO"@)),
{
    let runner = match json::canonical(g.runner_json.as_str()) {
        Some(t) => t,
        None => {
            proof { reveal_strlit("{}"); }
            own("{}")
        },
    };
    let controller = if g.controller_override.unicode_len() == 0 {
        json::quote("AUTO")
    } else {
        json::quote(g.controller_override.as_str())
    };
    let mut ms: Vec<(String, String)> = Vec::new();
    ms.push(member("id", json::quote(g.id.as_str())));
    ms.push(member("title", json::quote(g.title.as_str())));
    ms.push(member("support_hdr", json::bool_text(g.support_hdr)));
    ms.push(member("icon_png_path", json::quote(g.icon_png_path.as_str())));
    ms.push(member("render_node", json::quote(g.render_node.as_str())));
    ms.push(member("video_producer_buffer_caps", json::quote(g.video_producer_buffer_caps.as_str())));
    ms.push(member("h264_gst_pipeline", json::quote(g.h264_gst_pipeline.as_str())));
    ms.push(member("hevc_gst_pipeline", json::quote(g.hevc_gst_pipeline.as_str())));
    ms.push(member("av1_gst_pipeline", json::quote(g.av1_gst_pipeline.as_str())));
    ms.push(member("opus_gst_pipeline", json::quote(g.opus_gst_pipeline.as_str())));
    ms.push(member("start_audio_server", json::bool_text(g.start_audio_server)));
    ms.push(member("start_virtual_compositor", json::bool_text(g.start_virtual_compositor)));
    ms.push(member("controller_override", controller));
    ms.push(member("runner", runner));
    let r = Json::Object(ms);
    proof {
        assert(json::pair_views(ms@) =~= wolf_app_members(*g));
        lemma_wolf_app_members_read_back(*g);
        law_controller_member_is_the_games_own(*g, r@);
    }
    r
}

/// The payload carries the game's own controller layout: a game that states
/// one is sent exactly that, and only a game that states none is sent `AUTO`.
pub proof fn law_controller_member_is_the_games_own(g: Game, out: JsonV)
    requires
        wolf_app_of(out, g),
    ensures
        g.controller_override@.len() > 0 ==> field(out, "controller_override"@) == Some(json_quote(g.controller_override@)),
        g.controller_override@.len() == 0 ==> field(out, "controller_override"@) == Some(json_quote("AUTO"@)),
{
    lemma_wolf_app_members_read_back(g);
}

proof fn lemma_wolf_app_members_read_back(g: Game)
    ensures
        field(JsonV::Object(wolf_app_members(g)), "id"@) == Some(wolf_app_members(g)[0].1),
        field(JsonV::Object(wolf_app_members(g)), "title"@) == Some(wolf_app_members(g)[1].1),
        field(JsonV::Object(wolf_app_members(g)), "support_hdr"@) == Some(wolf_app_members(g)[2].1),
        field(JsonV::Object(wolf_app_members(g)), "icon_png_path"@) == Some(wolf_app_members(g)[3].1),
        field(JsonV::Object(wolf_app_members(g)), "render_node"@) == Some(wolf_app_members(g)[4].1),
        field(JsonV::Object(wolf_app_members(g)), "video_producer_buffer_caps"@) == Some(wolf_app_members(g)[5].1),
        field(JsonV::Object(wolf_app_members(g)), "h264_gst_pipeline"@) == Some(wolf_app_members(g)[6].1),
        field(JsonV::Object(wolf_app_members(g)), "hevc_gst_pipeline"@) == Some(wolf_app_members(g)[7].1),
        field(JsonV::Object(wolf_app_members(g)), "av1_gst_pipeline"@) == Some(wolf_app_members(g)[8].1),
        field(JsonV::Object(wolf_app_members(g)), "opus_gst_pipeline"@) == Some(wolf_app_members(g)[9].1),
        field(JsonV::Object(wolf_app_members(g)), "start_audio_server"@) == Some(wolf_app_members(g)[10].1),
        field(JsonV::Object(wolf_app_members(g)), "start_virtual_compositor"@) == Some(wolf_app_members(g)[11].1),
        field(JsonV::Object(wolf_app_members(g)), "controller_override"@) == Some(wolf_app_members(g)[12].1),
        field(JsonV::Object(wolf_app_members(g)), "runner"@) == Some(wolf_app_members(g)[13].1),
{
    reveal_strlit("id");
    reveal_strlit("title");
    reveal_strlit("support_hdr");
    reveal_strlit("icon_png_path");
    reveal_strlit("render_node");
    reveal_strlit("video_producer_buffer_caps");
    reveal_strlit("h264_gst_pipeline");
    reveal_strlit("hevc_gst_pipeline");
    reveal_strlit("av1_gst_pipeline");
    reveal_strlit("opus_gst_pipeline");
    reveal_strlit("start_audio_server");
    reveal_strlit("start_virtual_compositor");
    reveal_strlit("controller_override");
    reveal_strlit("runner");
    let ms = wolf_app_members(g);
    assert(ms[0].0.len() != ms[1].0.len());
    assert(ms[0].0.len() != ms[2].0.len());
    assert(ms[1].0.len() != ms[2].0.len());
    assert(ms[0].0.len() != ms[3].0.len());
    assert(ms[1].0.len() != ms[3].0.len());
    assert(ms[2].0.len() != ms[3].0.len());
    assert(ms[0].0.len() != ms[4].0.len());
    assert(ms[1].0.len() != ms[4].0.len());
    assert(ms[2].0[0] != ms[4].0[0]);
    assert(ms[3].0.len() != ms[4].0.len());
    assert(ms[0].0.len() != ms[5].0.len());
    assert(ms[1].0.len() != ms[5].0.len());
    assert(ms[2].0.len() != ms[5].0.len());
    assert(ms[3].0.len() != ms[5].0.len());
    assert(ms[4].0.len() != ms[5].0.len());
    assert(ms[0].0.len() != ms[6].0.len());
    assert(ms[1].0.len() != ms[6].0.len());
    assert(ms[2].0.len() != ms[6].0.len());
    assert(ms[3].0.len() != ms[6].0.len());
    assert(ms[4].0.len() != ms[6].0.len());
    assert(ms[5].0.len() != ms[6].0.len());
    assert(ms[0].0.len() != ms[7].0.len());
    assert(ms[1].0.len() != ms[7].0.len());
    assert(ms[2].0.len() != ms[7].0.len());
    assert(ms[3].0.len() != ms[7].0.len());
    assert(ms[4].0.len() != ms[7].0.len());
    assert(ms[5].0.len() != ms[7].0.len());
    assert(ms[6].0[1] != ms[7].0[1]);
    assert(ms[0].0.len() != ms[8].0.len());
    assert(ms[1].0.len() != ms[8].0.len());
    assert(ms[2].0.len() != ms[8].0.len());
    assert(ms[3].0.len() != ms[8].0.len());
    assert(ms[4].0.len() != ms[8].0.len());
    assert(ms[5].0.len() != ms[8].0.len());
    assert(ms[6].0.len() != ms[8].0.len());
    assert(ms[7].0.len() != ms[8].0.len());
    assert(ms[0].0.len() != ms[9].0.len());
    assert(ms[1].0.len() != ms[9].0.len());
    assert(ms[2].0.len() != ms[9].0.len());
    assert(ms[3].0.len() != ms[9].0.len());
    assert(ms[4].0.len() != ms[9].0.len());
    assert(ms[5].0.len() != ms[9].0.len());
    assert(ms[6].0[0] != ms[9].0[0]);
    assert(ms[7].0[0] != ms[9].0[0]);
    assert(ms[8].0.len() != ms[9].0.len());
    assert(ms[0].0.len() != ms[10].0.len());
    assert(ms[1].0.len() != ms[10].0.len());
    assert(ms[2].0.len() != ms[10].0.len());
    assert(ms[3].0.len() != ms[10].0.len());
    assert(ms[4].0.len() != ms[10].0.len());
    assert(ms[5].0.len() != ms[10].0.len());
    assert(ms[6].0.len() != ms[10].0.len());
    assert(ms[7].0.len() != ms[10].0.len());
    assert(ms[8].0.len() != ms[10].0.len());
    assert(ms[9].0.len() != ms[10].0.len());
    assert(ms[0].0.len() != ms[11].0.len());
    assert(ms[1].0.len() != ms[11].0.len());
    assert(ms[2].0.len() != ms[11].0.len());
    assert(ms[3].0.len() != ms[11].0.len());
    assert(ms[4].0.len() != ms[11].0.len());
    assert(ms[5].0.len() != ms[11].0.len());
    assert(ms[6].0.len() != ms[11].0.len());
    assert(ms[7].0.len() != ms[11].0.len());
    assert(ms[8].0.len() != ms[11].0.len());
    assert(ms[9].0.len() != ms[11].0.len());
    assert(ms[10].0.len() != ms[11].0.len());
    assert(ms[0].0.len() != ms[12].0.len());
    assert(ms[1].0.len() != ms[12].0.len());
    assert(ms[2].0.len() != ms[12].0.len());
    assert(ms[3].0.len() != ms[12].0.len());
    assert(ms[4].0.len() != ms[12].0.len());
    assert(ms[5].0.len() != ms[12].0.len());
    assert(ms[6].0.len() != ms[12].0.len());
    assert(ms[7].0.len() != ms[12].0.len());
    assert(ms[8].0.len() != ms[12].0.len());
    assert(ms[9].0.len() != ms[12].0.len());
    assert(ms[10].0.len() != ms[12].0.len());
    assert(ms[11].0.len() != ms[12].0.len());
    assert(ms[0].0.len() != ms[13].0.len());
    assert(ms[1].0.len() != ms[13].0.len());
    assert(ms[2].0.len() != ms[13].0.len());
    assert(ms[3].0.len() != ms[13].0.len());
    assert(ms[4].0.len() != ms[13].0.len());
    assert(ms[5].0.len() != ms[13].0.len());
    assert(ms[6].0.len() != ms[13].0.len());
    assert(ms[7].0.len() != ms[13].0.len());
    assert(ms[8].0.len() != ms[13].0.len());
    assert(ms[9].0.len() != ms[13].0.len());
    assert(ms[10].0.len() != ms[13].0.len());
    assert(ms[11].0.len() != ms[13].0.len());
    assert(ms[12].0.len() != ms[13].0.len());
    json::lemma_lookup_at(ms, "id"@, 0);
    json::lemma_lookup_at(ms, "title"@, 1);
    json::lemma_lookup_at(ms, "support_hdr"@, 2);
    json::lemma_lookup_at(ms, "icon_png_path"@, 3);
    json::lemma_lookup_at(ms, "render_node"@, 4);
    json::lemma_lookup_at(ms, "video_producer_buffer_caps"@, 5);
    json::lemma_lookup_at(ms, "h264_gst_pipeline"@, 6);
    json::lemma_lookup_at(ms, "hevc_gst_pipeline"@, 7);
    json::lemma_lookup_at(ms, "av1_gst_pipeline"@, 8);
    json::lemma_lookup_at(ms, "opus_gst_pipeline"@, 9);
    json::lemma_lookup_at(ms, "start_audio_server"@, 10);
    json::lemma_lookup_at(ms, "start_virtual_compositor"@, 11);
    json::lemma_lookup_at(ms, "controller_override"@, 12);
    json::lemma_lookup_at(ms, "runner"@, 13);
}

/// Wolf's app object carries every field Wolf demands, each of the kind it
/// demands.
pub open spec fn has_wolf_app_shape(app: JsonV) -> bool {
    &&& at(app, "id"@) is Str
    &&& at(app, "title"@) is Str
    &&& at(app, "support_hdr"@) is Bool
    &&& at(app, "icon_png_path"@) is Str
    &&& at(app, "render_node"@) is Str
    &&& at(app, "video_producer_buffer_caps"@) is Str
    &&& at(app, "h264_gst_pipeline"@) is Str
    &&& at(app, "hevc_gst_pipeline"@) is Str
    &&& at(app, "av1_gst_pipeline"@) is Str
    &&& at(app, "opus_gst_pipeline"@) is Str
    &&& at(app, "start_audio_server"@) is Bool
    &&& at(app, "start_virtual_compositor"@) is Bool
    &&& field(app, "runner"@) matches Some(t) && json_parse(t) is Some
}

/// An app adopted from Wolf and pushed back comes back identical in every
/// field Wolf demands: the library shape loses nothing on the round trip.
/// The runner goes back as `serde_json` prints the value it read.
pub proof fn law_app_round_trips(app: JsonV, g: Game, out: JsonV)
    requires
        has_wolf_app_shape(app),
        game_from_app(app, g),
        wolf_app_of(out, g),
    ensures
        at(out, "id"@) == at(app, "id"@),
        at(out, "title"@) == at(app, "title"@),
        at(out, "support_hdr"@) == at(app, "support_hdr"@),
        at(out, "icon_png_path"@) == at(app, "icon_png_path"@),
        at(out, "render_node"@) == at(app, "render_node"@),
        at(out, "video_producer_buffer_caps"@) == at(app, "video_producer_buffer_caps"@),
        at(out, "h264_gst_pipeline"@) == at(app, "h264_gst_pipeline"@),
        at(out, "hevc_gst_pipeline"@) == at(app, "hevc_gst_pipeline"@),
        at(out, "av1_gst_pipeline"@) == at(app, "av1_gst_pipeline"@),
        at(out, "opus_gst_pipeline"@) == at(app, "opus_gst_pipeline"@),
        at(out, "start_audio_server"@) == at(app, "start_audio_server"@),
        at(out, "start_virtual_compositor"@) == at(app, "start_virtual_compositor"@),
        field(out, "runner"@) == match json_canonical(field(app, "runner"@)->Some_0) {
            Some(c) => Some(c),
            None => Some("{}"@),
        },
{
}

/// The first game without engine configuration (no HEVC pipeline), if any.
pub open spec fn first_unconfigured(games: Seq<Game>) -> Option<int> {
    if exists|i: int| 0 <= i < games.len() && (#[trigger] games[i]).hevc_gst_pipeline@.len() == 0 {
        Some(choose|i: int| 0 <= i < games.len() && (#[trigger] games[i]).hevc_gst_pipeline@.len() == 0
            && forall|j: int| 0 <= j < i ==> games[j].hevc_gst_pipeline@.len() != 0)
    } else {
        None
    }
}

proof fn lemma_first_unconfigured(games: Seq<Game>, i: int)
    requires
        0 <= i < games.len(),
        games[i].hevc_gst_pipeline@.len() == 0,
        forall|j: int| 0 <= j < i ==> games[j].hevc_gst_pipeline@.len() != 0,
    ensures
        first_unconfigured(games) == Some(i),
{
    let w = choose|w: int| 0 <= w < games.len() && (#[trigger] games[w]).hevc_gst_pipeline@.len() == 0
        && forall|j: int| 0 <= j < w ==> games[j].hevc_gst_pipeline@.len() != 0;
    if w < i {
    } else if w > i {
    }
}

/// The payloads that make Wolf's list match `ours`, one per game in order;
/// nothing at all for an empty library, which leaves Wolf's list as it is;
/// or, when any game has no engine configuration, an error naming the first
/// such game, so that nothing is sent at all: a half-pushed library looks to
/// a client exactly like one that has lost games.
pub fn push_payloads(ours: &Vec<Game>) -> (r: Result<Option<Vec<Json>>, ApiError>)
    ensures
        match r {
            Ok(None) => ours@.len() == 0,
            Ok(Some(ps)) => ours@.len() > 0 && first_unconfigured(ours@) is None && ps@.len() == ours@.len()
                && forall|i: int| 0 <= i < ours@.len() ==> wolf_app_of(#[trigger] ps@[i]@, ours@[i]),
            Err(e) => first_unconfigured(ours@) matches Some(i) && e.0 == INTERNAL_SERVER_ERROR
                && e.1@ == "game '"@ + ours@[i].title@ + "' has no engine config; refusing to push a partial library"@,
        },
{
    if ours.len() == 0 {
        return Ok(None);
    }
    let mut i: usize = 0;
    while i < ours.len()
        invariant
            i <= ours@.len(),
            forall|j: int| 0 <= j < i ==> ours@[j].hevc_gst_pipeline@.len() != 0,
        decreases ours.len() - i,
    {
        if ours[i].hevc_gst_pipeline.unicode_len() == 0 {
            proof { lemma_first_unconfigured(ours@, i as int); }
            let m1 = cat("game '", ours[i].title.as_str());
            let msg = cat(m1.as_str(), "' has no engine config; refusing to push a partial library");
            return Err(ApiError::internal(msg.as_str()));
        }
        i += 1;
    }
    let mut ps: Vec<Json> = Vec::new();
    let mut k: usize = 0;
    while k < ours.len()
        invariant
            k <= ours@.len(),
            ps@.len() == k,
            forall|j: int| 0 <= j < k ==> wolf_app_of(#[trigger] ps@[j]@, ours@[j]),
        decreases ours.len() - k,
    {
        ps.push(to_wolf_app(&ours[k]));
        k += 1;
    }
    Ok(Some(ps))
}

/// Wolf's list after a push over `list`: a push deletes every app with a
/// string id (those `wolf_app_ids` names; Wolf deletes by id), so the apps
/// without one stay, and then adds the payloads in order.
pub open spec fn after_push(list: Seq<JsonV>, payloads: Seq<JsonV>) -> Seq<JsonV> {
    list.filter(|a: JsonV| str_at(a, "id"@) is None) + payloads
}

proof fn lemma_filter_none_kept(s: Seq<JsonV>, keep: spec_fn(JsonV) -> bool)
    requires
        forall|i: int| 0 <= i < s.len() ==> !keep(#[trigger] s[i]),
    ensures
        s.filter(keep) == Seq::<JsonV>::empty(),
    decreases s.len(),
{
    reveal_with_fuel(Seq::<JsonV>::filter, 1);
    if s.len() > 0 {
        assert(!keep(s[s.len() - 1]));
        lemma_filter_none_kept(s.drop_last(), keep);
    }
}

proof fn lemma_filter_all_kept(s: Seq<JsonV>, keep: spec_fn(JsonV) -> bool)
    requires
        forall|i: int| 0 <= i < s.len() ==> keep(#[trigger] s[i]),
    ensures
        s.filter(keep) == s,
    decreases s.len(),
{
    reveal_with_fuel(Seq::<JsonV>::filter, 1);
    if s.len() > 0 {
        assert(keep(s[s.len() - 1]));
        lemma_filter_all_kept(s.drop_last(), keep);
        assert(s.drop_last().push(s.last()) =~= s);
    } else {
        assert(s =~= Seq::<JsonV>::empty());
    }
}

/// Pushing replaces, it does not append: pushing a library's payloads a
/// second time leaves Wolf's list as the first push left it.
pub proof fn law_push_twice_is_push_once(list: Seq<JsonV>, ours: Seq<Game>, payloads: Seq<JsonV>)
    requires
        payloads.len() == ours.len(),
        forall|i: int| 0 <= i < ours.len() ==> wolf_app_of(#[trigger] payloads[i], ours[i]),
    ensures
        after_push(after_push(list, payloads), payloads) == after_push(list, payloads),
{
    let keep = |a: JsonV| str_at(a, "id"@) is None;
    let kept = list.filter(keep);
    assert forall|i: int| 0 <= i < payloads.len() implies !keep(#[trigger] payloads[i]) by {
        assert(wolf_app_of(payloads[i], ours[i]));
    }
    lemma_filter_none_kept(payloads, keep);
    assert forall|i: int| 0 <= i < kept.len() implies keep(#[trigger] kept[i]) by {
        list.lemma_filter_pred(keep, i);
    }
    lemma_filter_all_kept(kept, keep);
    Seq::filter_distributes_over_add(kept, payloads, keep);
    assert(after_push(list, payloads).filter(keep) =~= kept);
}

/// The ids of the apps Wolf holds (those whose id is a string), in order:
/// what is deleted before the library is sent again.
pub fn wolf_app_ids(apps: &Vec<Json>) -> (r: Vec<String>)
    ensures
        views(r@) == apps@.map_values(|a: Json| a@).filter(|a: JsonV| str_at(a, "id"@) is Some).map_values(
            |a: JsonV| str_at(a, "id"@)->Some_0,
        ),
{
    let ghost keep = |a: JsonV| str_at(a, "id"@) is Some;
    let ghost id_of = |a: JsonV| str_at(a, "id"@)->Some_0;
    let ghost vs = apps@.map_values(|a: Json| a@);
    let mut out: Vec<String> = Vec::new();
    let mut i: usize = 0;
    proof {
        reveal_with_fuel(Seq::<JsonV>::filter, 1);
        assert(vs.take(0) =~= Seq::<JsonV>::empty());
        assert(views(out@) =~= vs.take(0).filter(keep).map_values(id_of));
    }
    while i < apps.len()
        invariant
            i <= apps@.len(),
            vs == apps@.map_values(|a: Json| a@),
            keep == (|a: JsonV| str_at(a, "id"@) is Some),
            id_of == (|a: JsonV| str_at(a, "id"@)->Some_0),
            views(out@) == vs.take(i as int).filter(keep).map_values(id_of),
        decreases apps.len() - i,
    {
        proof {
            reveal_with_fuel(Seq::<JsonV>::filter, 1);
            assert(vs.take(i + 1).drop_last() =~= vs.take(i as int));
            assert(vs.take(i + 1).last() == apps@[i as int]@);
        }
        let ghost before = views(out@);
        match apps[i].str_at("id") {
            Some(id) => {
                let ghost idv = id@;
                out.push(id);
                proof {
                    let f = vs.take(i as int).filter(keep);
                    assert(vs.take(i + 1).filter(keep) == f.push(apps@[i as int]@));
                    assert(f.push(apps@[i as int]@).map_values(id_of) =~= f.map_values(id_of).push(id_of(apps@[i as int]@)));
                    assert(views(out@) =~= before.push(idv));
                }
            },
            None => {},
        }
        i += 1;
    }
    assert(vs.take(apps.len() as int) =~= vs);
    out
}

/// An app that Wolf lists with a title; untitled ones are not adopted.
pub open spec fn titled(a: JsonV) -> bool {
    str_or_empty(a, "title"@).len() > 0
}

pub open spec fn json_views(apps: Seq<Json>) -> Seq<JsonV> {
    apps.map_values(|a: Json| a@)
}

/// The apps an import adopts with `existing` games stored: none once there
/// are games, else every titled one in Wolf's order.
pub open spec fn adopted(existing: int, apps: Seq<JsonV>) -> Seq<JsonV> {
    if existing > 0 {
        Seq::empty()
    } else {
        apps.filter(|a: JsonV| titled(a))
    }
}

/// The import runs once: an import that stored games was the first (none
/// were stored before it), and after it a later import, whatever Wolf then
/// lists, adopts nothing.
pub proof fn law_import_runs_once(existing: int, first: Seq<JsonV>, later: Seq<JsonV>)
    requires
        existing >= 0,
        adopted(existing, first).len() > 0,
    ensures
        existing == 0,
        adopted(existing + adopted(existing, first).len(), later).len() == 0,
{
}

/// What a first adoption of Wolf's apps writes.
pub struct ImportPlan {
    /// The new-game template, when there was none yet.
    pub defaults: Option<EngineDefaults>,
    /// The games to store, in Wolf's order.
    pub games: Vec<Game>,
}

/// One-time adoption of whatever Wolf already holds. With games stored
/// (`existing > 0`) it adopts nothing, so a restart never re-imports.
/// Otherwise every titled app becomes a game of its own, and the first one
/// also seeds the template for games created later, unless one exists.
pub fn import_plan(existing: i64, apps: &Vec<Json>, had_defaults: bool) -> (r: ImportPlan)
    ensures
        r.games@.len() == adopted(existing as int, json_views(apps@)).len(),
        existing > 0 ==> r.games@.len() == 0 && r.defaults is None,
        existing <= 0 ==> ({
            let adopted = json_views(apps@).filter(|a: JsonV| titled(a));
            &&& r.games@.len() == adopted.len()
            &&& forall|k: int| 0 <= k < adopted.len() ==> game_from_app(adopted[k], #[trigger] r.games@[k])
            &&& match r.defaults {
                Some(d) => !had_defaults && adopted.len() > 0 && defaults_from_app(adopted[0], d),
                None => had_defaults || adopted.len() == 0,
            }
        }),
{
    let mut games: Vec<Game> = Vec::new();
    let mut defaults: Option<EngineDefaults> = None;
    if existing > 0 {
        return ImportPlan { defaults, games };
    }
    let ghost keep = |a: JsonV| titled(a);
    let ghost vs = json_views(apps@);
    let mut i: usize = 0;
    proof {
        reveal_with_fuel(Seq::<JsonV>::filter, 1);
        assert(vs.take(0) =~= Seq::<JsonV>::empty());
    }
    while i < apps.len()
        invariant
            i <= apps@.len(),
            existing <= 0,
            vs == json_views(apps@),
            keep == (|a: JsonV| titled(a)),
            games@.len() == vs.take(i as int).filter(keep).len(),
            forall|k: int| 0 <= k < games@.len() ==> game_from_app(vs.take(i as int).filter(keep)[k], #[trigger] games@[k]),
            match defaults {
                Some(d) => !had_defaults && games@.len() > 0 && defaults_from_app(vs.take(i as int).filter(keep)[0], d),
                None => had_defaults || games@.len() == 0,
            },
        decreases apps.len() - i,
    {
        let ghost before = vs.take(i as int).filter(keep);
        proof {
            reveal_with_fuel(Seq::<JsonV>::filter, 1);
            assert(vs.take(i + 1).drop_last() =~= vs.take(i as int));
            assert(vs.take(i + 1).last() == apps@[i as int]@);
        }
        let app = &apps[i];
        let title = app.str_or_empty("title");
        if title.unicode_len() > 0 {
            assert(vs.take(i + 1).filter(keep) == before.push(app@));
            if !had_defaults && defaults.is_none() {
                defaults = Some(defaults_from(app));
            }
            games.push(game_from(app));
        } else {
            assert(vs.take(i + 1).filter(keep) == before);
        }
        i += 1;
    }
    assert(vs.take(apps.len() as int) =~= vs);
    ImportPlan { defaults, games }
}

/// A game that predates per-app engine configuration.
pub open spec fn stale(g: Game) -> bool {
    g.hevc_gst_pipeline@.len() == 0 || g.video_producer_buffer_caps@.len() == 0
}

/// The new-game template is missing or lacks what a launch needs.
pub open spec fn template_incomplete(d: Option<EngineDefaults>) -> bool {
    match d {
        None => true,
        Some(d) => d.video_producer_buffer_caps@.len() == 0 || d.runner_base_create_json@.len() == 0,
    }
}

/// Whether anything needs completing from Wolf's copy of the library.
pub fn backfill_needed(games: &Vec<Game>, defaults: &Option<EngineDefaults>) -> (r: bool)
    ensures
        r == ((exists|i: int| 0 <= i < games@.len() && stale(#[trigger] games@[i])) || template_incomplete(*defaults)),
{
    let incomplete = match defaults {
        None => true,
        Some(d) => d.video_producer_buffer_caps.unicode_len() == 0 || d.runner_base_create_json.unicode_len() == 0,
    };
    if incomplete {
        return true;
    }
    let mut i: usize = 0;
    while i < games.len()
        invariant
            i <= games@.len(),
            forall|j: int| 0 <= j < i ==> !stale(#[trigger] games@[j]),
        decreases games.len() - i,
    {
        if games[i].hevc_gst_pipeline.unicode_len() == 0 || games[i].video_producer_buffer_caps.unicode_len() == 0 {
            assert(stale(games@[i as int]));
            return true;
        }
        i += 1;
    }
    false
}

/// Where Wolf's copy of the app with this id sits: the last one listed with
/// it (later entries replace earlier ones, as in a map built from the list).
pub open spec fn wolf_copy_at(apps: Seq<JsonV>, id: Seq<char>) -> Option<int>
    decreases apps.len(),
{
    if apps.len() == 0 {
        None
    } else if str_at(apps.last(), "id"@) == Some(id) {
        Some(apps.len() - 1)
    } else {
        wolf_copy_at(apps.drop_last(), id)
    }
}

pub proof fn lemma_wolf_copy_at_bounds(apps: Seq<JsonV>, id: Seq<char>)
    ensures
        wolf_copy_at(apps, id) matches Some(i) ==> 0 <= i < apps.len() && str_at(apps[i], "id"@) == Some(id),
    decreases apps.len(),
{
    if apps.len() > 0 {
        lemma_wolf_copy_at_bounds(apps.drop_last(), id);
    }
}

/// Wolf's copy of the app with this id.
pub open spec fn wolf_copy(apps: Seq<JsonV>, id: Seq<char>) -> Option<JsonV> {
    match wolf_copy_at(apps, id) {
        Some(i) => Some(apps[i]),
        None => None,
    }
}

/// The app at `i` can complete the template: it is Wolf's copy for its id,
/// runs in docker, and has producer caps.
pub open spec fn template_source(apps: Seq<JsonV>, i: int) -> bool {
    &&& 0 <= i < apps.len()
    &&& str_at(apps[i], "id"@) matches Some(id) && wolf_copy_at(apps, id) == Some(i)
    &&& str_or_empty(apps[i], "video_producer_buffer_caps"@).len() > 0
    &&& at(at(apps[i], "runner"@), "type"@) == JsonV::Str("docker"@)
}

/// `fixed` is `g` with its engine configuration taken from Wolf's `app`:
/// everything is Wolf's except the title, the art and the runner, which are ours.
pub open spec fn healed_from(g: Game, app: JsonV, fixed: Game) -> bool {
    &&& fixed.id@ == str_or_empty(app, "id"@)
    &&& fixed.title@ == g.title@
    &&& fixed.support_hdr == bool_or(app, "support_hdr"@, false)
    &&& fixed.icon_png_path@ == g.icon_png_path@
    &&& fixed.render_node@ == str_or_empty(app, "render_node"@)
    &&& fixed.runner_json@ == g.runner_json@
    &&& fixed.video_producer_buffer_caps@ == str_or_empty(app, "video_producer_buffer_caps"@)
    &&& fixed.h264_gst_pipeline@ == str_or_empty(app, "h264_gst_pipeline"@)
    &&& fixed.hevc_gst_pipeline@ == str_or_empty(app, "hevc_gst_pipeline"@)
    &&& fixed.av1_gst_pipeline@ == str_or_empty(app, "av1_gst_pipeline"@)
    &&& fixed.opus_gst_pipeline@ == str_or_empty(app, "opus_gst_pipeline"@)
    &&& fixed.start_audio_server == bool_or(app, "start_audio_server"@, true)
    &&& fixed.start_virtual_compositor == bool_or(app, "start_virtual_compositor"@, true)
    &&& fixed.store@.len() == 0
    &&& fixed.store_id@.len() == 0
    &&& fixed.slug@.len() == 0
    &&& fixed.release_date@.len() == 0
    &&& fixed.description@.len() == 0
    &&& fixed.protondb_tier@.len() == 0
    &&& fixed.steam_appid@.len() == 0
    &&& fixed.appid_source@.len() == 0
    &&& fixed.tagline@.len() == 0
    &&& fixed.developer@.len() == 0
    &&& fixed.genres@.len() == 0
    &&& fixed.controller_override@.len() == 0
}

/// What completing engine configuration from Wolf writes.
pub struct BackfillPlan {
    /// A completed new-game template, when it needed completing and some
    /// app of Wolf's could supply it.
    pub template: Option<EngineDefaults>,
    /// The stale games Wolf has a copy of, completed, in order.
    pub healed: Vec<Game>,
    /// The titles of stale games Wolf has no copy of: they stay as they are.
    pub orphans: Vec<String>,
}

pub fn wolf_copy_index(apps: &Vec<Json>, id: &str) -> (r: Option<usize>)
    ensures
        match r {
            Some(i) => wolf_copy_at(json_views(apps@), id@) == Some(i as int),
            None => wolf_copy_at(json_views(apps@), id@) is None,
        },
{
    let ghost vs = json_views(apps@);
    let mut i: usize = apps.len();
    assert(vs.take(apps.len() as int) =~= vs);
    while i > 0
        invariant
            i <= apps@.len(),
            vs == json_views(apps@),
            wolf_copy_at(vs, id@) == wolf_copy_at(vs.take(i as int), id@),
        decreases i,
    {
        let ghost t = vs.take(i as int);
        assert(t.drop_last() =~= vs.take(i - 1));
        assert(t.last() == apps@[i - 1]@);
        let hit = match apps[i - 1].str_at("id") {
            Some(x) => x.as_str().to_owned() == id.to_owned(),
            None => false,
        };
        if hit {
            return Some(i - 1);
        }
        i -= 1;
    }
    assert(vs.take(0) =~= Seq::<JsonV>::empty());
    None
}

fn heal(g: &Game, app: &Json) -> (fixed: Game)
    ensures
        healed_from(*g, app@, fixed),
{
    let mut fixed = game_from(app);
    fixed.title = own(g.title.as_str());
    fixed.icon_png_path = own(g.icon_png_path.as_str());
    fixed.runner_json = own(g.runner_json.as_str());
    fixed
}

fn is_template_source(apps: &Vec<Json>, i: usize) -> (r: bool)
    requires
        i < apps@.len(),
    ensures
        r == template_source(json_views(apps@), i as int),
{
    let a = &apps[i];
    assert(json_views(apps@)[i as int] == a@);
    let own_copy = match a.str_at("id") {
        Some(id) => match wolf_copy_index(apps, id.as_str()) {
            Some(w) => w == i,
            None => false,
        },
        None => false,
    };
    proof { reveal_strlit("docker"); }
    let docker = match a.at("runner").at("type").as_str() {
        Some(t) => t.as_str().to_owned() == own("docker"),
        None => false,
    };
    own_copy && docker && a.str_or_empty("video_producer_buffer_caps").unicode_len() > 0
}

/// Completes engine configuration for games that predate it, from Wolf's
/// own copy of the same app, so an app's override is preserved; and, when
/// the new-game template needs completing, takes it from a docker app of
/// Wolf's that has producer caps. A game Wolf has never heard of is left
/// alone and reported.
pub fn backfill_plan(games: &Vec<Game>, defaults: &Option<EngineDefaults>, apps: &Vec<Json>) -> (r: BackfillPlan)
    ensures
        match r.template {
            Some(d) => template_incomplete(*defaults) && exists|i: int| template_source(json_views(apps@), i)
                && defaults_from_app(json_views(apps@)[i], d),
            None => !template_incomplete(*defaults) || forall|i: int| !template_source(json_views(apps@), i),
        },
        ({
            let with_copy = games@.filter(|g: Game| stale(g) && wolf_copy(json_views(apps@), g.id@) is Some);
            &&& r.healed@.len() == with_copy.len()
            &&& forall|k: int| 0 <= k < with_copy.len() ==> healed_from(
                with_copy[k], wolf_copy(json_views(apps@), with_copy[k].id@)->Some_0, #[trigger] r.healed@[k])
        }),
        views(r.orphans@) == games@.filter(|g: Game| stale(g) && wolf_copy(json_views(apps@), g.id@) is None).map_values(
            |g: Game| g.title@,
        ),
{
    let ghost vs = json_views(apps@);
    let incomplete = match defaults {
        None => true,
        Some(d) => d.video_producer_buffer_caps.unicode_len() == 0 || d.runner_base_create_json.unicode_len() == 0,
    };
    let mut template: Option<EngineDefaults> = None;
    if incomplete {
        let mut i: usize = 0;
        while i < apps.len() && template.is_none()
            invariant
                i <= apps@.len(),
                vs == json_views(apps@),
                incomplete == template_incomplete(*defaults),
                match template {
                    Some(d) => exists|j: int| template_source(vs, j) && defaults_from_app(vs[j], d),
                    None => forall|j: int| 0 <= j < i ==> !template_source(vs, j),
                },
            decreases apps.len() - i,
        {
            if is_template_source(apps, i) {
                assert(vs[i as int] == apps@[i as int]@);
                template = Some(defaults_from(&apps[i]));
            }
            i += 1;
        }
        proof {
            if template is None {
                assert forall|j: int| !template_source(vs, j) by {
                    if 0 <= j < i {
                    }
                }
            }
        }
    }
    let ghost heal_me = |g: Game| stale(g) && wolf_copy(vs, g.id@) is Some;
    let ghost orphan = |g: Game| stale(g) && wolf_copy(vs, g.id@) is None;
    let ghost title_of = |g: Game| g.title@;
    let mut healed: Vec<Game> = Vec::new();
    let mut orphans: Vec<String> = Vec::new();
    let mut k: usize = 0;
    proof {
        reveal_with_fuel(Seq::<Game>::filter, 1);
        assert(games@.take(0) =~= Seq::<Game>::empty());
        assert(views(orphans@) =~= games@.take(0).filter(orphan).map_values(title_of));
    }
    while k < games.len()
        invariant
            k <= games@.len(),
            vs == json_views(apps@),
            heal_me == (|g: Game| stale(g) && wolf_copy(vs, g.id@) is Some),
            orphan == (|g: Game| stale(g) && wolf_copy(vs, g.id@) is None),
            title_of == (|g: Game| g.title@),
            healed@.len() == games@.take(k as int).filter(heal_me).len(),
            forall|j: int| 0 <= j < healed@.len() ==> healed_from(
                games@.take(k as int).filter(heal_me)[j],
                wolf_copy(vs, games@.take(k as int).filter(heal_me)[j].id@)->Some_0,
                #[trigger] healed@[j]),
            views(orphans@) == games@.take(k as int).filter(orphan).map_values(title_of),
            match template {
                Some(d) => template_incomplete(*defaults) && exists|j: int| template_source(vs, j) && defaults_from_app(vs[j], d),
                None => !template_incomplete(*defaults) || forall|j: int| !template_source(vs, j),
            },
        decreases games.len() - k,
    {
        let ghost hb = games@.take(k as int).filter(heal_me);
        let ghost ob = games@.take(k as int).filter(orphan);
        proof {
            reveal_with_fuel(Seq::<Game>::filter, 1);
            assert(games@.take(k + 1).drop_last() =~= games@.take(k as int));
            assert(games@.take(k + 1).last() == games@[k as int]);
        }
        let g = &games[k];
        if g.hevc_gst_pipeline.unicode_len() == 0 || g.video_producer_buffer_caps.unicode_len() == 0 {
            proof { lemma_wolf_copy_at_bounds(vs, g.id@); }
            match wolf_copy_index(apps, g.id.as_str()) {
                Some(w) => {
                    assert(vs[w as int] == apps@[w as int]@);
                    healed.push(heal(g, &apps[w]));
                    assert(games@.take(k + 1).filter(heal_me) == hb.push(*g));
                    assert(games@.take(k + 1).filter(orphan) == ob);
                },
                None => {
                    let t = own(g.title.as_str());
                    let ghost before = views(orphans@);
                    orphans.push(t);
                    assert(games@.take(k + 1).filter(heal_me) == hb);
                    assert(games@.take(k + 1).filter(orphan) == ob.push(*g));
                    assert(ob.push(*g).map_values(title_of) =~= ob.map_values(title_of).push(g.title@));
                    assert(views(orphans@) =~= before.push(g.title@));
                },
            }
        } else {
            assert(games@.take(k + 1).filter(heal_me) == hb);
            assert(games@.take(k + 1).filter(orphan) == ob);
        }
        k += 1;
    }
    assert(games@.take(games.len() as int) =~= games@);
    BackfillPlan { template, healed, orphans }
}

/// A game as an admin supplies it. Engine configuration is never accepted
/// here: it is inherited from the template.
#[derive(Debug)]
pub struct NewGame {
    pub title: String,
    pub image: String,
    pub mounts: Vec<String>,
    pub env: Vec<String>,
    pub icon: Option<String>,
    pub render_node: Option<String>,
    pub support_hdr: Option<bool>,
    /// Optional; when given (not blank) it must be the store's numeric id.
    pub steam_appid: Option<String>,
}

/// What the filesystem says about one path, looked up by the caller.
#[derive(Clone, Copy, Debug)]
pub struct PathFacts {
    /// The path falls inside a library root.
    pub within: bool,
    /// The path exists.
    pub exists: bool,
}

pub open spec fn all_ascii_digits(s: Seq<char>) -> bool {
    forall|i: int| 0 <= i < s.len() ==> '0' <= #[trigger] s[i] && s[i] <= '9'
}

/// A supplied Steam appid that is not blank and not all digits.
pub open spec fn bad_appid(a: Option<String>) -> bool {
    match a {
        Some(v) => spec_trim(v@).len() > 0 && !all_ascii_digits(spec_trim(v@)),
        None => false,
    }
}

pub open spec fn slash() -> Seq<char> {
    seq!['/']
}

/// What is wrong with a docker bind spec `source:destination:mode`, if anything.
pub open spec fn mount_problem(m: Seq<char>) -> Option<Seq<char>> {
    let parts = split_char(m, ':');
    if parts.len() != 3 || parts[0].len() == 0 || parts[1].len() == 0 {
        Some("mount '"@ + m + "' must be source:destination:mode with no ':' in either path"@)
    } else if !has_prefix(parts[0], slash()) || !has_prefix(parts[1], slash()) {
        Some("mount '"@ + m + "' needs absolute paths"@)
    } else {
        None
    }
}

/// The first problem among `ms`, in order.
pub open spec fn first_mount_problem(ms: Seq<Seq<char>>) -> Option<Seq<char>>
    decreases ms.len(),
{
    if ms.len() == 0 {
        None
    } else {
        match mount_problem(ms[0]) {
            Some(e) => Some(e),
            None => first_mount_problem(ms.drop_first()),
        }
    }
}

pub open spec fn run_exe_prefix() -> Seq<char> {
    "RUN_EXE="@
}

/// The executable named by the first `RUN_EXE=` entry of `env`.
pub open spec fn spec_run_exe(env: Seq<Seq<char>>) -> Option<Seq<char>>
    decreases env.len(),
{
    if env.len() == 0 {
        None
    } else {
        match spec_strip_prefix(env[0], run_exe_prefix()) {
            Some(x) => Some(x),
            None => spec_run_exe(env.drop_first()),
        }
    }
}

/// The host side of a bind spec: what precedes its first `:`.
pub open spec fn mount_source(m: Seq<char>) -> Seq<char> {
    split_char(m, ':')[0]
}

/// The first mount whose source is inside the library but absent.
pub open spec fn first_missing_source(ms: Seq<Seq<char>>, facts: Seq<PathFacts>) -> Option<Seq<char>>
    decreases ms.len(),
{
    if ms.len() == 0 || facts.len() == 0 {
        None
    } else if facts[0].within && !facts[0].exists {
        Some(mount_source(ms[0]))
    } else {
        first_missing_source(ms.drop_first(), facts.drop_first())
    }
}

/// A mount source is reported missing only when it lies inside the library
/// and does not exist: the one reported is such a mount's source, and when
/// no mount is both, none is reported.
pub proof fn law_only_missing_library_sources_are_reported(ms: Seq<Seq<char>>, facts: Seq<PathFacts>)
    ensures
        first_missing_source(ms, facts) matches Some(src) ==> exists|i: int|
            0 <= i < ms.len() && 0 <= i < facts.len() && #[trigger] facts[i].within && !facts[i].exists
            && src == mount_source(ms[i]),
        (forall|i: int| 0 <= i < ms.len() && 0 <= i < facts.len() ==> !(#[trigger] facts[i].within && !facts[i].exists))
            ==> first_missing_source(ms, facts) is None,
    decreases ms.len(),
{
    if ms.len() > 0 && facts.len() > 0 {
        law_only_missing_library_sources_are_reported(ms.drop_first(), facts.drop_first());
        if !(facts[0].within && !facts[0].exists) {
            if let Some(src) = first_missing_source(ms, facts) {
                let i = choose|i: int|
                    0 <= i < ms.drop_first().len() && 0 <= i < facts.drop_first().len()
                    && #[trigger] facts.drop_first()[i].within && !facts.drop_first()[i].exists
                    && src == mount_source(ms.drop_first()[i]);
                assert(facts[i + 1] == facts.drop_first()[i]);
                assert(ms[i + 1] == ms.drop_first()[i]);
            }
            assert forall|i: int| 0 <= i < ms.drop_first().len() && 0 <= i < facts.drop_first().len()
                && (forall|k: int| 0 <= k < ms.len() && 0 <= k < facts.len() ==> !(#[trigger] facts[k].within && !facts[k].exists))
                implies !(facts.drop_first()[i].within && !facts.drop_first()[i].exists) by {
                assert(facts.drop_first()[i] == facts[i + 1]);
            }
        }
    }
}

/// Whether a mount outside the library exists is never judged: changing
/// what is known of such a mount's source (it stays outside the library)
/// leaves the verdict on the game unchanged.
pub proof fn law_outside_mounts_are_not_judged(new: NewGame, configured: bool, facts: Seq<PathFacts>, host: Option<PathFacts>, i: int, other: PathFacts)
    requires
        0 <= i < facts.len(),
        !facts[i].within,
        !other.within,
    ensures
        spec_validate(new, configured, facts.update(i, other), host) == spec_validate(new, configured, facts, host),
{
    lemma_missing_source_ignores_outside(views(new.mounts@), facts, i, other);
}

proof fn lemma_missing_source_ignores_outside(ms: Seq<Seq<char>>, facts: Seq<PathFacts>, i: int, other: PathFacts)
    requires
        0 <= i < facts.len(),
        !facts[i].within,
        !other.within,
    ensures
        first_missing_source(ms, facts.update(i, other)) == first_missing_source(ms, facts),
    decreases ms.len(),
{
    let u = facts.update(i, other);
    if ms.len() > 0 {
        if i > 0 {
            assert(u.drop_first() =~= facts.drop_first().update(i - 1, other));
            lemma_missing_source_ignores_outside(ms.drop_first(), facts.drop_first(), i - 1, other);
        } else {
            assert(u.drop_first() =~= facts.drop_first());
        }
    }
}

pub open spec fn library_unconfigured_message() -> Seq<char> {
    "no library roots configured: set ALTC_LIBRARY_ROOTS and mount the games storage              into the container, otherwise the agent cannot verify the game exists"@
}

/// The verdict on a supplied game: `Ok` or the status and message of the
/// first problem found, checked in this order: title, image, appid, mount
/// shapes, `RUN_EXE`, library configured, mount sources present, `RUN_EXE`
/// inside a mount, executable present. `facts` describe each mount's
/// source, `host` the executable's host path.
pub open spec fn spec_validate(new: NewGame, configured: bool, facts: Seq<PathFacts>, host: Option<PathFacts>) -> Result<(), (u16, Seq<char>)> {
    if spec_trim(new.title@).len() == 0 {
        Err((BAD_REQUEST, "title is required"@))
    } else if spec_trim(new.image@).len() == 0 {
        Err((BAD_REQUEST, "image is required"@))
    } else if bad_appid(new.steam_appid) {
        Err((BAD_REQUEST, "steam_appid must be the numeric id from the store URL, e.g. 1086940"@))
    } else if first_mount_problem(views(new.mounts@)) is Some {
        Err((BAD_REQUEST, first_mount_problem(views(new.mounts@))->Some_0))
    } else {
        match spec_run_exe(views(new.env@)) {
            None => Err((BAD_REQUEST, "env must contain RUN_EXE=<path to the executable inside the container>"@)),
            Some(exe) => if !configured {
                Err((INTERNAL_SERVER_ERROR, library_unconfigured_message()))
            } else if first_missing_source(views(new.mounts@), facts) is Some {
                Err((BAD_REQUEST, "no such folder: "@ + first_missing_source(views(new.mounts@), facts)->Some_0))
            } else {
                match spec_host_path_for(exe, views(new.mounts@)) {
                    None => Err((BAD_REQUEST, "RUN_EXE '"@ + exe + "' is not inside any of the mounts"@)),
                    Some(h) => if host matches Some(f) && f.within && !f.exists {
                        Err((BAD_REQUEST, "no such executable: "@ + h + " (from RUN_EXE '"@ + exe + "')"@))
                    } else {
                        Ok(())
                    },
                }
            },
        }
    }
}

pub open spec fn as_verdict(r: Result<(), ApiError>) -> Result<(), (u16, Seq<char>)> {
    match r {
        Ok(()) => Ok(()),
        Err(e) => Err((e.0, e.1@)),
    }
}

fn digits_only(s: &str) -> (r: bool)
    ensures
        r == all_ascii_digits(s@),
{
    let v = chars_of(s);
    let mut i: usize = 0;
    while i < v.len()
        invariant
            v@ == s@,
            i <= v.len(),
            forall|j: int| 0 <= j < i ==> '0' <= #[trigger] s@[j] && s@[j] <= '9',
        decreases v.len() - i,
    {
        if !('0' <= v[i] && v[i] <= '9') {
            return false;
        }
        i += 1;
    }
    true
}

pub fn check_mount(m: &str) -> (r: Option<String>)
    ensures
        match r {
            Some(e) => mount_problem(m@) == Some(e@),
            None => mount_problem(m@) is None,
        },
{
    let parts = split(m, ':');
    proof {
        reveal_strlit("/");
        assert("/"@ =~= slash());
    }
    if parts.len() != 3 || parts[0].unicode_len() == 0 || parts[1].unicode_len() == 0 {
        let a = cat("mount '", m);
        return Some(cat(a.as_str(), "' must be source:destination:mode with no ':' in either path"));
    }
    assert(parts@[0]@ == split_char(m@, ':')[0]);
    assert(parts@[1]@ == split_char(m@, ':')[1]);
    if !starts_with(parts[0].as_str(), "/") || !starts_with(parts[1].as_str(), "/") {
        let a = cat("mount '", m);
        return Some(cat(a.as_str(), "' needs absolute paths"));
    }
    None
}

/// The executable named by the first `RUN_EXE=` entry of `env`.
pub fn run_exe_of(env: &Vec<String>) -> (r: Option<String>)
    ensures
        match r {
            Some(x) => spec_run_exe(views(env@)) == Some(x@),
            None => spec_run_exe(views(env@)) is None,
        },
{
    let mut i: usize = 0;
    assert(views(env@).subrange(0, env@.len() as int) =~= views(env@));
    while i < env.len()
        invariant
            i <= env@.len(),
            spec_run_exe(views(env@)) == spec_run_exe(views(env@).subrange(i as int, env@.len() as int)),
        decreases env.len() - i,
    {
        let ghost rest = views(env@).subrange(i as int, env@.len() as int);
        assert(rest.drop_first() =~= views(env@).subrange(i + 1, env@.len() as int));
        assert(rest[0] == env@[i as int]@);
        proof { reveal_strlit("RUN_EXE="); }
        match strip_prefix(env[i].as_str(), "RUN_EXE=") {
            Some(x) => return Some(x),
            None => {},
        }
        i += 1;
    }
    None
}

pub fn source_of(m: &str) -> (r: String)
    ensures
        r@ == mount_source(m@),
{
    let parts = split(m, ':');
    proof { lemma_split_char_nonempty(m@, ':'); }
    own(parts[0].as_str())
}

/// Checks a supplied game against the rules in `spec_validate`.
pub fn validate(new: &NewGame, lib: &Library, facts: &Vec<PathFacts>, host: Option<PathFacts>) -> (r: Result<(), ApiError>)
    ensures
        as_verdict(r) == spec_validate(*new, lib@.len() > 0, facts@, host),
{
    if trim(new.title.as_str()).unicode_len() == 0 {
        return Err(ApiError::bad_request("title is required"));
    }
    if trim(new.image.as_str()).unicode_len() == 0 {
        return Err(ApiError::bad_request("image is required"));
    }
    match &new.steam_appid {
        Some(a) => {
            let t = trim(a.as_str());
            if t.unicode_len() > 0 && !digits_only(t.as_str()) {
                return Err(ApiError::bad_request("steam_appid must be the numeric id from the store URL, e.g. 1086940"));
            }
        },
        None => {},
    }
    let mut i: usize = 0;
    let ghost ms = views(new.mounts@);
    assert(ms.subrange(0, ms.len() as int) =~= ms);
    while i < new.mounts.len()
        invariant
            i <= new.mounts@.len(),
            ms == views(new.mounts@),
            spec_trim(new.title@).len() != 0,
            spec_trim(new.image@).len() != 0,
            !bad_appid(new.steam_appid),
            first_mount_problem(ms) == first_mount_problem(ms.subrange(i as int, ms.len() as int)),
        decreases new.mounts.len() - i,
    {
        let ghost rest = ms.subrange(i as int, ms.len() as int);
        assert(rest.drop_first() =~= ms.subrange(i + 1, ms.len() as int));
        assert(rest[0] == new.mounts@[i as int]@);
        match check_mount(new.mounts[i].as_str()) {
            Some(e) => return Err(ApiError::bad_request(e.as_str())),
            None => {},
        }
        i += 1;
    }
    assert(ms.subrange(ms.len() as int, ms.len() as int) =~= Seq::<Seq<char>>::empty());
    let exe = match run_exe_of(&new.env) {
        Some(x) => x,
        None => return Err(ApiError::bad_request("env must contain RUN_EXE=<path to the executable inside the container>")),
    };
    if !lib.is_configured() {
        return Err(ApiError::internal("no library roots configured: set ALTC_LIBRARY_ROOTS and mount the games storage              into the container, otherwise the agent cannot verify the game exists"));
    }
    let ghost ms_env = views(new.env@);
    let mut k: usize = 0;
    assert(facts@.subrange(0, facts@.len() as int) =~= facts@);
    while k < new.mounts.len() && k < facts.len()
        invariant
            k <= new.mounts@.len(),
            k <= facts@.len(),
            ms == views(new.mounts@),
            spec_trim(new.title@).len() != 0,
            spec_trim(new.image@).len() != 0,
            !bad_appid(new.steam_appid),
            first_mount_problem(ms) is None,
            ms_env == views(new.env@),
            spec_run_exe(ms_env) == Some(exe@),
            lib@.len() > 0,
            first_missing_source(ms, facts@) == first_missing_source(
                ms.subrange(k as int, ms.len() as int), facts@.subrange(k as int, facts@.len() as int)),
        decreases new.mounts.len() - k,
    {
        let ghost rest = ms.subrange(k as int, ms.len() as int);
        let ghost frest = facts@.subrange(k as int, facts@.len() as int);
        assert(rest.drop_first() =~= ms.subrange(k + 1, ms.len() as int));
        assert(frest.drop_first() =~= facts@.subrange(k + 1, facts@.len() as int));
        assert(rest[0] == new.mounts@[k as int]@);
        assert(frest[0] == facts@[k as int]);
        if facts[k].within && !facts[k].exists {
            let src = source_of(new.mounts[k].as_str());
            let msg = cat("no such folder: ", src.as_str());
            return Err(ApiError::bad_request(msg.as_str()));
        }
        k += 1;
    }
    proof {
        let rest = ms.subrange(k as int, ms.len() as int);
        let frest = facts@.subrange(k as int, facts@.len() as int);
        assert(rest.len() == 0 || frest.len() == 0);
    }
    match host_path_for(exe.as_str(), &new.mounts) {
        None => {
            let a = cat("RUN_EXE '", exe.as_str());
            let msg = cat(a.as_str(), "' is not inside any of the mounts");
            Err(ApiError::bad_request(msg.as_str()))
        },
        Some(h) => {
            match host {
                Some(f) => {
                    if f.within && !f.exists {
                        let a = cat("no such executable: ", h.as_str());
                        let b = cat(a.as_str(), " (from RUN_EXE '");
                        let c = cat(b.as_str(), exe.as_str());
                        let msg = cat(c.as_str(), "')");
                        return Err(ApiError::bad_request(msg.as_str()));
                    }
                },
                None => {},
            }
            Ok(())
        },
    }
}

/// The code of `c` lower-cased if it is an ASCII capital, as
/// `to_ascii_lowercase` does.
pub open spec fn ascii_lower(c: char) -> u32 {
    if 'A' <= c && c <= 'Z' { ((c as u32) + 32) as u32 } else { c as u32 }
}

/// `a` and `b` are equal ignoring ASCII case.
pub open spec fn eq_ignore_ascii_case(a: Seq<char>, b: Seq<char>) -> bool {
    a.len() == b.len() && forall|i: int| 0 <= i < a.len() ==> ascii_lower(#[trigger] a[i]) == ascii_lower(b[i])
}

fn lower(c: char) -> (r: u32)
    ensures
        r == ascii_lower(c),
{
    if 'A' <= c && c <= 'Z' {
        (c as u32) + 32
    } else {
        c as u32
    }
}

pub fn same_ignoring_ascii_case(a: &str, b: &str) -> (r: bool)
    ensures
        r == eq_ignore_ascii_case(a@, b@),
{
    let av = chars_of(a);
    let bv = chars_of(b);
    if av.len() != bv.len() {
        return false;
    }
    let mut i: usize = 0;
    while i < av.len()
        invariant
            av@ == a@,
            bv@ == b@,
            av.len() == bv.len(),
            i <= av.len(),
            forall|j: int| 0 <= j < i ==> ascii_lower(#[trigger] a@[j]) == ascii_lower(b@[j]),
        decreases av.len() - i,
    {
        if lower(av[i]) != lower(bv[i]) {
            return false;
        }
        i += 1;
    }
    true
}

/// The verdict on creating a game: the supplied game must pass
/// `spec_validate`, its title (trimmed) must not match an existing game's
/// ignoring ASCII case, and there must be a template with producer caps.
pub open spec fn spec_check_create(
    new: NewGame,
    configured: bool,
    facts: Seq<PathFacts>,
    host: Option<PathFacts>,
    existing: Seq<Game>,
    defaults: Option<EngineDefaults>,
) -> Result<(), (u16, Seq<char>)> {
    if spec_validate(new, configured, facts, host) is Err {
        spec_validate(new, configured, facts, host)
    } else if exists|i: int| 0 <= i < existing.len() && eq_ignore_ascii_case((#[trigger] existing[i]).title@, spec_trim(new.title@)) {
        Err((CONFLICT, "a game called '"@ + spec_trim(new.title@) + "' already exists"@))
    } else {
        match defaults {
            None => Err((INTERNAL_SERVER_ERROR, "no template to build a game from; the agent has not imported from wolf yet"@)),
            Some(d) => if d.video_producer_buffer_caps@.len() == 0 {
                Err((INTERNAL_SERVER_ERROR, "the new-game template has no video_producer_buffer_caps; a game built from it could not launch"@))
            } else {
                Ok(())
            },
        }
    }
}

/// Everything that must hold before a game is created from `new`.
pub fn check_create(
    new: &NewGame,
    lib: &Library,
    facts: &Vec<PathFacts>,
    host: Option<PathFacts>,
    existing: &Vec<Game>,
    defaults: &Option<EngineDefaults>,
) -> (r: Result<(), ApiError>)
    ensures
        as_verdict(r) == spec_check_create(*new, lib@.len() > 0, facts@, host, existing@, *defaults),
{
    validate(new, lib, facts, host)?;
    let title = trim(new.title.as_str());
    let mut i: usize = 0;
    while i < existing.len()
        invariant
            i <= existing@.len(),
            title@ == spec_trim(new.title@),
            spec_validate(*new, lib@.len() > 0, facts@, host) is Ok,
            forall|j: int| 0 <= j < i ==> !eq_ignore_ascii_case((#[trigger] existing@[j]).title@, title@),
        decreases existing.len() - i,
    {
        if same_ignoring_ascii_case(existing[i].title.as_str(), title.as_str()) {
            assert(eq_ignore_ascii_case(existing@[i as int].title@, spec_trim(new.title@)));
            let a = cat("a game called '", title.as_str());
            let msg = cat(a.as_str(), "' already exists");
            return Err(ApiError::conflict(msg.as_str()));
        }
        i += 1;
    }
    match defaults {
        None => Err(ApiError::internal("no template to build a game from; the agent has not imported from wolf yet")),
        Some(d) => if d.video_producer_buffer_caps.unicode_len() == 0 {
            Err(ApiError::internal("the new-game template has no video_producer_buffer_caps; a game built from it could not launch"))
        } else {
            Ok(())
        },
    }
}

/// Where a Steam appid came from when an admin supplied it.
pub const APPID_FROM_ADMIN: &'static str = "admin";

/// Whether `c` is alphanumeric in Unicode's terms, as std's
/// `char::is_alphanumeric` reports it.
pub uninterp spec fn unicode_alphanumeric(c: char) -> bool;

/// Calls `char::is_alphanumeric`. Claimed: the answer is the character's
/// alphabetic-or-numeric property, a fixed function of the character.
#[verifier::external_body]
fn is_alnum(c: char) -> (r: bool)
    ensures
        r == unicode_alphanumeric(c),
{
    c.is_alphanumeric()
}

/// The alphanumeric characters of `s`, in order.
pub open spec fn alnum_only(s: Seq<char>) -> Seq<char> {
    s.filter(|c: char| unicode_alphanumeric(c))
}

fn keep_alnum(s: &str) -> (r: String)
    ensures
        r@ == alnum_only(s@),
{
    let v = chars_of(s);
    let mut out = String::new();
    let mut i: usize = 0;
    proof {
        reveal_with_fuel(Seq::<char>::filter, 1);
        assert(s@.take(0) =~= Seq::<char>::empty());
    }
    while i < v.len()
        invariant
            v@ == s@,
            i <= v.len(),
            out@ == s@.take(i as int).filter(|c: char| unicode_alphanumeric(c)),
        decreases v.len() - i,
    {
        proof {
            reveal_with_fuel(Seq::<char>::filter, 1);
            assert(s@.take(i + 1).drop_last() =~= s@.take(i as int));
        }
        if is_alnum(v[i]) {
            let one = slice(s, i, i + 1);
            assert(one@ =~= seq![s@[i as int]]);
            out.append(one.as_str());
        }
        i += 1;
    }
    assert(s@.take(v.len() as int) =~= s@);
    out
}

/// A JSON array of the quoted strings, as text.
pub open spec fn quoted_list(items: Seq<Seq<char>>) -> Seq<char>
    decreases items.len(),
{
    if items.len() == 0 {
        Seq::empty()
    } else if items.len() == 1 {
        json_quote(items[0])
    } else {
        quoted_list(items.drop_last()) + ","@ + json_quote(items.last())
    }
}

pub open spec fn json_array_of(items: Seq<Seq<char>>) -> Seq<char> {
    "["@ + quoted_list(items) + "]"@
}

fn array_text(items: &Vec<String>) -> (r: String)
    ensures
        r@ == json_array_of(views(items@)),
{
    let mut body = String::new();
    let mut i: usize = 0;
    proof { assert(views(items@).take(0) =~= Seq::<Seq<char>>::empty()); }
    while i < items.len()
        invariant
            i <= items@.len(),
            body@ == quoted_list(views(items@).take(i as int)),
        decreases items.len() - i,
    {
        let q = json::quote(items[i].as_str());
        proof {
            assert(views(items@).take(i + 1).drop_last() =~= views(items@).take(i as int));
            assert(views(items@).take(i + 1).last() == items@[i as int]@);
        }
        if i > 0 {
            body.append(",");
        }
        body.append(q.as_str());
        proof {
            if i == 0 {
                assert(body@ =~= quoted_list(views(items@).take(1)));
            }
        }
        i += 1;
    }
    assert(views(items@).take(items.len() as int) =~= views(items@));
    let a = cat("[", body.as_str());
    cat(a.as_str(), "]")
}

/// The runner of a game created over the API, as JSON text: a docker runner
/// named after the title's alphanumeric characters, with the supplied image,
/// mounts and environment, and the template's HostConfig.
pub open spec fn runner_value(new: NewGame, d: EngineDefaults) -> Seq<char> {
    "{\"base_create_json\":"@ + json_quote(d.runner_base_create_json@)
        + ",\"devices\":[],\"env\":"@ + json_array_of(views(new.env@))
        + ",\"image\":"@ + json_quote(spec_trim(new.image@))
        + ",\"mounts\":"@ + json_array_of(views(new.mounts@))
        + ",\"name\":"@ + json_quote(alnum_only(spec_trim(new.title@)))
        + ",\"ports\":[],\"type\":\"docker\"}"@
}

/// The runner stored for a created game: that value as `serde_json` prints
/// it (the text itself, should it not read as JSON).
pub open spec fn created_runner(new: NewGame, d: EngineDefaults) -> Seq<char> {
    match json_canonical(runner_value(new, d)) {
        Some(c) => c,
        None => runner_value(new, d),
    }
}

/// `g` is the game created from `new` with id `id`: our own fields from
/// the admin, engine configuration from the template, no store identity yet.
pub open spec fn created_game(new: NewGame, d: EngineDefaults, id: Seq<char>, g: Game) -> bool {
    &&& g.id@ == id
    &&& g.title@ == spec_trim(new.title@)
    &&& g.support_hdr == (match new.support_hdr { Some(b) => b, None => false })
    &&& g.icon_png_path@ == (match new.icon { Some(i) => i@, None => Seq::empty() })
    &&& g.render_node@ == (match new.render_node { Some(r) => r@, None => d.render_node@ })
    &&& g.runner_json@ == created_runner(new, d)
    &&& g.video_producer_buffer_caps@ == d.video_producer_buffer_caps@
    &&& g.h264_gst_pipeline@ == d.h264_gst_pipeline@
    &&& g.hevc_gst_pipeline@ == d.hevc_gst_pipeline@
    &&& g.av1_gst_pipeline@ == d.av1_gst_pipeline@
    &&& g.opus_gst_pipeline@ == d.opus_gst_pipeline@
    &&& g.start_audio_server == d.start_audio_server
    &&& g.start_virtual_compositor == d.start_virtual_compositor
    &&& g.steam_appid@ == (match new.steam_appid { Some(a) => a@, None => Seq::empty() })
    &&& g.appid_source@ == (match new.steam_appid {
        Some(a) => if spec_trim(a@).len() > 0 { APPID_FROM_ADMIN@ } else { Seq::empty() },
        None => Seq::empty(),
    })
    &&& g.store@.len() == 0
    &&& g.store_id@.len() == 0
    &&& g.slug@.len() == 0
    &&& g.release_date@.len() == 0
    &&& g.description@.len() == 0
    &&& g.protondb_tier@.len() == 0
    &&& g.tagline@.len() == 0
    &&& g.developer@.len() == 0
    &&& g.genres@.len() == 0
    &&& g.controller_override@.len() == 0
}

fn opt_text(o: &Option<String>) -> (r: String)
    ensures
        r@ == (match *o { Some(s) => s@, None => Seq::empty() }),
{
    match o {
        Some(s) => own(s.as_str()),
        None => String::new(),
    }
}

/// The game created from `new`, with the freshly allocated `id`.
pub fn build_game(new: &NewGame, d: &EngineDefaults, id: String) -> (g: Game)
    ensures
        created_game(*new, *d, id@, g),
{
    let title = trim(new.title.as_str());
    let name = keep_alnum(title.as_str());
    let image = trim(new.image.as_str());
    let mut runner = own("{\"base_create_json\":");
    runner.append(json::quote(d.runner_base_create_json.as_str()).as_str());
    runner.append(",\"devices\":[],\"env\":");
    runner.append(array_text(&new.env).as_str());
    runner.append(",\"image\":");
    runner.append(json::quote(image.as_str()).as_str());
    runner.append(",\"mounts\":");
    runner.append(array_text(&new.mounts).as_str());
    runner.append(",\"name\":");
    runner.append(json::quote(name.as_str()).as_str());
    runner.append(",\"ports\":[],\"type\":\"docker\"}");
    let runner = match json::canonical(runner.as_str()) {
        Some(c) => c,
        None => runner,
    };
    let appid_source = match &new.steam_appid {
        Some(v) => if trim(v.as_str()).unicode_len() > 0 { own(APPID_FROM_ADMIN) } else { String::new() },
        None => String::new(),
    };
    Game {
        id,
        title,
        support_hdr: match new.support_hdr { Some(b) => b, None => false },
        icon_png_path: opt_text(&new.icon),
        render_node: match &new.render_node { Some(r) => own(r.as_str()), None => own(d.render_node.as_str()) },
        runner_json: runner,
        video_producer_buffer_caps: own(d.video_producer_buffer_caps.as_str()),
        h264_gst_pipeline: own(d.h264_gst_pipeline.as_str()),
        hevc_gst_pipeline: own(d.hevc_gst_pipeline.as_str()),
        av1_gst_pipeline: own(d.av1_gst_pipeline.as_str()),
        opus_gst_pipeline: own(d.opus_gst_pipeline.as_str()),
        start_audio_server: d.start_audio_server,
        start_virtual_compositor: d.start_virtual_compositor,
        store: empty(),
        store_id: empty(),
        slug: empty(),
        release_date: empty(),
        description: empty(),
        protondb_tier: empty(),
        steam_appid: opt_text(&new.steam_appid),
        appid_source,
        tagline: empty(),
        developer: empty(),
        genres: empty(),
        controller_override: empty(),
    }
}

} // verus!
