//! The database schema, as an ordered list of migrations applied once each
//! and recorded by name. A shipped entry is never edited: a new one is added.
//! The baseline is the schema as it first shipped, so a fresh database and an
//! existing one take exactly the same path to the current shape.
use vstd::prelude::*;
use crate::text::{spec_trim, split, split_char, trim, views};

verus! {

/// Every migration, oldest first: its name and its SQL.
pub open spec fn spec_migrations() -> Seq<(Seq<char>, Seq<char>)> {
    seq![
        ("0001_baseline"@, "CREATE TABLE IF NOT EXISTS users (
            id INTEGER PRIMARY KEY,
            name TEXT NOT NULL UNIQUE,
            role TEXT NOT NULL CHECK (role IN ('owner','admin','member')),
            locale TEXT,
            created_at TEXT NOT NULL DEFAULT (datetime('now'))
        );
        CREATE TABLE IF NOT EXISTS tokens (
            id INTEGER PRIMARY KEY,
            user_id INTEGER NOT NULL REFERENCES users(id) ON DELETE CASCADE,
            token_hash TEXT NOT NULL UNIQUE,
            label TEXT,
            created_at TEXT NOT NULL DEFAULT (datetime('now')),
            last_used_at TEXT
        );
        CREATE TABLE IF NOT EXISTS devices (
            id INTEGER PRIMARY KEY,
            user_id INTEGER NOT NULL REFERENCES users(id) ON DELETE CASCADE,
            client_id TEXT NOT NULL UNIQUE,
            name TEXT,
            created_at TEXT NOT NULL DEFAULT (datetime('now'))
        );
        -- No rows for an app_id = shared with everyone (default).
        CREATE TABLE IF NOT EXISTS app_shares (
            app_id TEXT NOT NULL,
            user_id INTEGER NOT NULL REFERENCES users(id) ON DELETE CASCADE,
            PRIMARY KEY (app_id, user_id)
        );
        -- The library. id is ours and authoritative: Wolf honours the id we
        -- send and never persists one of its own.
        CREATE TABLE IF NOT EXISTS games (
            id TEXT PRIMARY KEY,
            title TEXT NOT NULL,
            support_hdr BOOLEAN NOT NULL DEFAULT 0,
            icon_png_path TEXT NOT NULL DEFAULT '',
            render_node TEXT NOT NULL DEFAULT '',
            runner_json TEXT NOT NULL,
            created_at TEXT NOT NULL DEFAULT (datetime('now'))
        );
        CREATE TABLE IF NOT EXISTS engine_defaults (
            id INTEGER PRIMARY KEY CHECK (id = 1),
            h264_gst_pipeline TEXT NOT NULL,
            hevc_gst_pipeline TEXT NOT NULL,
            av1_gst_pipeline TEXT NOT NULL,
            opus_gst_pipeline TEXT NOT NULL,
            start_audio_server BOOLEAN NOT NULL DEFAULT 1,
            start_virtual_compositor BOOLEAN NOT NULL DEFAULT 1
        );"@),
        ("0002_per_app_engine_config"@, "ALTER TABLE games ADD COLUMN video_producer_buffer_caps TEXT NOT NULL DEFAULT '';
         ALTER TABLE games ADD COLUMN h264_gst_pipeline TEXT NOT NULL DEFAULT '';
         ALTER TABLE games ADD COLUMN hevc_gst_pipeline TEXT NOT NULL DEFAULT '';
         ALTER TABLE games ADD COLUMN av1_gst_pipeline TEXT NOT NULL DEFAULT '';
         ALTER TABLE games ADD COLUMN opus_gst_pipeline TEXT NOT NULL DEFAULT '';
         ALTER TABLE games ADD COLUMN start_audio_server BOOLEAN NOT NULL DEFAULT 1;
         ALTER TABLE games ADD COLUMN start_virtual_compositor BOOLEAN NOT NULL DEFAULT 1;
         ALTER TABLE engine_defaults ADD COLUMN video_producer_buffer_caps TEXT NOT NULL DEFAULT '';"@),
        ("0003_new_game_template"@, "ALTER TABLE engine_defaults ADD COLUMN render_node TEXT NOT NULL DEFAULT '';
         ALTER TABLE engine_defaults ADD COLUMN runner_base_create_json TEXT NOT NULL DEFAULT '';"@),
        ("0004_metadata"@, "ALTER TABLE games ADD COLUMN store TEXT NOT NULL DEFAULT '';
         ALTER TABLE games ADD COLUMN store_id TEXT NOT NULL DEFAULT '';
         ALTER TABLE games ADD COLUMN slug TEXT NOT NULL DEFAULT '';
         ALTER TABLE games ADD COLUMN release_date TEXT NOT NULL DEFAULT '';
         ALTER TABLE games ADD COLUMN description TEXT NOT NULL DEFAULT '';"@),
        ("0005_protondb"@, "ALTER TABLE games ADD COLUMN protondb_tier TEXT NOT NULL DEFAULT '';"@),
        ("0006_steam_identity"@, "ALTER TABLE games ADD COLUMN steam_appid TEXT NOT NULL DEFAULT '';
         ALTER TABLE games ADD COLUMN appid_source TEXT NOT NULL DEFAULT '';
         ALTER TABLE games ADD COLUMN tagline TEXT NOT NULL DEFAULT '';
         ALTER TABLE games ADD COLUMN developer TEXT NOT NULL DEFAULT '';
         ALTER TABLE games ADD COLUMN genres TEXT NOT NULL DEFAULT '';"@),
        ("0007_per_title_settings"@, "ALTER TABLE games ADD COLUMN controller_override TEXT NOT NULL DEFAULT '';"@),
    ]
}

pub open spec fn pair_views(v: Seq<(&str, &str)>) -> Seq<(Seq<char>, Seq<char>)> {
    v.map_values(|p: (&str, &str)| (p.0@, p.1@))
}

/// Every migration, oldest first: its name and its SQL.
pub fn migrations() -> (r: Vec<(&'static str, &'static str)>)
    ensures
        pair_views(r@) == spec_migrations(),
{
    let r = vec![
        ("0001_baseline", "CREATE TABLE IF NOT EXISTS users (
            id INTEGER PRIMARY KEY,
            name TEXT NOT NULL UNIQUE,
            role TEXT NOT NULL CHECK (role IN ('owner','admin','member')),
            locale TEXT,
            created_at TEXT NOT NULL DEFAULT (datetime('now'))
        );
        CREATE TABLE IF NOT EXISTS tokens (
            id INTEGER PRIMARY KEY,
            user_id INTEGER NOT NULL REFERENCES users(id) ON DELETE CASCADE,
            token_hash TEXT NOT NULL UNIQUE,
            label TEXT,
            created_at TEXT NOT NULL DEFAULT (datetime('now')),
            last_used_at TEXT
        );
        CREATE TABLE IF NOT EXISTS devices (
            id INTEGER PRIMARY KEY,
            user_id INTEGER NOT NULL REFERENCES users(id) ON DELETE CASCADE,
            client_id TEXT NOT NULL UNIQUE,
            name TEXT,
            created_at TEXT NOT NULL DEFAULT (datetime('now'))
        );
        -- No rows for an app_id = shared with everyone (default).
        CREATE TABLE IF NOT EXISTS app_shares (
            app_id TEXT NOT NULL,
            user_id INTEGER NOT NULL REFERENCES users(id) ON DELETE CASCADE,
            PRIMARY KEY (app_id, user_id)
        );
        -- The library. id is ours and authoritative: Wolf honours the id we
        -- send and never persists one of its own.
        CREATE TABLE IF NOT EXISTS games (
            id TEXT PRIMARY KEY,
            title TEXT NOT NULL,
            support_hdr BOOLEAN NOT NULL DEFAULT 0,
            icon_png_path TEXT NOT NULL DEFAULT '',
            render_node TEXT NOT NULL DEFAULT '',
            runner_json TEXT NOT NULL,
            created_at TEXT NOT NULL DEFAULT (datetime('now'))
        );
        CREATE TABLE IF NOT EXISTS engine_defaults (
            id INTEGER PRIMARY KEY CHECK (id = 1),
            h264_gst_pipeline TEXT NOT NULL,
            hevc_gst_pipeline TEXT NOT NULL,
            av1_gst_pipeline TEXT NOT NULL,
            opus_gst_pipeline TEXT NOT NULL,
            start_audio_server BOOLEAN NOT NULL DEFAULT 1,
            start_virtual_compositor BOOLEAN NOT NULL DEFAULT 1
        );"),
        ("0002_per_app_engine_config", "ALTER TABLE games ADD COLUMN video_producer_buffer_caps TEXT NOT NULL DEFAULT '';
         ALTER TABLE games ADD COLUMN h264_gst_pipeline TEXT NOT NULL DEFAULT '';
         ALTER TABLE games ADD COLUMN hevc_gst_pipeline TEXT NOT NULL DEFAULT '';
         ALTER TABLE games ADD COLUMN av1_gst_pipeline TEXT NOT NULL DEFAULT '';
         ALTER TABLE games ADD COLUMN opus_gst_pipeline TEXT NOT NULL DEFAULT '';
         ALTER TABLE games ADD COLUMN start_audio_server BOOLEAN NOT NULL DEFAULT 1;
         ALTER TABLE games ADD COLUMN start_virtual_compositor BOOLEAN NOT NULL DEFAULT 1;
         ALTER TABLE engine_defaults ADD COLUMN video_producer_buffer_caps TEXT NOT NULL DEFAULT '';"),
        ("0003_new_game_template", "ALTER TABLE engine_defaults ADD COLUMN render_node TEXT NOT NULL DEFAULT '';
         ALTER TABLE engine_defaults ADD COLUMN runner_base_create_json TEXT NOT NULL DEFAULT '';"),
        ("0004_metadata", "ALTER TABLE games ADD COLUMN store TEXT NOT NULL DEFAULT '';
         ALTER TABLE games ADD COLUMN store_id TEXT NOT NULL DEFAULT '';
         ALTER TABLE games ADD COLUMN slug TEXT NOT NULL DEFAULT '';
         ALTER TABLE games ADD COLUMN release_date TEXT NOT NULL DEFAULT '';
         ALTER TABLE games ADD COLUMN description TEXT NOT NULL DEFAULT '';"),
        ("0005_protondb", "ALTER TABLE games ADD COLUMN protondb_tier TEXT NOT NULL DEFAULT '';"),
        ("0006_steam_identity", "ALTER TABLE games ADD COLUMN steam_appid TEXT NOT NULL DEFAULT '';
         ALTER TABLE games ADD COLUMN appid_source TEXT NOT NULL DEFAULT '';
         ALTER TABLE games ADD COLUMN tagline TEXT NOT NULL DEFAULT '';
         ALTER TABLE games ADD COLUMN developer TEXT NOT NULL DEFAULT '';
         ALTER TABLE games ADD COLUMN genres TEXT NOT NULL DEFAULT '';"),
        ("0007_per_title_settings", "ALTER TABLE games ADD COLUMN controller_override TEXT NOT NULL DEFAULT '';"),
    ];
    assert(pair_views(r@) =~= spec_migrations());
    r
}

/// The pieces of a migration's SQL between `;`s that hold a statement.
pub open spec fn spec_statements(parts: Seq<Seq<char>>) -> Seq<Seq<char>>
    decreases parts.len(),
{
    if parts.len() == 0 {
        Seq::empty()
    } else {
        let rest = spec_statements(parts.drop_last());
        if spec_trim(parts.last()).len() == 0 { rest } else { rest.push(parts.last()) }
    }
}

/// The statements of a migration, in order: its SQL cut at every `;`, blank
/// pieces dropped.
pub fn statements(sql: &str) -> (r: Vec<String>)
    ensures
        views(r@) == spec_statements(split_char(sql@, ';')),
{
    let parts = split(sql, ';');
    let ghost ps = views(parts@);
    let mut out: Vec<String> = Vec::new();
    let mut i: usize = 0;
    assert(ps.take(0) =~= Seq::<Seq<char>>::empty());
    while i < parts.len()
        invariant
            i <= parts@.len(),
            ps == views(parts@),
            views(out@) == spec_statements(ps.take(i as int)),
        decreases parts.len() - i,
    {
        proof {
            assert(ps.take(i + 1).drop_last() =~= ps.take(i as int));
            assert(ps.take(i + 1).last() == parts@[i as int]@);
        }
        let t = trim(&parts[i]);
        if t.unicode_len() > 0 {
            let ghost before = views(out@);
            out.push(parts[i].clone());
            assert(views(out@) =~= before.push(parts@[i as int]@));
        }
        i += 1;
    }
    assert(ps.take(parts@.len() as int) =~= ps);
    out
}

/// The positions, in order, of the migrations whose names are not among
/// those already applied.
pub open spec fn spec_pending(names: Seq<Seq<char>>, applied: Seq<Seq<char>>) -> Seq<int>
    decreases names.len(),
{
    if names.len() == 0 {
        Seq::empty()
    } else {
        let rest = spec_pending(names.drop_last(), applied);
        if applied.contains(names.last()) { rest } else { rest.push(names.len() - 1) }
    }
}

pub open spec fn str_views(v: Seq<&str>) -> Seq<Seq<char>> {
    v.map_values(|s: &str| s@)
}

/// Which migrations still have to run, given the names recorded as applied.
pub fn pending(names: &Vec<&str>, applied: &Vec<String>) -> (r: Vec<usize>)
    ensures
        r@.map_values(|i: usize| i as int) == spec_pending(str_views(names@), views(applied@)),
{
    let ghost ns = str_views(names@);
    let ghost ap = views(applied@);
    let mut out: Vec<usize> = Vec::new();
    let mut i: usize = 0;
    assert(ns.take(0) =~= Seq::<Seq<char>>::empty());
    assert(out@.map_values(|i: usize| i as int) =~= Seq::<int>::empty());
    while i < names.len()
        invariant
            i <= names@.len(),
            ns == str_views(names@),
            ap == views(applied@),
            out@.map_values(|i: usize| i as int) == spec_pending(ns.take(i as int), ap),
        decreases names.len() - i,
    {
        proof {
            assert(ns.take(i + 1).drop_last() =~= ns.take(i as int));
            assert(ns.take(i + 1).last() == names@[i as int]@);
        }
        let mut seen = false;
        let mut j: usize = 0;
        while j < applied.len()
            invariant
                i < names@.len(),
                j <= applied@.len(),
                ap == views(applied@),
                seen == exists|k: int| 0 <= k < j && ap[k] == names@[i as int]@,
            decreases applied.len() - j,
        {
            let matched = crate::text::eq(applied[j].as_str(), names[i]);
            assert(ap[j as int] == applied@[j as int]@);
            if matched {
                seen = true;
            }
            proof {
                if matched {
                    assert(ap[j as int] == names@[i as int]@);
                }
                if seen {
                    assert(exists|k: int| 0 <= k < j + 1 && ap[k] == names@[i as int]@);
                } else {
                    assert(forall|k: int| 0 <= k < j + 1 ==> ap[k] != names@[i as int]@);
                }
            }
            j += 1;
        }
        proof {
            if seen {
                let k = choose|k: int| 0 <= k < applied@.len() && ap[k] == names@[i as int]@;
                assert(ap.contains(names@[i as int]@));
            } else {
                assert(!ap.contains(names@[i as int]@));
            }
        }
        if !seen {
            let ghost before = out@.map_values(|i: usize| i as int);
            out.push(i);
            assert(out@.map_values(|i: usize| i as int) =~= before.push(i as int));
        }
        i += 1;
    }
    assert(ns.take(names@.len() as int) =~= ns);
    out
}

proof fn lemma_pending_members(names: Seq<Seq<char>>, applied: Seq<Seq<char>>)
    ensures
        forall|k: int| 0 <= k < spec_pending(names, applied).len() ==>
            0 <= #[trigger] spec_pending(names, applied)[k] < names.len(),
        forall|i: int| 0 <= i < names.len() && !applied.contains(names[i]) ==>
            exists|k: int| 0 <= k < spec_pending(names, applied).len() && #[trigger] spec_pending(names, applied)[k] == i,
    decreases names.len(),
{
    if names.len() > 0 {
        lemma_pending_members(names.drop_last(), applied);
        let rest = spec_pending(names.drop_last(), applied);
        assert forall|i: int| 0 <= i < names.len() && !applied.contains(names[i]) implies
            exists|k: int| 0 <= k < spec_pending(names, applied).len() && #[trigger] spec_pending(names, applied)[k] == i by {
            if i < names.len() - 1 {
                assert(names.drop_last()[i] == names[i]);
                let k = choose|k: int| 0 <= k < rest.len() && #[trigger] rest[k] == i;
                assert(spec_pending(names, applied)[k] == i);
            } else {
                assert(spec_pending(names, applied)[rest.len() as int] == i);
            }
        }
    }
}

/// Running the migrations twice applies nothing the second time: once every
/// pending migration is recorded, none is pending.
pub proof fn law_migrations_run_once(names: Seq<Seq<char>>, applied: Seq<Seq<char>>, recorded: Seq<Seq<char>>)
    requires
        recorded == applied + spec_pending(names, applied).map_values(|i: int| names[i]),
    ensures
        spec_pending(names, recorded).len() == 0,
{
    lemma_pending_members(names, applied);
    lemma_pending_members(names, recorded);
    let p = spec_pending(names, applied);
    if spec_pending(names, recorded).len() > 0 {
        let i = spec_pending(names, recorded)[0];
        lemma_not_pending(names, recorded, 0);
        if applied.contains(names[i]) {
            let j = choose|j: int| 0 <= j < applied.len() && applied[j] == names[i];
            assert(recorded[j] == names[i]);
        } else {
            let k = choose|k: int| 0 <= k < p.len() && #[trigger] p[k] == i;
            assert(recorded[applied.len() + k] == names[i]);
        }
        assert(recorded.contains(names[i]));
    }
}

proof fn lemma_not_pending(names: Seq<Seq<char>>, applied: Seq<Seq<char>>, k: int)
    requires
        0 <= k < spec_pending(names, applied).len(),
    ensures
        0 <= spec_pending(names, applied)[k] < names.len(),
        !applied.contains(names[spec_pending(names, applied)[k]]),
    decreases names.len(),
{
    let rest = spec_pending(names.drop_last(), applied);
    if k < rest.len() {
        lemma_not_pending(names.drop_last(), applied, k);
        assert(names.drop_last()[rest[k]] == names[rest[k]]);
    }
}

} // verus!
