//! Decisions about stored games: the ids the agent gives them, and how what
//! the metadata pipeline found is written onto a game.
use vstd::prelude::*;
use crate::error::{ApiError, INTERNAL_SERVER_ERROR, NOT_FOUND};
use crate::identity::Identity;
use crate::json::{Json, JsonV, at, json_parse};
use crate::library::{APPID_FROM_ADMIN, Game, mount_source, source_of};
use crate::metadata::{Art, Metadata, Source, art_urls_for, fetch_art, first_served, looked_up, lookup, no_art, spec_art_urls_for};
use crate::numbers::{decimal_string, decimal_text};
use crate::text::{eq, own, views};

verus! {

/// How many random ids are tried before giving up.
pub const ID_ATTEMPTS: u32 = 64;

/// The id a random draw gives: always a positive signed 32-bit value,
/// because Moonlight clients cannot carry anything wider. Random, never
/// derived from the title, so that a rename cannot change a game's identity.
pub open spec fn candidate_value(raw: u32) -> nat {
    (1 + raw % 2147483646) as nat
}

pub fn id_candidate(raw: u32) -> (r: String)
    ensures
        r@ == decimal_text(candidate_value(raw)),
        1 <= candidate_value(raw) <= 2147483646,
{
    let v: u32 = 1 + raw % 2147483646;
    decimal_string(v as u64)
}

/// What creating a game answers when every attempt drew a taken id.
pub fn no_free_id() -> (e: ApiError)
    ensures
        e.0 == INTERNAL_SERVER_ERROR,
        e.1@ == "could not allocate a free app id"@,
{
    ApiError::internal("could not allocate a free app id")
}

/// What renaming or deleting a game answers once the statement ran: no row
/// touched means there is no such game.
pub fn game_changed(rows: u64) -> (r: Result<(), ApiError>)
    ensures
        rows > 0 <==> r is Ok,
        r is Err ==> r->Err_0.0 == NOT_FOUND && r->Err_0.1@ == "no such game"@,
{
    if rows == 0 {
        return Err(ApiError::not_found("no such game"));
    }
    Ok(())
}

/// The store the game is installed from goes first: its identity, its
/// title when it gave one (canonical, punctuation and all), and its slug,
/// release date and description.
pub fn apply_store_metadata(g: Game, identity: &Identity, meta: &Metadata) -> (out: Game)
    ensures
        out.store@ == identity.store@,
        out.store_id@ == identity.store_id@,
        out.title@ == (if meta.title@.len() > 0 { meta.title@ } else { g.title@ }),
        out.slug@ == meta.slug@,
        out.release_date@ == meta.release_date@,
        out.description@ == meta.description@,
        // every other field is kept
        out == (Game {
            store: out.store,
            store_id: out.store_id,
            title: out.title,
            slug: out.slug,
            release_date: out.release_date,
            description: out.description,
            ..g
        }),
{
    let mut g = g;
    g.store = own(&identity.store);
    g.store_id = own(&identity.store_id);
    if meta.title.unicode_len() > 0 {
        g.title = own(&meta.title);
    }
    g.slug = own(&meta.slug);
    g.release_date = own(&meta.release_date);
    g.description = own(&meta.description);
    g
}

/// Where a Steam appid came from when the runner's GAMEID carried it.
pub const APPID_FROM_GAMEID: &'static str = "gameid";

/// The Steam appid a game is known by without searching: one an admin set
/// comes first, then the one the runner already needs (exact both). `None`
/// means neither is known.
pub fn known_appid(g: &Game, from_runner: Option<String>) -> (r: Option<(String, String)>)
    ensures
        if g.steam_appid@.len() > 0 && g.appid_source@ == APPID_FROM_ADMIN@ {
            r matches Some(p) && p.0@ == g.steam_appid@ && p.1@ == APPID_FROM_ADMIN@
        } else {
            match from_runner {
                Some(a) => r matches Some(p) && p.0@ == a@ && p.1@ == APPID_FROM_GAMEID@,
                None => r is None,
            }
        },
{
    if g.steam_appid.unicode_len() > 0 && eq(&g.appid_source, APPID_FROM_ADMIN) {
        return Some((own(&g.steam_appid), own(APPID_FROM_ADMIN)));
    }
    match from_runner {
        Some(a) => Some((a, own(APPID_FROM_GAMEID))),
        None => None,
    }
}

/// What Steam's store details give that GOG does not.
pub struct SteamDetails {
    pub tagline: String,
    pub developer: String,
    pub genres: String,
    pub release_date: String,
}

/// Records a resolved appid and, when Steam answered, its details. Steam's
/// release date wins when it has one: a store re-release must not stand in
/// for a game's launch.
pub fn apply_steam(g: Game, appid: String, how: String, details: Option<SteamDetails>) -> (out: Game)
    ensures
        out.steam_appid@ == appid@,
        out.appid_source@ == how@,
        match details {
            Some(d) => out.tagline@ == d.tagline@ && out.developer@ == d.developer@ && out.genres@ == d.genres@
                && out.release_date@ == (if d.release_date@.len() > 0 { d.release_date@ } else { g.release_date@ }),
            None => out.tagline == g.tagline && out.developer == g.developer && out.genres == g.genres
                && out.release_date == g.release_date,
        },
        // every other field is kept
        out == (Game {
            steam_appid: out.steam_appid,
            appid_source: out.appid_source,
            tagline: out.tagline,
            developer: out.developer,
            genres: out.genres,
            release_date: out.release_date,
            ..g
        }),
{
    let mut g = g;
    g.steam_appid = appid;
    g.appid_source = how;
    if let Some(d) = details {
        g.tagline = d.tagline;
        g.developer = d.developer;
        g.genres = d.genres;
        if d.release_date.unicode_len() > 0 {
            g.release_date = d.release_date;
        }
    }
    g
}

/// The art to try for a game, best first: Steam's own art when it has an
/// appid, then what its store listed.
pub open spec fn art_candidate_urls(g: Game, meta_urls: Seq<Seq<char>>) -> Seq<Seq<char>> {
    if g.steam_appid@.len() > 0 {
        crate::metadata::spec_steam_art_urls(g.steam_appid@) + meta_urls
    } else {
        meta_urls
    }
}

pub fn art_candidates(g: &Game, meta_urls: &Vec<String>) -> (r: Vec<String>)
    ensures
        views(r@) == art_candidate_urls(*g, views(meta_urls@)),
{
    let mut out: Vec<String> = if g.steam_appid.unicode_len() > 0 {
        crate::metadata::steam_art_urls(&g.steam_appid)
    } else {
        Vec::new()
    };
    let ghost base = views(out@);
    let mut i: usize = 0;
    while i < meta_urls.len()
        invariant
            i <= meta_urls@.len(),
            views(out@) == base + views(meta_urls@).take(i as int),
        decreases meta_urls.len() - i,
    {
        let ghost before = views(out@);
        out.push(own(&meta_urls[i]));
        assert(views(out@) =~= before.push(meta_urls@[i as int]@));
        assert(views(meta_urls@).take(i + 1) =~= views(meta_urls@).take(i as int).push(meta_urls@[i as int]@));
        i += 1;
    }
    assert(views(meta_urls@).take(meta_urls@.len() as int) =~= views(meta_urls@));
    proof {
        if g.steam_appid@.len() == 0 {
            assert(base =~= Seq::<Seq<char>>::empty());
        }
    }
    out
}

/// The host folders of a runner's mounts, in order, up to the first mount
/// that is not a string.
pub open spec fn mount_sources(items: Seq<Seq<char>>) -> Seq<Seq<char>>
    decreases items.len(),
{
    if items.len() == 0 {
        Seq::empty()
    } else {
        match json_parse(items[0]) {
            Some(JsonV::Str(m)) => seq![mount_source(m)] + mount_sources(items.drop_first()),
            _ => Seq::empty(),
        }
    }
}

/// Where a game may be installed: the host folders of its runner's mounts,
/// in order. The game is installed in the first of them that identifies
/// itself. `None` when the runner is not JSON or has no list of mounts.
pub open spec fn spec_install_candidates(runner_json: Seq<char>) -> Option<Seq<Seq<char>>> {
    match json_parse(runner_json) {
        Some(v) => match at(v, "mounts"@) {
            JsonV::Array(items) => Some(mount_sources(items)),
            _ => None,
        },
        None => None,
    }
}

pub fn install_candidates(g: &Game) -> (r: Option<Vec<String>>)
    ensures
        match spec_install_candidates(g.runner_json@) {
            Some(c) => r matches Some(v) && views(v@) == c,
            None => r is None,
        },
{
    let runner = match Json::read(&g.runner_json) {
        Some(v) => v,
        None => return None,
    };
    let items = match runner.at("mounts") {
        Json::Array(items) => items,
        _ => return None,
    };
    let ghost iv = views(items@);
    let mut out: Vec<String> = Vec::new();
    let mut i: usize = 0;
    assert(iv.subrange(0, iv.len() as int) =~= iv);
    while i < items.len()
        invariant
            i <= items@.len(),
            iv == views(items@),
            spec_install_candidates(g.runner_json@) == Some(mount_sources(iv)),
            mount_sources(iv) == views(out@) + mount_sources(iv.subrange(i as int, iv.len() as int)),
        decreases items.len() - i,
    {
        let ghost rest = iv.subrange(i as int, iv.len() as int);
        assert(rest.drop_first() =~= iv.subrange(i + 1, iv.len() as int));
        assert(rest[0] == items@[i as int]@);
        match Json::read(&items[i]) {
            Some(Json::Str(m)) => {
                let ghost before = views(out@);
                out.push(source_of(&m));
                assert(views(out@) =~= before.push(mount_source(m@)));
                assert(before + (seq![mount_source(m@)] + mount_sources(rest.drop_first())) =~= before.push(
                    mount_source(m@),
                ) + mount_sources(rest.drop_first()));
            },
            _ => {
                assert(views(out@) + Seq::<Seq<char>>::empty() =~= views(out@));
                return Some(out);
            },
        }
        i += 1;
    }
    assert(views(out@) + Seq::<Seq<char>>::empty() =~= views(out@));
    Some(out)
}

/// `out` is `game` refreshed from `meta`: the store's identity and metadata
/// written as `apply_store_metadata` writes them, the Steam appid it was
/// known by kept, and every other field as it was.
pub open spec fn refreshed_game(game: Game, identity: Identity, meta: Metadata, out: Game) -> bool {
    &&& out.store@ == identity.store@
    &&& out.store_id@ == identity.store_id@
    &&& out.title@ == (if meta.title@.len() > 0 { meta.title@ } else { game.title@ })
    &&& out.slug@ == meta.slug@
    &&& out.release_date@ == meta.release_date@
    &&& out.description@ == meta.description@
    &&& out.steam_appid@ == game.steam_appid@
    &&& out.appid_source@ == game.appid_source@
    &&& out == (Game {
        store: out.store,
        store_id: out.store_id,
        title: out.title,
        slug: out.slug,
        release_date: out.release_date,
        description: out.description,
        steam_appid: out.steam_appid,
        appid_source: out.appid_source,
        ..game
    })
}

/// The art URLs a refresh tries for `out`, best first.
pub open spec fn refresh_art_urls(identity: Identity, meta: Metadata, out: Game) -> Seq<Seq<char>> {
    spec_art_urls_for(identity.store@, identity.store_id@, art_candidate_urls(out, views(meta.art_urls@)))
}

/// Refreshes a game from its store: looks its identity up through `source`,
/// writes what was found onto the game, and fetches art for it into
/// `art_dir`. The Steam appid used for art is the one an admin set: no
/// search for one is made, and no details are fetched from Steam or
/// ProtonDB. Only a failed lookup fails the refresh; when no art can be had
/// the game keeps its metadata and no art comes back. The caller stores the
/// game, and writes the art (pointing the game's icon at it) when there is
/// some.
pub fn refresh<S: Source>(source: &S, game: Game, identity: &Identity, art_dir: &str) -> (r: Result<(Game, Option<Art>), ApiError>)
    ensures
        r matches Err(e) ==> looked_up(source, *identity, Err(e)),
        r matches Ok((out, art)) ==> exists|meta: Metadata| #[trigger] looked_up(source, *identity, Ok(meta))
            && refreshed_game(game, *identity, meta, out)
            && match art {
                Some(a) => first_served(source, art_dir@, game.id@, refresh_art_urls(*identity, meta, out), a),
                None => no_art(source, refresh_art_urls(*identity, meta, out)),
            },
{
    let mut meta = match lookup(source, identity) {
        Ok(m) => m,
        Err(e) => return Err(e),
    };
    let ghost found = meta;
    let g0 = apply_store_metadata(game, identity, &meta);
    let g = match known_appid(&g0, None) {
        Some((appid, how)) => apply_steam(g0, appid, how, None),
        None => g0,
    };
    meta.art_urls = art_candidates(&g, &meta.art_urls);
    let urls = art_urls_for(identity, &meta);
    let art = match fetch_art(source, art_dir, g.id.as_str(), &urls) {
        Ok(a) => Some(a),
        Err(_) => None,
    };
    proof {
        assert(refreshed_game(game, *identity, found, g));
        assert(views(urls@) == refresh_art_urls(*identity, found, g));
    }
    Ok((g, art))
}

} // verus!
