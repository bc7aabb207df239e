//! What a game install says about itself. Every store leaves a manifest in
//! the install folder, so browsing to a folder identifies the game outright.
//! Reading directories and files is the caller's part: it hands in the
//! listings, with the contents of the manifests it was asked for.
use vstd::prelude::*;
use crate::json::{self, JsonV, json_parse, str_at};
use crate::text::{
    chars_of, ends_with, has_prefix, has_suffix, lines, own, slice, spec_lines, spec_strip_prefix, spec_trim,
    starts_with, strip_prefix, trim, views,
};
use vstd::string::*;

verus! {

/// A store's identity for a game.
#[derive(Clone, Debug)]
pub struct Identity {
    /// `gog` or `steam`.
    pub store: String,
    pub store_id: String,
    /// The store's own title, punctuation included.
    pub title: String,
}

/// One directory entry: its name and, for a manifest, what reading it gave
/// (`None` when it could not be read).
#[derive(Debug)]
pub struct ManifestFile {
    pub name: String,
    pub body: Option<String>,
}

pub open spec fn entry_views(es: Seq<ManifestFile>) -> Seq<(Seq<char>, Option<Seq<char>>)> {
    es.map_values(|e: ManifestFile| (e.name@, match e.body { Some(b) => Some(b@), None => None }))
}

/// GOG writes `goggame-<id>.info`.
pub open spec fn is_gog_manifest_name(name: Seq<char>) -> bool {
    has_prefix(name, "goggame-"@) && has_suffix(name, ".info"@)
}

/// Steam writes `appmanifest_<appid>.acf`.
pub open spec fn is_steam_manifest_name(name: Seq<char>) -> bool {
    has_prefix(name, "appmanifest_"@) && has_suffix(name, ".acf"@)
}

pub fn is_gog_manifest(name: &str) -> (r: bool)
    ensures
        r == is_gog_manifest_name(name@),
{
    starts_with(name, "goggame-") && ends_with(name, ".info")
}

pub fn is_steam_manifest(name: &str) -> (r: bool)
    ensures
        r == is_steam_manifest_name(name@),
{
    starts_with(name, "appmanifest_") && ends_with(name, ".acf")
}

/// What a GOG manifest gives: the base game's id (`rootGameId`, else
/// `gameId`) and the `name`. `None` when the text is not JSON or names no id.
pub open spec fn gog_fields(body: Seq<char>) -> Option<(Seq<char>, Seq<char>)> {
    match json_parse(body) {
        None => None,
        Some(v) => {
            let id = match str_at(v, "rootGameId"@) {
                Some(x) => Some(x),
                None => str_at(v, "gameId"@),
            };
            match id {
                None => None,
                Some(id) => Some((id, match str_at(v, "name"@) { Some(n) => n, None => Seq::empty() })),
            }
        },
    }
}

/// The GOG identity a folder listing gives: the first manifest naming a
/// non-empty id. A manifest that cannot be read, is not JSON, or names no id
/// at all ends the search with nothing.
pub open spec fn gog_scan(es: Seq<(Seq<char>, Option<Seq<char>>)>) -> Option<(Seq<char>, Seq<char>)>
    decreases es.len(),
{
    if es.len() == 0 {
        None
    } else if !is_gog_manifest_name(es[0].0) {
        gog_scan(es.drop_first())
    } else {
        match es[0].1 {
            None => None,
            Some(body) => match gog_fields(body) {
                None => None,
                Some((id, title)) => if id.len() == 0 { gog_scan(es.drop_first()) } else { Some((id, title)) },
            },
        }
    }
}

/// The identity GOG's manifest gives, from a listing of the folder (`None`
/// when the folder could not be listed).
pub fn gog(listing: &Option<Vec<ManifestFile>>) -> (r: Option<Identity>)
    ensures
        match r {
            Some(i) => listing matches Some(es) && i.store@ == "gog"@
                && gog_scan(entry_views(es@)) == Some((i.store_id@, i.title@)),
            None => listing is None || gog_scan(entry_views(listing->Some_0@)) is None,
        },
{
    let es = match listing {
        Some(es) => es,
        None => return None,
    };
    let ghost ev = entry_views(es@);
    let mut i: usize = 0;
    assert(ev.subrange(0, ev.len() as int) =~= ev);
    while i < es.len()
        invariant
            i <= es@.len(),
            *listing == Some(*es),
            ev == entry_views(es@),
            gog_scan(ev) == gog_scan(ev.subrange(i as int, ev.len() as int)),
        decreases es.len() - i,
    {
        let ghost rest = ev.subrange(i as int, ev.len() as int);
        assert(rest.drop_first() =~= ev.subrange(i + 1, ev.len() as int));
        assert(rest[0] == ev[i as int]);
        let e = &es[i];
        if is_gog_manifest(e.name.as_str()) {
            let body = match &e.body {
                Some(b) => b,
                None => return None,
            };
            let parsed = match json::parse(body.as_str()) {
                Ok(v) => v,
                Err(_) => return None,
            };
            let id = match parsed.str_at("rootGameId") {
                Some(x) => x,
                None => match parsed.str_at("gameId") {
                    Some(x) => x,
                    None => return None,
                },
            };
            let title = match parsed.str_at("name") {
                Some(n) => n,
                None => String::new(),
            };
            if id.unicode_len() > 0 {
                proof { reveal_strlit("gog"); }
                return Some(Identity { store: own("gog"), store_id: id, title });
            }
        }
        i += 1;
    }
    assert(ev.subrange(ev.len() as int, ev.len() as int) =~= Seq::<(Seq<char>, Option<Seq<char>>)>::empty());
    None
}

/// The value of a flat `"key"  "value"` line in Valve's ACF text: the first
/// line (trimmed) that starts with the quoted key followed, after white
/// space, by a quote; the value runs to the next quote or the line's end.
pub open spec fn acf_line_value(line: Seq<char>, key: Seq<char>) -> Option<Seq<char>> {
    let needle = seq!['"'] + key + seq!['"'];
    match spec_strip_prefix(spec_trim(line), needle) {
        None => None,
        Some(rest) => {
            let rest = spec_trim(rest);
            if !has_prefix(rest, seq!['"']) {
                None
            } else {
                let tail = rest.drop_first();
                Some(tail.take(until_quote(tail)))
            }
        },
    }
}

/// How many characters of `s` precede its first `"`.
pub open spec fn until_quote(s: Seq<char>) -> int
    decreases s.len(),
{
    if s.len() == 0 || s[0] == '"' {
        0
    } else {
        1 + until_quote(s.drop_first())
    }
}

pub open spec fn acf_scan(ls: Seq<Seq<char>>, key: Seq<char>) -> Option<Seq<char>>
    decreases ls.len(),
{
    if ls.len() == 0 {
        None
    } else {
        match acf_line_value(ls[0], key) {
            Some(v) => Some(v),
            None => acf_scan(ls.drop_first(), key),
        }
    }
}

pub open spec fn spec_acf_value(body: Seq<char>, key: Seq<char>) -> Option<Seq<char>> {
    acf_scan(spec_lines(body), key)
}

proof fn lemma_until_quote(s: Seq<char>, i: int)
    requires
        0 <= i <= s.len(),
        forall|j: int| 0 <= j < i ==> s[j] != '"',
        i == s.len() || s[i] == '"',
    ensures
        until_quote(s) == i,
    decreases i,
{
    if i > 0 {
        lemma_until_quote(s.drop_first(), i - 1);
    }
}

fn line_value(line: &str, needle: &str) -> (r: Option<String>)
    requires
        needle@.len() >= 2 && needle@[0] == '"' && needle@.last() == '"',
    ensures
        match r {
            Some(v) => acf_line_value(line@, needle@.subrange(1, needle@.len() - 1)) == Some(v@),
            None => acf_line_value(line@, needle@.subrange(1, needle@.len() - 1)) is None,
        },
{
    let ghost key = needle@.subrange(1, needle@.len() - 1);
    assert(seq!['"'] + key + seq!['"'] =~= needle@);
    let t = trim(line);
    let rest = match strip_prefix(t.as_str(), needle) {
        Some(r) => r,
        None => return None,
    };
    let rest = trim(rest.as_str());
    proof { reveal_strlit("\""); assert("\""@ =~= seq!['"']); }
    if !starts_with(rest.as_str(), "\"") {
        return None;
    }
    let v = chars_of(rest.as_str());
    let mut j: usize = 1;
    while j < v.len() && v[j] != '"'
        invariant
            v@ == rest@,
            1 <= j <= v@.len(),
            forall|k: int| 1 <= k < j ==> v@[k] != '"',
        decreases v.len() - j,
    {
        j += 1;
    }
    proof {
        let tail = rest@.drop_first();
        lemma_until_quote(tail, j - 1);
        assert(tail.take(j - 1) =~= rest@.subrange(1, j as int));
    }
    Some(slice(rest.as_str(), 1, j))
}

/// Reads a top-level `"key"  "value"` pair from ACF text.
pub fn acf_value(body: &str, key: &str) -> (r: Option<String>)
    ensures
        match r {
            Some(v) => spec_acf_value(body@, key@) == Some(v@),
            None => spec_acf_value(body@, key@) is None,
        },
{
    let q = own("\"");
    let mut needle = own("\"");
    needle.append(key);
    needle.append(q.as_str());
    proof {
        reveal_strlit("\"");
        assert(needle@.subrange(1, needle@.len() - 1) =~= key@);
    }
    let ls = lines(body);
    let ghost lv = views(ls@);
    let mut i: usize = 0;
    assert(lv.subrange(0, lv.len() as int) =~= lv);
    while i < ls.len()
        invariant
            i <= ls@.len(),
            lv == views(ls@),
            lv == spec_lines(body@),
            needle@.len() >= 2 && needle@[0] == '"' && needle@.last() == '"',
            needle@.subrange(1, needle@.len() - 1) == key@,
            spec_acf_value(body@, key@) == acf_scan(lv.subrange(i as int, lv.len() as int), key@),
        decreases ls.len() - i,
    {
        let ghost rest = lv.subrange(i as int, lv.len() as int);
        assert(rest.drop_first() =~= lv.subrange(i + 1, lv.len() as int));
        assert(rest[0] == ls@[i as int]@);
        match line_value(ls[i].as_str(), needle.as_str()) {
            Some(v) => return Some(v),
            None => {},
        }
        i += 1;
    }
    None
}

/// A directory that may hold Steam manifests: whether it is the folder
/// asked about itself, and its listing (`None` when it could not be listed).
#[derive(Debug)]
pub struct SteamDir {
    pub is_folder: bool,
    pub listing: Option<Vec<ManifestFile>>,
}

/// The outcome of scanning one directory's entries: keep looking, stop with
/// nothing, or a Steam identity (appid, title).
pub enum Scan {
    Continue,
    Stop,
    Found(Seq<char>, Seq<char>),
}

/// Scans Steam manifests: one whose `installdir` is the folder's own name
/// identifies the game (outside the folder itself, only such a one does);
/// one that cannot be read or has no `appid` stops the search.
pub open spec fn steam_scan(es: Seq<(Seq<char>, Option<Seq<char>>)>, is_folder: bool, wanted: Seq<char>) -> Scan
    decreases es.len(),
{
    if es.len() == 0 {
        Scan::Continue
    } else if !is_steam_manifest_name(es[0].0) {
        steam_scan(es.drop_first(), is_folder, wanted)
    } else {
        match es[0].1 {
            None => Scan::Stop,
            Some(body) => match spec_acf_value(body, "appid"@) {
                None => Scan::Stop,
                Some(appid) => {
                    let installdir = match spec_acf_value(body, "installdir"@) { Some(d) => d, None => Seq::empty() };
                    if !is_folder && installdir != wanted {
                        steam_scan(es.drop_first(), is_folder, wanted)
                    } else {
                        Scan::Found(appid, match spec_acf_value(body, "name"@) { Some(n) => n, None => installdir })
                    }
                },
            },
        }
    }
}

/// A readable Steam manifest that names an appid, installed under `dir`.
pub open spec fn manifest_for(e: (Seq<char>, Option<Seq<char>>), dir: Seq<char>) -> bool {
    is_steam_manifest_name(e.0) && e.1 is Some && spec_acf_value(e.1->Some_0, "appid"@) is Some
        && spec_acf_value(e.1->Some_0, "installdir"@) == Some(dir)
}

/// A readable Steam manifest that names an appid but is installed elsewhere
/// than `dir`.
pub open spec fn other_game_manifest(e: (Seq<char>, Option<Seq<char>>), dir: Seq<char>) -> bool {
    is_steam_manifest_name(e.0) && e.1 is Some && spec_acf_value(e.1->Some_0, "appid"@) is Some
        && spec_acf_value(e.1->Some_0, "installdir"@) != Some(dir)
}

/// In a directory above the folder, the manifest installed under the
/// folder's name identifies it, wherever it is listed: when every manifest
/// listed before it is another game's, readable and with an appid, the scan
/// finds that manifest's appid.
pub proof fn law_steam_finds_the_folders_manifest(es: Seq<(Seq<char>, Option<Seq<char>>)>, wanted: Seq<char>, k: int)
    requires
        wanted.len() > 0,
        0 <= k < es.len(),
        manifest_for(es[k], wanted),
        forall|j: int| 0 <= j < k && is_steam_manifest_name(#[trigger] es[j].0) ==> other_game_manifest(es[j], wanted),
    ensures
        steam_scan(es, false, wanted) matches Scan::Found(appid, _)
            && Some(appid) == spec_acf_value(es[k].1->Some_0, "appid"@),
    decreases k,
{
    if k > 0 {
        assert forall|j: int| 0 <= j < k - 1 && is_steam_manifest_name(#[trigger] es.drop_first()[j].0)
            implies other_game_manifest(es.drop_first()[j], wanted) by {
            assert(es.drop_first()[j] == es[j + 1]);
        }
        law_steam_finds_the_folders_manifest(es.drop_first(), wanted, k - 1);
        if is_steam_manifest_name(es[0].0) {
            assert(other_game_manifest(es[0], wanted));
            let body = es[0].1->Some_0;
            let installdir = match spec_acf_value(body, "installdir"@) { Some(d) => d, None => Seq::<char>::empty() };
            assert(installdir != wanted);
        }
    }
}

/// Another game's manifest listed first changes nothing, in a directory
/// above the folder: the scan goes on to the rest of the listing.
pub proof fn law_other_games_manifests_are_passed_over(
    other: (Seq<char>, Option<Seq<char>>),
    es: Seq<(Seq<char>, Option<Seq<char>>)>,
    wanted: Seq<char>,
)
    requires
        wanted.len() > 0,
        other_game_manifest(other, wanted),
    ensures
        steam_scan(seq![other] + es, false, wanted) == steam_scan(es, false, wanted),
{
    let s = seq![other] + es;
    assert(s[0] == other);
    assert(s.drop_first() =~= es);
    let body = other.1->Some_0;
    let installdir = match spec_acf_value(body, "installdir"@) { Some(d) => d, None => Seq::<char>::empty() };
    assert(installdir != wanted);
}

pub open spec fn steam_dirs_scan(dirs: Seq<SteamDir>, wanted: Seq<char>) -> Option<(Seq<char>, Seq<char>)>
    decreases dirs.len(),
{
    if dirs.len() == 0 {
        None
    } else {
        match dirs[0].listing {
            None => None,
            Some(es) => match steam_scan(entry_views(es@), dirs[0].is_folder, wanted) {
                Scan::Stop => None,
                Scan::Found(a, t) => Some((a, t)),
                Scan::Continue => steam_dirs_scan(dirs.drop_first(), wanted),
            },
        }
    }
}

fn steam_dir(es: &Vec<ManifestFile>, is_folder: bool, wanted: &str) -> (r: Result<Option<Identity>, ()>)
    ensures
        match r {
            Ok(Some(i)) => i.store@ == "steam"@ && steam_scan(entry_views(es@), is_folder, wanted@) == Scan::Found(i.store_id@, i.title@),
            Ok(None) => steam_scan(entry_views(es@), is_folder, wanted@) == Scan::Continue,
            Err(()) => steam_scan(entry_views(es@), is_folder, wanted@) == Scan::Stop,
        },
{
    let ghost ev = entry_views(es@);
    let mut i: usize = 0;
    assert(ev.subrange(0, ev.len() as int) =~= ev);
    while i < es.len()
        invariant
            i <= es@.len(),
            ev == entry_views(es@),
            steam_scan(ev, is_folder, wanted@) == steam_scan(ev.subrange(i as int, ev.len() as int), is_folder, wanted@),
        decreases es.len() - i,
    {
        let ghost rest = ev.subrange(i as int, ev.len() as int);
        assert(rest.drop_first() =~= ev.subrange(i + 1, ev.len() as int));
        assert(rest[0] == ev[i as int]);
        let e = &es[i];
        if is_steam_manifest(e.name.as_str()) {
            let body = match &e.body {
                Some(b) => b,
                None => return Err(()),
            };
            let appid = match acf_value(body.as_str(), "appid") {
                Some(a) => a,
                None => return Err(()),
            };
            let installdir = match acf_value(body.as_str(), "installdir") {
                Some(d) => d,
                None => String::new(),
            };
            if !is_folder && installdir.as_str().to_owned() != wanted.to_owned() {
            } else {
                let title = match acf_value(body.as_str(), "name") {
                    Some(n) => n,
                    None => installdir,
                };
                proof { reveal_strlit("steam"); }
                return Ok(Some(Identity { store: own("steam"), store_id: appid, title }));
            }
        }
        i += 1;
    }
    assert(ev.subrange(ev.len() as int, ev.len() as int) =~= Seq::<(Seq<char>, Option<Seq<char>>)>::empty());
    Ok(None)
}

/// The identity Steam's manifests give. Steam keeps `appmanifest_<appid>.acf`
/// in `steamapps/` while the install sits in `steamapps/common/<name>`, so
/// the folder and the two above it are looked in, in that order; `dirs`
/// holds those of them that are directories, and `wanted` is the folder's
/// own name (`None` when it has none, which identifies nothing).
pub fn steam(dirs: &Vec<SteamDir>, wanted: &Option<String>) -> (r: Option<Identity>)
    ensures
        match r {
            Some(i) => wanted matches Some(w) && i.store@ == "steam"@
                && steam_dirs_scan(dirs@, w@) == Some((i.store_id@, i.title@)),
            None => wanted is None || steam_dirs_scan(dirs@, wanted->Some_0@) is None,
        },
{
    let w = match wanted {
        Some(w) => w,
        None => return None,
    };
    let mut i: usize = 0;
    assert(dirs@.subrange(0, dirs@.len() as int) =~= dirs@);
    while i < dirs.len()
        invariant
            i <= dirs@.len(),
            *wanted == Some(*w),
            steam_dirs_scan(dirs@, w@) == steam_dirs_scan(dirs@.subrange(i as int, dirs@.len() as int), w@),
        decreases dirs.len() - i,
    {
        let ghost rest = dirs@.subrange(i as int, dirs@.len() as int);
        assert(rest.drop_first() =~= dirs@.subrange(i + 1, dirs@.len() as int));
        assert(rest[0] == dirs@[i as int]);
        let d = &dirs[i];
        let es = match &d.listing {
            Some(es) => es,
            None => return None,
        };
        match steam_dir(es, d.is_folder, w.as_str()) {
            Err(()) => return None,
            Ok(Some(id)) => return Some(id),
            Ok(None) => {},
        }
        i += 1;
    }
    assert(dirs@.subrange(dirs@.len() as int, dirs@.len() as int) =~= Seq::<SteamDir>::empty());
    None
}

/// GOG's manifest first, then Steam's: (store, id, title).
pub open spec fn detected(gog_listing: Option<Vec<ManifestFile>>, dirs: Seq<SteamDir>, wanted: Option<String>) -> Option<(Seq<char>, Seq<char>, Seq<char>)> {
    let from_gog = match gog_listing {
        Some(es) => gog_scan(entry_views(es@)),
        None => None,
    };
    match from_gog {
        Some((id, t)) => Some(("gog"@, id, t)),
        None => match wanted {
            None => None,
            Some(w) => match steam_dirs_scan(dirs, w@) {
                Some((a, t)) => Some(("steam"@, a, t)),
                None => None,
            },
        },
    }
}

/// Identifies a game folder: GOG's manifest first, then Steam's.
pub fn detect(gog_listing: &Option<Vec<ManifestFile>>, steam_dirs: &Vec<SteamDir>, wanted: &Option<String>) -> (r: Option<Identity>)
    ensures
        match r {
            Some(i) => detected(*gog_listing, steam_dirs@, *wanted) == Some((i.store@, i.store_id@, i.title@)),
            None => detected(*gog_listing, steam_dirs@, *wanted) is None,
        },
{
    match gog(gog_listing) {
        Some(i) => Some(i),
        None => steam(steam_dirs, wanted),
    }
}

} // verus!
