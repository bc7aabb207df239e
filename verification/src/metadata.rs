//! What the metadata pipeline finds out about a game, where its art comes
//! from, and where the art is cached. Fetching is done through a `Source`,
//! which the application implements over HTTP and tests implement with
//! canned answers.
use vstd::prelude::*;
use crate::error::{ApiError, INTERNAL_SERVER_ERROR, NOT_FOUND};
use crate::identity::Identity;
use crate::apps::opt_view;
use crate::json::{self, Json, JsonV, at, json_parse, str_at, str_or_empty};
use crate::storage::{join, path_join};
use crate::text::{cat, contains, contains_seq, eq, has_prefix, own, slice, spec_strip_prefix, starts_with, strip_prefix, views};
use vstd::string::*;

verus! {

/// What the pipeline found out about a game.
#[derive(Debug)]
pub struct Metadata {
    pub title: String,
    pub slug: String,
    pub release_date: String,
    pub description: String,
    /// Remote art, best first.
    pub art_urls: Vec<String>,
}

impl Default for Metadata {
    fn default() -> (m: Metadata)
        ensures
            m.title@.len() == 0 && m.slug@.len() == 0 && m.release_date@.len() == 0 && m.description@.len() == 0
                && m.art_urls@.len() == 0,
    {
        Metadata { title: String::new(), slug: String::new(), release_date: String::new(), description: String::new(), art_urls: Vec::new() }
    }
}

/// A protocol-relative URL made absolute over HTTPS; any other URL as it is.
/// Nothing is appended: GOG's URLs already carry their own suffix.
pub open spec fn spec_absolute(url: Seq<char>) -> Seq<char> {
    match spec_strip_prefix(url, "//"@) {
        Some(rest) => "https://"@ + rest,
        None => url,
    }
}

pub fn absolute(url: &str) -> (r: String)
    ensures
        r@ == spec_absolute(url@),
{
    match strip_prefix(url, "//") {
        Some(rest) => cat("https://", rest.as_str()),
        None => own(url),
    }
}

/// The image keys of GOG's product answer, best first: the 2x logo is the
/// only asset with enough resolution for a large tile.
pub open spec fn gog_image_keys() -> Seq<Seq<char>> {
    seq!["logo2x"@, "logo"@, "background"@, "icon"@]
}

/// The art URLs in GOG's `images` object, in key order, made absolute.
pub open spec fn gog_art(images: JsonV) -> Seq<Seq<char>> {
    gog_image_keys().filter(|k: Seq<char>| str_at(images, k) is Some).map_values(
        |k: Seq<char>| spec_absolute(str_at(images, k)->Some_0),
    )
}

/// `m` is what GOG's product answer `v` says.
pub open spec fn gog_metadata(v: JsonV, m: Metadata) -> bool {
    &&& m.title@ == str_or_empty(v, "title"@)
    &&& m.slug@ == str_or_empty(v, "slug"@)
    &&& m.release_date@ == str_or_empty(v, "release_date"@)
    &&& m.description@ == str_or_empty(at(v, "description"@), "lead"@)
    &&& views(m.art_urls@) == gog_art(at(v, "images"@))
}

/// Reads GOG's answer to a product query.
pub fn parse_gog(body: &str) -> (r: Result<Metadata, ApiError>)
    ensures
        match r {
            Ok(m) => json_parse(body@) matches Some(v) && gog_metadata(v, m),
            Err(e) => json_parse(body@) is None && e.0 == INTERNAL_SERVER_ERROR && has_prefix(e.1@, "gog json: "@),
        },
{
    let v = match json::parse(body) {
        Ok(v) => v,
        Err(e) => {
            let msg = cat("gog json: ", e.as_str());
            proof { assert(msg@.subrange(0, "gog json: "@.len() as int) =~= "gog json: "@); }
            return Err(ApiError::internal(msg.as_str()));
        },
    };
    let images = v.at("images");
    let keys = ["logo2x", "logo", "background", "icon"];
    let mut art_urls: Vec<String> = Vec::new();
    let ghost ks = gog_image_keys();
    let ghost keep = |k: Seq<char>| str_at(images@, k) is Some;
    let ghost abs_of = |k: Seq<char>| spec_absolute(str_at(images@, k)->Some_0);
    proof {
        reveal_strlit("logo2x");
        reveal_strlit("logo");
        reveal_strlit("background");
        reveal_strlit("icon");
        reveal_with_fuel(Seq::<Seq<char>>::filter, 1);
        assert(ks.take(0) =~= Seq::<Seq<char>>::empty());
        assert(views(art_urls@) =~= ks.take(0).filter(keep).map_values(abs_of));
    }
    let mut i: usize = 0;
    while i < 4
        invariant
            i <= 4,
            keys@.len() == 4,
            ks == gog_image_keys(),
            forall|j: int| 0 <= j < 4 ==> (#[trigger] keys@[j])@ == ks[j],
            keep == (|k: Seq<char>| str_at(images@, k) is Some),
            abs_of == (|k: Seq<char>| spec_absolute(str_at(images@, k)->Some_0)),
            views(art_urls@) == ks.take(i as int).filter(keep).map_values(abs_of),
        decreases 4 - i,
    {
        proof {
            reveal_with_fuel(Seq::<Seq<char>>::filter, 1);
            assert(ks.take(i + 1).drop_last() =~= ks.take(i as int));
            assert(ks.take(i + 1).last() == ks[i as int]);
        }
        let ghost f = ks.take(i as int).filter(keep);
        let ghost before = views(art_urls@);
        match images.str_at(keys[i]) {
            Some(u) => {
                let a = absolute(u.as_str());
                art_urls.push(a);
                proof {
                    assert(ks.take(i + 1).filter(keep) == f.push(ks[i as int]));
                    assert(f.push(ks[i as int]).map_values(abs_of) =~= f.map_values(abs_of).push(abs_of(ks[i as int])));
                    assert(views(art_urls@) =~= before.push(abs_of(ks[i as int])));
                }
            },
            None => {
                assert(ks.take(i + 1).filter(keep) == f);
            },
        }
        i += 1;
    }
    assert(ks.take(4) =~= ks);
    let m = Metadata {
        title: v.str_or_empty("title"),
        slug: v.str_or_empty("slug"),
        release_date: v.str_or_empty("release_date"),
        description: v.at("description").str_or_empty("lead"),
        art_urls,
    };
    Ok(m)
}

pub open spec fn spec_gog_product_url(store_id: Seq<char>) -> Seq<char> {
    "https://api.gog.com/products/"@ + store_id + "?expand=description"@
}

pub fn gog_product_url(store_id: &str) -> (r: String)
    ensures
        r@ == spec_gog_product_url(store_id@),
{
    let a = cat("https://api.gog.com/products/", store_id);
    cat(a.as_str(), "?expand=description")
}

/// GOG's v2 game record, the only place its portrait box art is listed.
pub open spec fn spec_gog_boxart_url(store_id: Seq<char>) -> Seq<char> {
    "https://api.gog.com/v2/games/"@ + store_id
}

pub fn gog_boxart_url(store_id: &str) -> (r: String)
    ensures
        r@ == spec_gog_boxart_url(store_id@),
{
    cat("https://api.gog.com/v2/games/", store_id)
}

/// The box art link in GOG's v2 game record: `_links.boxArtImage.href`.
pub open spec fn spec_gog_boxart(body: Seq<char>) -> Option<Seq<char>> {
    match json_parse(body) {
        Some(v) => str_at(at(at(v, "_links"@), "boxArtImage"@), "href"@),
        None => None,
    }
}

pub fn parse_gog_boxart(body: &str) -> (r: Option<String>)
    ensures
        match r {
            Some(u) => spec_gog_boxart(body@) == Some(u@),
            None => spec_gog_boxart(body@) is None,
        },
{
    match json::parse(body) {
        Ok(v) => v.at("_links").at("boxArtImage").str_at("href"),
        Err(_) => None,
    }
}

pub open spec fn steam_art_files() -> Seq<Seq<char>> {
    seq!["library_600x900_2x.jpg"@, "library_600x900.jpg"@, "header.jpg"@]
}

pub open spec fn steam_art_url(appid: Seq<char>, file: Seq<char>) -> Seq<char> {
    "https://cdn.cloudflare.steamstatic.com/steam/apps/"@ + appid + "/"@ + file
}

/// Steam's art for an app, portrait box art first.
pub open spec fn spec_steam_art_urls(appid: Seq<char>) -> Seq<Seq<char>> {
    steam_art_files().map_values(|f: Seq<char>| steam_art_url(appid, f))
}

fn steam_url(appid: &str, file: &str) -> (r: String)
    ensures
        r@ == steam_art_url(appid@, file@),
{
    let a = cat("https://cdn.cloudflare.steamstatic.com/steam/apps/", appid);
    let b = cat(a.as_str(), "/");
    cat(b.as_str(), file)
}

/// Steam publishes portrait box art with no key and no lookup.
pub fn steam_art_urls(appid: &str) -> (r: Vec<String>)
    ensures
        views(r@) == spec_steam_art_urls(appid@),
{
    let mut v: Vec<String> = Vec::new();
    v.push(steam_url(appid, "library_600x900_2x.jpg"));
    v.push(steam_url(appid, "library_600x900.jpg"));
    v.push(steam_url(appid, "header.jpg"));
    assert(views(v@) =~= spec_steam_art_urls(appid@));
    v
}

/// Steam games use Steam's own art; every other store's art comes from its
/// metadata.
pub open spec fn spec_art_urls_for(store: Seq<char>, store_id: Seq<char>, meta_urls: Seq<Seq<char>>) -> Seq<Seq<char>> {
    if store == "steam"@ {
        spec_steam_art_urls(store_id)
    } else {
        meta_urls
    }
}

fn copy_all(v: &Vec<String>) -> (r: Vec<String>)
    ensures
        views(r@) == views(v@),
{
    let mut out: Vec<String> = Vec::new();
    let mut i: usize = 0;
    while i < v.len()
        invariant
            i <= v@.len(),
            views(out@) == views(v@).take(i as int),
        decreases v.len() - i,
    {
        let ghost before = views(out@);
        out.push(own(v[i].as_str()));
        assert(views(out@) =~= before.push(v@[i as int]@));
        assert(views(v@).take(i + 1) =~= views(v@).take(i as int).push(v@[i as int]@));
        i += 1;
    }
    assert(views(v@).take(v@.len() as int) =~= views(v@));
    out
}

pub fn art_urls_for(identity: &Identity, meta: &Metadata) -> (r: Vec<String>)
    ensures
        views(r@) == spec_art_urls_for(identity.store@, identity.store_id@, views(meta.art_urls@)),
{
    if eq(identity.store.as_str(), "steam") {
        steam_art_urls(identity.store_id.as_str())
    } else {
        copy_all(&meta.art_urls)
    }
}

/// Where a game's cached art lives: keyed by app id, never by title, so a
/// rename does not orphan it.
pub open spec fn spec_art_path(cache_dir: Seq<char>, app_id: Seq<char>, ext: Seq<char>) -> Seq<char> {
    path_join(cache_dir, app_id + "."@ + ext)
}

pub fn art_path(cache_dir: &str, app_id: &str, ext: &str) -> (r: String)
    ensures
        r@ == spec_art_path(cache_dir@, app_id@, ext@),
{
    let a = cat(app_id, ".");
    let name = cat(a.as_str(), ext);
    join(cache_dir, name.as_str())
}

/// The file extension for what a server says it served.
pub open spec fn spec_extension_for(content_type: Seq<char>) -> Seq<char> {
    if contains_seq(content_type, "png"@) {
        "png"@
    } else if contains_seq(content_type, "webp"@) {
        "webp"@
    } else {
        "jpg"@
    }
}

pub fn extension_for(content_type: &str) -> (r: &'static str)
    ensures
        r@ == spec_extension_for(content_type@),
{
    if contains(content_type, "png") {
        "png"
    } else if contains(content_type, "webp") {
        "webp"
    } else {
        "jpg"
    }
}

/// Fetches metadata and art. Implemented by the application over HTTP, and
/// by tests with canned answers.
pub trait Source {
    /// The body at `url`.
    fn get_text(&self, url: &str) -> Result<String, ApiError>;

    /// The bytes at `url` and the content type they were served with.
    fn get_bytes(&self, url: &str) -> Result<(Vec<u8>, String), ApiError>;
}

/// Whether `answer` is something `source` may give when asked for the text
/// at `url`.
pub open spec fn text_answer<S: Source>(source: &S, url: Seq<char>, answer: Result<String, ApiError>) -> bool {
    exists|u: &str| u@ == url && #[trigger] call_ensures(S::get_text, (source, u), answer)
}

/// Whether `answer` is something `source` may give when asked for the bytes
/// at `url`.
pub open spec fn bytes_answer<S: Source>(source: &S, url: Seq<char>, answer: Result<(Vec<u8>, String), ApiError>) -> bool {
    exists|u: &str| u@ == url && #[trigger] call_ensures(S::get_bytes, (source, u), answer)
}

/// Asks `source` for the text at `url`. The call goes through the method
/// as a value, so that what comes back is known to be an answer the
/// source's implementation may give for that URL.
fn ask_text<S: Source>(source: &S, url: &str) -> (r: Result<String, ApiError>)
    ensures
        text_answer(source, url@, r),
{
    let get = S::get_text;
    get(source, url)
}

/// Asks `source` for the bytes at `url`, as `ask_text` asks for text.
fn ask_bytes<S: Source>(source: &S, url: &str) -> (r: Result<(Vec<u8>, String), ApiError>)
    ensures
        bytes_answer(source, url@, r),
{
    let get = S::get_bytes;
    get(source, url)
}

/// The box art link in a v2 answer, if it answered and lists one.
pub open spec fn boxart_of(answer: Result<String, ApiError>) -> Option<Seq<char>> {
    match answer {
        Ok(t) => spec_gog_boxart(t@),
        Err(_) => None,
    }
}

/// What a GOG lookup through `source` may give: the product record asked for
/// at the product URL, then (only when it answered) the v2 record asked for
/// at the box art URL, put together as `gog_lookup` says.
pub open spec fn gog_lookup_via<S: Source>(source: &S, store_id: Seq<char>, r: Result<Metadata, ApiError>) -> bool {
    exists|p: Result<String, ApiError>, b: Option<String>|
        #![trigger gog_lookup(p, b, r)]
        text_answer(source, spec_gog_product_url(store_id), p)
        && (p is Ok ==> exists|v2: Result<String, ApiError>|
            #[trigger] text_answer(source, spec_gog_boxart_url(store_id), v2) && opt_view(b) == boxart_of(v2))
        && (p is Err ==> b is None)
        && gog_lookup(p, b, r)
}

/// What a GOG lookup gives, from GOG's product answer and its box art link:
/// the product answer read, with the box art (when there is some) put first.
pub open spec fn gog_lookup(product: Result<String, ApiError>, box_art: Option<String>, r: Result<Metadata, ApiError>) -> bool {
    match product {
        Err(e) => r matches Err(x) && x.0 == e.0 && x.1@ == e.1@,
        Ok(body) => match json_parse(body@) {
            None => r matches Err(x) && x.0 == INTERNAL_SERVER_ERROR,
            Some(v) => r matches Ok(m) && m.title@ == str_or_empty(v, "title"@) && m.slug@ == str_or_empty(v, "slug"@)
                && m.release_date@ == str_or_empty(v, "release_date"@)
                && m.description@ == str_or_empty(at(v, "description"@), "lead"@)
                && views(m.art_urls@) == match box_art {
                    Some(b) => seq![b@] + gog_art(at(v, "images"@)),
                    None => gog_art(at(v, "images"@)),
                },
        },
    }
}

/// Metadata for a GOG game from what its lookups returned.
pub fn gog_metadata_from(product: Result<String, ApiError>, box_art: Option<String>) -> (r: Result<Metadata, ApiError>)
    ensures
        gog_lookup(product, box_art, r),
{
    let body = match product {
        Ok(b) => b,
        Err(e) => return Err(e),
    };
    let mut meta = parse_gog(body.as_str())?;
    match box_art {
        Some(b) => {
            let ghost before = views(meta.art_urls@);
            meta.art_urls.insert(0, b);
            assert(views(meta.art_urls@) =~= seq![meta.art_urls@[0]@] + before);
        },
        None => {},
    }
    Ok(meta)
}

/// What looking up `identity` through `source` may give: for Steam, the
/// game's own title and nothing else; for GOG, what `gog_lookup_via` says;
/// for any other store, an error naming it.
pub open spec fn looked_up<S: Source>(source: &S, identity: Identity, r: Result<Metadata, ApiError>) -> bool {
    if identity.store@ == "steam"@ {
        r matches Ok(m) && m.title@ == identity.title@ && m.slug@.len() == 0 && m.release_date@.len() == 0
            && m.description@.len() == 0 && m.art_urls@.len() == 0
    } else if identity.store@ == "gog"@ {
        gog_lookup_via(source, identity.store_id@, r)
    } else {
        r matches Err(e) && e.0 == INTERNAL_SERVER_ERROR && e.1@ == "no metadata source for "@ + identity.store@
    }
}

/// Metadata for an identified game. GOG is asked for its product record and
/// box art (box art failing keeps the rest); Steam needs no lookup, its
/// appid being the key to its art; any other store has no source.
pub fn lookup<S: Source>(source: &S, identity: &Identity) -> (r: Result<Metadata, ApiError>)
    ensures
        looked_up(source, *identity, r),
{
    proof {
        reveal_strlit("gog");
        reveal_strlit("steam");
        assert("gog"@.len() != "steam"@.len());
    }
    if eq(identity.store.as_str(), "gog") {
        let product = ask_text(source, gog_product_url(identity.store_id.as_str()).as_str());
        let product = match product {
            Ok(body) => body,
            Err(e) => {
                let ghost p = Err::<String, ApiError>(e);
                let r = gog_metadata_from(Err(e), None);
                proof {
                    assert(gog_lookup(p, None, r));
                }
                return r;
            },
        };
        let v2 = ask_text(source, gog_boxart_url(identity.store_id.as_str()).as_str());
        let ghost v2_answer = v2;
        let box_art = match v2 {
            Ok(b) => parse_gog_boxart(b.as_str()),
            Err(_) => None,
        };
        let ghost p = Ok::<String, ApiError>(product);
        let r = gog_metadata_from(Ok(product), box_art);
        proof {
            assert(opt_view(box_art) == boxart_of(v2_answer));
            assert(gog_lookup(p, box_art, r));
        }
        r
    } else if eq(identity.store.as_str(), "steam") {
        Ok(Metadata {
            title: own(identity.title.as_str()),
            slug: String::new(),
            release_date: String::new(),
            description: String::new(),
            art_urls: Vec::new(),
        })
    } else {
        let msg = cat("no metadata source for ", identity.store.as_str());
        Err(ApiError::internal(msg.as_str()))
    }
}

/// Whether `source` may fail when asked for the bytes at `url`.
pub open spec fn fails_at<S: Source>(source: &S, url: Seq<char>) -> bool {
    exists|e: ApiError| #[trigger] bytes_answer(source, url, Err(e))
}

/// The art found for a game: the file to write and its bytes.
#[derive(Debug)]
pub struct Art {
    pub path: String,
    pub bytes: Vec<u8>,
}

/// Whether `art` is what the first of `urls` that answered served: every
/// URL before it failed, and the file is named after the content type that
/// came with the bytes.
pub open spec fn first_served<S: Source>(source: &S, cache_dir: Seq<char>, app_id: Seq<char>, urls: Seq<Seq<char>>, art: Art) -> bool {
    exists|i: int, ct: String|
        #![trigger bytes_answer(source, urls[i], Ok((art.bytes, ct)))]
        0 <= i < urls.len()
        && (forall|j: int| 0 <= j < i ==> fails_at(source, #[trigger] urls[j]))
        && bytes_answer(source, urls[i], Ok((art.bytes, ct)))
        && art.path@ == spec_art_path(cache_dir, app_id, spec_extension_for(ct@))
}

/// Whether no art is to be had from `urls`: there are none, or every one
/// may fail.
pub open spec fn no_art<S: Source>(source: &S, urls: Seq<Seq<char>>) -> bool {
    forall|j: int| 0 <= j < urls.len() ==> fails_at(source, #[trigger] urls[j])
}

/// Downloads the first art URL that works: tries in order rather than
/// failing on the first miss, since stores rotate assets. The caller writes
/// the bytes to the path returned. A found file holds what the first URL that
/// answered served, named after the app and the content type it was served
/// with; when none answers, the error names the last failure.
pub fn fetch_art<S: Source>(source: &S, cache_dir: &str, app_id: &str, urls: &Vec<String>) -> (r: Result<Art, ApiError>)
    ensures
        urls@.len() == 0 ==> (r matches Err(e) && e.0 == NOT_FOUND && e.1@ == "no art available for this game"@),
        r matches Ok(a) ==> first_served(source, cache_dir@, app_id@, views(urls@), a),
        r is Err ==> no_art(source, views(urls@)),
        urls@.len() > 0 && r is Err ==> (r matches Err(e) && e.0 == NOT_FOUND
            && exists|last: ApiError| #[trigger] bytes_answer(source, urls@.last()@, Err(last))
                && e.1@ == "no art source worked (last error: "@ + last.1@ + ")"@),
{
    if urls.len() == 0 {
        return Err(ApiError::not_found("no art available for this game"));
    }
    let mut last = String::new();
    let ghost mut last_err: ApiError = arbitrary();
    let mut i: usize = 0;
    while i < urls.len()
        invariant
            0 < urls@.len(),
            i <= urls@.len(),
            forall|j: int| 0 <= j < i ==> fails_at(source, #[trigger] urls@[j]@),
            i > 0 ==> bytes_answer(source, urls@[i - 1]@, Err(last_err)) && last@ == last_err.1@,
        decreases urls.len() - i,
    {
        let answer = ask_bytes(source, urls[i].as_str());
        match answer {
            Ok((bytes, content_type)) => {
                let path = art_path(cache_dir, app_id, extension_for(content_type.as_str()));
                let ghost ct = content_type;
                let art = Art { path, bytes };
                proof {
                    assert(bytes_answer(source, views(urls@)[i as int], Ok((art.bytes, ct))));
                }
                return Ok(art);
            },
            Err(e) => {
                proof {
                    last_err = e;
                    assert(fails_at(source, urls@[i as int]@));
                }
                last = e.1;
            },
        }
        i += 1;
    }
    let a = cat("no art source worked (last error: ", last.as_str());
    let msg = cat(a.as_str(), ")");
    proof {
        assert(urls@.last() == urls@[urls@.len() - 1]);
    }
    Err(ApiError::not_found(msg.as_str()))
}

} // verus!
