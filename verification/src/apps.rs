//! What clients are shown of the library, who may see which game, and how an
//! admin's edit of a game is applied.
use vstd::prelude::*;
use crate::error::{ApiError, BAD_REQUEST, NOT_FOUND};
use crate::library::Game;
use crate::text::{cat, chars_of, eq, has_prefix, slice, spec_trim, starts_with, trim, views};
use crate::storage::{components, path_components};
use vstd::string::*;
use crate::users::{User, role_is_admin};

verus! {

/// A game as a client sees it: no pipelines, no runner internals.
#[derive(Debug)]
pub struct ClientApp {
    pub id: String,
    pub title: String,
    pub support_hdr: bool,
    /// Always something a client can fetch.
    pub icon: Option<String>,
    pub description: Option<String>,
    pub release_date: Option<String>,
    pub store: Option<String>,
    /// Absent means the client decides, which is the default.
    pub controller_override: Option<String>,
    pub protondb_tier: Option<String>,
    pub tagline: Option<String>,
    pub developer: Option<String>,
    pub genres: Option<String>,
}

/// A game as the admin routes answer with it.
#[derive(Debug)]
pub struct AdminApp {
    pub id: String,
    pub title: String,
    pub support_hdr: bool,
    pub icon: Option<String>,
}

/// The body that sets who may see a game; empty means everyone.
pub struct SharesUpdate {
    pub user_ids: Vec<i64>,
}

/// The body of an admin's edit of a game. The id is never editable: shares
/// and every client's cached library are keyed by it.
pub struct AppEdit {
    pub title: Option<String>,
    pub icon: Option<String>,
    /// XBOX, PS, NINTENDO or AUTO, per title.
    pub controller_override: Option<String>,
    /// Which GPU runs this game.
    pub render_node: Option<String>,
}

pub open spec fn opt_view(o: Option<String>) -> Option<Seq<char>> {
    match o {
        Some(s) => Some(s@),
        None => None,
    }
}

/// A stored field as a client gets it: absent when blank.
pub open spec fn spec_blank_to_none(s: Seq<char>) -> Option<Seq<char>> {
    if s.len() == 0 { None } else { Some(s) }
}

pub fn blank_to_none(s: &str) -> (r: Option<String>)
    ensures
        opt_view(r) == spec_blank_to_none(s@),
{
    if s.unicode_len() == 0 {
        None
    } else {
        Some(s.to_string())
    }
}

pub open spec fn http_prefix() -> Seq<char> {
    seq!['h', 't', 't', 'p', ':', '/', '/']
}

pub open spec fn https_prefix() -> Seq<char> {
    seq!['h', 't', 't', 'p', 's', ':', '/', '/']
}

/// The icon a client is given. A stored icon is either a URL the store gave
/// (usable verbatim) or a file cached inside the streaming container, which
/// is meaningless to a client and so is served by this API's art route.
pub open spec fn spec_client_icon(icon: Seq<char>, id: Seq<char>) -> Option<Seq<char>> {
    let stored = spec_trim(icon);
    if stored.len() == 0 {
        None
    } else if has_prefix(stored, http_prefix()) || has_prefix(stored, https_prefix()) {
        Some(stored)
    } else {
        Some("/api/v1/apps/"@ + id + "/art"@)
    }
}

pub fn client_icon(g: &Game) -> (r: Option<String>)
    ensures
        opt_view(r) == spec_client_icon(g.icon_png_path@, g.id@),
{
    proof {
        reveal_strlit("http://");
        reveal_strlit("https://");
        assert("http://"@ =~= http_prefix());
        assert("https://"@ =~= https_prefix());
    }
    let stored = trim(&g.icon_png_path);
    if stored.unicode_len() == 0 {
        return None;
    }
    if starts_with(&stored, "http://") || starts_with(&stored, "https://") {
        return Some(stored);
    }
    let a = cat("/api/v1/apps/", &g.id);
    Some(cat(&a, "/art"))
}

/// `c` is what a client is shown of `g`.
pub open spec fn is_client_app_of(c: ClientApp, g: Game) -> bool {
    &&& c.id@ == g.id@
    &&& c.title@ == g.title@
    &&& c.support_hdr == g.support_hdr
    &&& opt_view(c.icon) == spec_client_icon(g.icon_png_path@, g.id@)
    &&& opt_view(c.description) == spec_blank_to_none(g.description@)
    &&& opt_view(c.release_date) == spec_blank_to_none(g.release_date@)
    &&& opt_view(c.store) == spec_blank_to_none(g.store@)
    &&& opt_view(c.controller_override) == spec_blank_to_none(g.controller_override@)
    &&& opt_view(c.protondb_tier) == spec_blank_to_none(g.protondb_tier@)
    &&& opt_view(c.tagline) == spec_blank_to_none(g.tagline@)
    &&& opt_view(c.developer) == spec_blank_to_none(g.developer@)
    &&& opt_view(c.genres) == spec_blank_to_none(g.genres@)
}

/// A client is given every stored detail of a game as it is stored, and is
/// given none of those left blank.
pub proof fn law_client_app_carries_stored_details(c: ClientApp, g: Game)
    requires
        is_client_app_of(c, g),
    ensures
        c.id@ == g.id@ && c.title@ == g.title@ && c.support_hdr == g.support_hdr,
        g.description@.len() > 0 ==> c.description is Some && c.description->Some_0@ == g.description@,
        g.description@.len() == 0 ==> c.description is None,
        g.release_date@.len() > 0 ==> c.release_date is Some && c.release_date->Some_0@ == g.release_date@,
        g.release_date@.len() == 0 ==> c.release_date is None,
        g.store@.len() > 0 ==> c.store is Some && c.store->Some_0@ == g.store@,
        g.store@.len() == 0 ==> c.store is None,
        g.controller_override@.len() > 0 ==> c.controller_override is Some
            && c.controller_override->Some_0@ == g.controller_override@,
        g.controller_override@.len() == 0 ==> c.controller_override is None,
        g.protondb_tier@.len() > 0 ==> c.protondb_tier is Some && c.protondb_tier->Some_0@ == g.protondb_tier@,
        g.protondb_tier@.len() == 0 ==> c.protondb_tier is None,
        g.tagline@.len() > 0 ==> c.tagline is Some && c.tagline->Some_0@ == g.tagline@,
        g.tagline@.len() == 0 ==> c.tagline is None,
        g.developer@.len() > 0 ==> c.developer is Some && c.developer->Some_0@ == g.developer@,
        g.developer@.len() == 0 ==> c.developer is None,
        g.genres@.len() > 0 ==> c.genres is Some && c.genres->Some_0@ == g.genres@,
        g.genres@.len() == 0 ==> c.genres is None,
{
}

pub fn client_app(g: &Game) -> (c: ClientApp)
    ensures
        is_client_app_of(c, *g),
        g.release_date@.len() > 0 ==> c.release_date is Some && c.release_date->Some_0@ == g.release_date@,
        g.description@.len() > 0 ==> c.description is Some && c.description->Some_0@ == g.description@,
        g.store@.len() > 0 ==> c.store is Some && c.store->Some_0@ == g.store@,
        g.controller_override@.len() > 0 ==> c.controller_override is Some
            && c.controller_override->Some_0@ == g.controller_override@,
        g.protondb_tier@.len() > 0 ==> c.protondb_tier is Some && c.protondb_tier->Some_0@ == g.protondb_tier@,
        g.tagline@.len() > 0 ==> c.tagline is Some && c.tagline->Some_0@ == g.tagline@,
        g.developer@.len() > 0 ==> c.developer is Some && c.developer->Some_0@ == g.developer@,
        g.genres@.len() > 0 ==> c.genres is Some && c.genres->Some_0@ == g.genres@,
{
    ClientApp {
        id: g.id.clone(),
        title: g.title.clone(),
        support_hdr: g.support_hdr,
        icon: client_icon(g),
        description: blank_to_none(&g.description),
        release_date: blank_to_none(&g.release_date),
        store: blank_to_none(&g.store),
        controller_override: blank_to_none(&g.controller_override),
        protondb_tier: blank_to_none(&g.protondb_tier),
        tagline: blank_to_none(&g.tagline),
        developer: blank_to_none(&g.developer),
        genres: blank_to_none(&g.genres),
    }
}

pub fn admin_app(g: &Game) -> (a: AdminApp)
    ensures
        a.id@ == g.id@,
        a.title@ == g.title@,
        a.support_hdr == g.support_hdr,
        opt_view(a.icon) == spec_client_icon(g.icon_png_path@, g.id@),
{
    AdminApp { id: g.id.clone(), title: g.title.clone(), support_hdr: g.support_hdr, icon: client_icon(g) }
}

/// The share rows: which user each restricted game is shared with.
pub open spec fn share_views(rows: Seq<(String, i64)>) -> Seq<(Seq<char>, i64)> {
    rows.map_values(|r: (String, i64)| (r.0@, r.1))
}

/// A game with no share rows is shared with everyone.
pub open spec fn restricted(rows: Seq<(Seq<char>, i64)>, app: Seq<char>) -> bool {
    exists|i: int| 0 <= i < rows.len() && #[trigger] rows[i].0 == app
}

pub open spec fn shared_with(rows: Seq<(Seq<char>, i64)>, app: Seq<char>, user: i64) -> bool {
    exists|i: int| 0 <= i < rows.len() && #[trigger] rows[i] == (app, user)
}

/// Who sees a game: everyone when it is unrestricted; otherwise admins and the
/// accounts it is shared with.
pub open spec fn can_see(rows: Seq<(Seq<char>, i64)>, app: Seq<char>, user: i64, admin: bool) -> bool {
    !restricted(rows, app) || admin || shared_with(rows, app, user)
}

pub fn sees(rows: &Vec<(String, i64)>, app_id: &str, user: &User) -> (r: bool)
    ensures
        r == can_see(share_views(rows@), app_id@, user.id, role_is_admin(user.role@)),
{
    let admin = user.is_admin();
    let ghost v = share_views(rows@);
    let mut any = false;
    let mut mine = false;
    let mut i: usize = 0;
    while i < rows.len()
        invariant
            i <= rows@.len(),
            v == share_views(rows@),
            any == exists|j: int| 0 <= j < i && #[trigger] v[j].0 == app_id@,
            mine == exists|j: int| 0 <= j < i && #[trigger] v[j] == (app_id@, user.id),
        decreases rows.len() - i,
    {
        let same = eq(&rows[i].0, app_id);
        assert(v[i as int] == (rows@[i as int].0@, rows@[i as int].1));
        if same {
            any = true;
            if rows[i].1 == user.id {
                mine = true;
            }
        }
        proof {
            if same {
                assert(v[i as int].0 == app_id@);
            }
            if mine {
                assert(exists|j: int| 0 <= j < i + 1 && #[trigger] v[j] == (app_id@, user.id));
            }
            if !mine {
                assert forall|j: int| 0 <= j < i + 1 implies #[trigger] v[j] != (app_id@, user.id) by {
                    if j == i {
                        assert(v[j].0 != app_id@ || v[j].1 != user.id);
                    }
                }
            }
        }
        i += 1;
    }
    !any || admin || mine
}

/// The games a user is shown, in library order.
pub open spec fn visible_games(gs: Seq<Game>, rows: Seq<(Seq<char>, i64)>, user: i64, admin: bool) -> Seq<Game>
    decreases gs.len(),
{
    if gs.len() == 0 {
        Seq::empty()
    } else {
        let rest = visible_games(gs.drop_last(), rows, user, admin);
        if can_see(rows, gs.last().id@, user, admin) { rest.push(gs.last()) } else { rest }
    }
}

/// The library as `user` may see it, trimmed for clients.
pub fn client_apps(games: &Vec<Game>, rows: &Vec<(String, i64)>, user: &User) -> (r: Vec<ClientApp>)
    ensures
        r@.len() == visible_games(games@, share_views(rows@), user.id, role_is_admin(user.role@)).len(),
        forall|i: int| 0 <= i < r@.len() ==> is_client_app_of(
            #[trigger] r@[i],
            visible_games(games@, share_views(rows@), user.id, role_is_admin(user.role@))[i],
        ),
{
    let ghost v = share_views(rows@);
    let ghost admin = role_is_admin(user.role@);
    let mut out: Vec<ClientApp> = Vec::new();
    let mut i: usize = 0;
    while i < games.len()
        invariant
            i <= games@.len(),
            v == share_views(rows@),
            admin == role_is_admin(user.role@),
            out@.len() == visible_games(games@.subrange(0, i as int), v, user.id, admin).len(),
            forall|k: int| 0 <= k < out@.len() ==> is_client_app_of(
                #[trigger] out@[k],
                visible_games(games@.subrange(0, i as int), v, user.id, admin)[k],
            ),
        decreases games.len() - i,
    {
        let ghost pre = games@.subrange(0, i as int);
        let ghost next = games@.subrange(0, i as int + 1);
        assert(next.drop_last() =~= pre);
        assert(next.last() == games@[i as int]);
        if sees(rows, &games[i].id, user) {
            let c = client_app(&games[i]);
            out.push(c);
        }
        i += 1;
    }
    assert(games@.subrange(0, games@.len() as int) =~= games@);
    out
}

/// An admin sees every game.
pub proof fn law_admins_see_everything(gs: Seq<Game>, rows: Seq<(Seq<char>, i64)>, user: i64)
    ensures
        visible_games(gs, rows, user, true) == gs,
    decreases gs.len(),
{
    if gs.len() > 0 {
        law_admins_see_everything(gs.drop_last(), rows, user);
        assert(gs.drop_last().push(gs.last()) =~= gs);
    }
}

/// With no share rows at all, everyone sees every game.
pub proof fn law_unshared_games_are_for_everyone(gs: Seq<Game>, user: i64, admin: bool)
    ensures
        visible_games(gs, Seq::empty(), user, admin) == gs,
    decreases gs.len(),
{
    if gs.len() > 0 {
        law_unshared_games_are_for_everyone(gs.drop_last(), user, admin);
        assert(gs.drop_last().push(gs.last()) =~= gs);
    }
}

/// A game shared with some accounts is hidden from a member it is not
/// shared with.
pub proof fn law_a_restricted_game_is_hidden_from_others(
    rows: Seq<(Seq<char>, i64)>,
    app: Seq<char>,
    user: i64,
)
    requires
        restricted(rows, app),
        !shared_with(rows, app, user),
    ensures
        !can_see(rows, app, user, false),
{
}

/// The share rows left once a game's are cleared.
pub open spec fn without_app(rows: Seq<(Seq<char>, i64)>, app: Seq<char>) -> Seq<(Seq<char>, i64)> {
    rows.filter(not_of(app))
}

/// A share row that belongs to another game than `app`.
pub open spec fn not_of(app: Seq<char>) -> spec_fn((Seq<char>, i64)) -> bool {
    |r: (Seq<char>, i64)| r.0 != app
}

/// Clearing a game's shares gives it back to everyone, and leaves who sees
/// every other game as it was.
pub proof fn law_clearing_shares_restores_everyone(
    rows: Seq<(Seq<char>, i64)>,
    app: Seq<char>,
    other: Seq<char>,
    user: i64,
    admin: bool,
)
    requires
        other != app,
    ensures
        can_see(without_app(rows, app), app, user, admin),
        can_see(without_app(rows, app), other, user, admin) == can_see(rows, other, user, admin),
{
    let keep = not_of(app);
    let kept = rows.filter(keep);
    assert forall|i: int| 0 <= i < kept.len() implies #[trigger] kept[i].0 != app by {
        rows.lemma_filter_pred(keep, i);
    }
    if restricted(rows, other) {
        let i = choose|i: int| 0 <= i < rows.len() && #[trigger] rows[i].0 == other;
        rows.lemma_filter_contains(keep, i);
        let j = choose|j: int| 0 <= j < kept.len() && kept[j] == rows[i];
        assert(kept[j].0 == other);
    }
    if restricted(kept, other) {
        let j = choose|j: int| 0 <= j < kept.len() && #[trigger] kept[j].0 == other;
        assert(kept.contains(kept[j]));
        rows.lemma_filter_contains_rev(keep, kept[j]);
        let k = choose|k: int| 0 <= k < rows.len() && rows[k] == kept[j];
        assert(rows[k].0 == other);
    }
    if shared_with(rows, other, user) {
        let i = choose|i: int| 0 <= i < rows.len() && #[trigger] rows[i] == (other, user);
        rows.lemma_filter_contains(keep, i);
    }
    if shared_with(kept, other, user) {
        let j = choose|j: int| 0 <= j < kept.len() && #[trigger] kept[j] == (other, user);
        assert(kept.contains(kept[j]));
        rows.lemma_filter_contains_rev(keep, kept[j]);
        let k = choose|k: int| 0 <= k < rows.len() && rows[k] == kept[j];
        assert(rows[k] == (other, user));
    }
    if shared_with(rows, other, user) {
        let i = choose|i: int| 0 <= i < rows.len() && #[trigger] rows[i] == (other, user);
        let j = choose|j: int| 0 <= j < kept.len() && kept[j] == rows[i];
        assert(kept[j] == (other, user));
    }
}

/// Whether the event stream of a session is shown to a user: admins see
/// every session, members only those of their own devices.
pub open spec fn spec_sees_event(admin: bool, mine: Seq<Seq<char>>, client_id: Seq<char>) -> bool {
    admin || mine.contains(client_id)
}

pub fn sees_event(admin: bool, mine: &Vec<String>, client_id: &str) -> (r: bool)
    ensures
        r == spec_sees_event(admin, crate::text::views(mine@), client_id@),
{
    if admin {
        return true;
    }
    let ghost vs = crate::text::views(mine@);
    let mut i: usize = 0;
    while i < mine.len()
        invariant
            i <= mine@.len(),
            vs == crate::text::views(mine@),
            forall|j: int| 0 <= j < i ==> vs[j] != client_id@,
        decreases mine.len() - i,
    {
        if eq(&mine[i], client_id) {
            assert(vs[i as int] == client_id@);
            return true;
        }
        i += 1;
    }
    false
}

/// What the shares of a game answer: whether everyone sees it.
pub fn everyone(user_ids: &Vec<i64>) -> (r: bool)
    ensures
        r == (user_ids@.len() == 0),
{
    user_ids.len() == 0
}

/// A game the share routes act on must exist, or they would answer
/// "shared with everyone" for a deleted game.
pub fn app_exists(games: &Vec<Game>, app_id: &str) -> (r: Result<(), ApiError>)
    ensures
        (exists|i: int| 0 <= i < games@.len() && #[trigger] games@[i].id@ == app_id@) <==> r is Ok,
        r is Err ==> r->Err_0.0 == NOT_FOUND && r->Err_0.1@ == "no such app"@,
{
    let mut i: usize = 0;
    while i < games.len()
        invariant
            i <= games@.len(),
            forall|j: int| 0 <= j < i ==> games@[j].id@ != app_id@,
        decreases games.len() - i,
    {
        if eq(&games[i].id, app_id) {
            return Ok(());
        }
        i += 1;
    }
    Err(ApiError::not_found("no such app"))
}

/// What setting a game's shares answers when one of the accounts named
/// does not exist.
pub fn no_such_share_user(id: i64) -> (e: ApiError)
    ensures
        e.0 == BAD_REQUEST,
        e.1@ == "no such user: "@ + crate::numbers::signed_text(id as int),
{
    let n = crate::numbers::signed_decimal_string(id);
    ApiError::bad_request(&cat("no such user: ", &n))
}

/// The title and icon an edit leaves a game with: the edit's, or the current
/// ones where it gives none. The title is kept trimmed and may not be blank.
pub fn edited_title_and_icon(current: &Game, edit: &AppEdit) -> (r: Result<(String, String), ApiError>)
    ensures
        ({
            let title = match edit.title { Some(t) => t@, None => current.title@ };
            let icon = match edit.icon { Some(i) => i@, None => current.icon_png_path@ };
            if spec_trim(title).len() == 0 {
                r is Err && r->Err_0.0 == BAD_REQUEST && r->Err_0.1@ == "title cannot be empty"@
            } else {
                r is Ok && r->Ok_0.0@ == spec_trim(title) && r->Ok_0.1@ == icon
            }
        }),
{
    let title = match &edit.title {
        Some(t) => t.clone(),
        None => current.title.clone(),
    };
    let t = trim(&title);
    if t.unicode_len() == 0 {
        return Err(ApiError::bad_request("title cannot be empty"));
    }
    let icon = match &edit.icon {
        Some(i) => i.clone(),
        None => current.icon_png_path.clone(),
    };
    Ok((t, icon))
}

/// What `str::to_uppercase` gives for `s`.
pub uninterp spec fn unicode_upper(s: Seq<char>) -> Seq<char>;

/// Calls `str::to_uppercase`. Claimed: the result is a fixed function of the
/// text (Unicode's upper-case mapping).
#[verifier::external_body]
fn to_upper(s: &str) -> (r: String)
    ensures
        r@ == unicode_upper(s@),
{
    s.to_uppercase()
}

/// The controller settings a game may be given.
pub open spec fn controller_choice(c: Seq<char>) -> bool {
    c == "XBOX"@ || c == "PS"@ || c == "NINTENDO"@ || c == "AUTO"@ || c.len() == 0
}

/// How a controller setting is stored: upper-cased, with AUTO as empty, since
/// "no opinion" and "explicitly automatic" are the same thing.
pub open spec fn spec_controller(c: Seq<char>) -> Result<Seq<char>, Seq<char>> {
    let upper = unicode_upper(spec_trim(c));
    if !controller_choice(upper) {
        Err("controller_override must be XBOX, PS, NINTENDO or AUTO"@)
    } else if upper == "AUTO"@ {
        Ok(Seq::empty())
    } else {
        Ok(upper)
    }
}

pub fn normalize_controller(c: &str) -> (r: Result<String, ApiError>)
    ensures
        match spec_controller(c@) {
            Ok(v) => r is Ok && r->Ok_0@ == v,
            Err(m) => r is Err && r->Err_0.0 == BAD_REQUEST && r->Err_0.1@ == m,
        },
{
    let t = trim(c);
    let upper = to_upper(&t);
    let ok = eq(&upper, "XBOX") || eq(&upper, "PS") || eq(&upper, "NINTENDO") || eq(&upper, "AUTO")
        || upper.unicode_len() == 0;
    if !ok {
        return Err(ApiError::bad_request("controller_override must be XBOX, PS, NINTENDO or AUTO"));
    }
    if eq(&upper, "AUTO") {
        Ok(String::new())
    } else {
        Ok(upper)
    }
}

/// Applies the engine part of an edit (controller setting and render node) to
/// the game as it is now stored.
pub fn apply_engine_edit(g: Game, controller: Option<String>, render_node: Option<String>) -> (r: Result<Game, ApiError>)
    ensures
        match controller {
            Some(c) => match spec_controller(c@) {
                Err(m) => r is Err && r->Err_0.0 == BAD_REQUEST && r->Err_0.1@ == m,
                Ok(v) => r is Ok && r->Ok_0.controller_override@ == v,
            },
            None => r is Ok && r->Ok_0.controller_override == g.controller_override,
        },
        r matches Ok(out) ==> out.render_node@ == (match render_node { Some(n) => n@, None => g.render_node@ })
            && out == (Game { controller_override: out.controller_override, render_node: out.render_node, ..g }),
{
    let mut g = g;
    if let Some(c) = controller {
        match normalize_controller(&c) {
            Ok(v) => {
                g.controller_override = v;
            },
            Err(e) => {
                return Err(e);
            },
        }
    }
    if let Some(n) = render_node {
        g.render_node = n;
    }
    Ok(g)
}

/// The file name `Path::file_name` finds in `path`: its last component,
/// unless it has none or ends in `..`.
pub open spec fn file_name(path: Seq<char>) -> Option<Seq<char>> {
    let cs = components(path);
    if cs.len() == 0 || cs.last() == seq!['.', '.'] {
        None
    } else {
        Some(cs.last())
    }
}

/// Where the last `.` in `name` is.
pub open spec fn last_dot(name: Seq<char>) -> Option<int>
    decreases name.len(),
{
    if name.len() == 0 {
        None
    } else if name.last() == '.' {
        Some(name.len() - 1)
    } else {
        last_dot(name.drop_last())
    }
}

/// The extension `Path::extension` finds in `path`: what follows the last
/// `.` of the file name, unless there is no file name, no `.`, or the only
/// `.` is the one the name starts with.
pub open spec fn path_extension(path: Seq<char>) -> Option<Seq<char>> {
    match file_name(path) {
        None => None,
        Some(f) => match last_dot(f) {
            Some(i) if i > 0 => Some(f.subrange(i + 1, f.len() as int)),
            _ => None,
        },
    }
}

pub fn extension_of(path: &str) -> (r: Option<String>)
    ensures
        opt_view(r) == path_extension(path@),
{
    let comps = path_components(path);
    let n = comps.len();
    if n == 0 {
        return None;
    }
    let name = &comps[n - 1];
    proof {
        assert(views(comps@).last() == name@);
        reveal_strlit("..");
        assert(".."@ =~= seq!['.', '.']);
    }
    if eq(name.as_str(), "..") {
        return None;
    }
    let ghost f = name@;
    let v = chars_of(name.as_str());
    let mut i: usize = v.len();
    assert(f.take(f.len() as int) =~= f);
    while i > 0 && v[i - 1] != '.'
        invariant
            v@ == f,
            i <= v.len(),
            last_dot(f) == last_dot(f.take(i as int)),
        decreases i,
    {
        assert(f.take(i as int).drop_last() =~= f.take(i - 1));
        i -= 1;
    }
    if i <= 1 {
        proof {
            if i == 1 {
                assert(f.take(1).last() == '.');
            }
        }
        return None;
    }
    assert(f.take(i as int).last() == '.');
    Some(slice(name.as_str(), i, v.len()))
}

/// The content type cached art is served with, from its file's extension.
pub open spec fn spec_art_content_type(path: Seq<char>) -> Seq<char> {
    match path_extension(path) {
        Some(e) => if e == "png"@ {
            "image/png"@
        } else if e == "webp"@ {
            "image/webp"@
        } else {
            "image/jpeg"@
        },
        None => "image/jpeg"@,
    }
}

pub fn art_content_type(path: &str) -> (r: &'static str)
    ensures
        r@ == spec_art_content_type(path@),
{
    match extension_of(path) {
        Some(e) => {
            if eq(&e, "png") {
                "image/png"
            } else if eq(&e, "webp") {
                "image/webp"
            } else {
                "image/jpeg"
            }
        },
        None => "image/jpeg",
    }
}

/// A game the art route serves must have art cached.
pub fn art_file(found: Option<Game>) -> (r: Result<String, ApiError>)
    ensures
        match found {
            None => r is Err && r->Err_0.0 == NOT_FOUND && r->Err_0.1@ == "no such app"@,
            Some(g) => if g.icon_png_path@.len() == 0 {
                r is Err && r->Err_0.0 == NOT_FOUND && r->Err_0.1@ == "no art for this game"@
            } else {
                r is Ok && r->Ok_0@ == g.icon_png_path@
            },
        },
{
    match found {
        None => Err(ApiError::not_found("no such app")),
        Some(g) => {
            if g.icon_png_path.unicode_len() == 0 {
                Err(ApiError::not_found("no art for this game"))
            } else {
                Ok(g.icon_png_path)
            }
        },
    }
}

} // verus!
