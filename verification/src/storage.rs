//! The library roots the agent may look inside, and the path arithmetic that
//! keeps every answer within them. Paths are absolute Unix paths held as
//! strings; looking at the filesystem (existence, canonical form) is done by
//! the caller, which hands the results in.
use vstd::prelude::*;
use crate::error::{ApiError, INTERNAL_SERVER_ERROR, BAD_REQUEST, NOT_FOUND};
use crate::json::{self, Json, JsonV, json_parse};
use crate::text::{
    cat, chars_of, has_prefix, own, slice, spec_strip_prefix, spec_trim, split, split_char, starts_with,
    strip_prefix, trim, views,
};
use vstd::string::*;

verus! {

/// What `PathBuf::join` gives on Unix: an absolute `b` replaces `a`;
/// otherwise `b` is appended, with a `/` between unless `a` is empty or
/// already ends in one.
pub open spec fn path_join(a: Seq<char>, b: Seq<char>) -> Seq<char> {
    if has_prefix(b, seq!['/']) {
        b
    } else if a.len() == 0 || a.last() == '/' {
        a + b
    } else {
        a + seq!['/'] + b
    }
}

pub fn join(a: &str, b: &str) -> (r: String)
    ensures
        r@ == path_join(a@, b@),
{
    if starts_with(b, "/") {
        proof { reveal_strlit("/"); assert("/"@ =~= seq!['/']); }
        return own(b);
    }
    proof { reveal_strlit("/"); assert("/"@ =~= seq!['/']); }
    let n = a.unicode_len();
    if n == 0 || a.get_char(n - 1) == '/' {
        cat(a, b)
    } else {
        let t = cat(a, "/");
        cat(t.as_str(), b)
    }
}

/// `s` with every leading `/` removed, as `trim_start_matches('/')` does.
pub open spec fn trim_slashes(s: Seq<char>) -> Seq<char>
    decreases s.len(),
{
    if s.len() > 0 && s[0] == '/' {
        trim_slashes(s.drop_first())
    } else {
        s
    }
}

proof fn lemma_trim_slashes_skip(s: Seq<char>, i: int)
    requires
        0 <= i <= s.len(),
        forall|j: int| 0 <= j < i ==> s[j] == '/',
    ensures
        trim_slashes(s) == trim_slashes(s.subrange(i, s.len() as int)),
    decreases i,
{
    if i > 0 {
        lemma_trim_slashes_skip(s.drop_first(), i - 1);
        assert(s.drop_first().subrange(i - 1, s.drop_first().len() as int) =~= s.subrange(i, s.len() as int));
    } else {
        assert(s.subrange(0, s.len() as int) =~= s);
    }
}

pub fn trim_leading_slashes(s: &str) -> (r: String)
    ensures
        r@ == trim_slashes(s@),
{
    let v = chars_of(s);
    let mut i: usize = 0;
    while i < v.len() && v[i] == '/'
        invariant
            v@ == s@,
            i <= v.len(),
            forall|j: int| 0 <= j < i ==> s@[j] == '/',
        decreases v.len() - i,
    {
        i += 1;
    }
    proof {
        lemma_trim_slashes_skip(s@, i as int);
        assert(s@.subrange(i as int, s@.len() as int).len() == 0 || s@[i as int] != '/');
    }
    slice(s, i, v.len())
}

/// A mount `source:destination:mode` that covers `container_path`: the
/// destination length and the host path it maps to. `None` when the spec
/// does not have exactly three fields, or the path is not at or below the
/// destination (a sibling sharing a prefix, such as `/games/doomsday` for
/// `/games/doom`, is not below it).
pub open spec fn mount_match(m: Seq<char>, container_path: Seq<char>) -> Option<(nat, Seq<char>)> {
    let parts = split_char(m, ':');
    if parts.len() != 3 {
        None
    } else {
        match spec_strip_prefix(container_path, parts[1]) {
            None => None,
            Some(rest) => if rest.len() != 0 && rest[0] != '/' {
                None
            } else {
                Some((parts[1].len(), path_join(parts[0], trim_slashes(rest))))
            },
        }
    }
}

/// The longest matching destination among `mounts`; the first of equals.
pub open spec fn best_mount(mounts: Seq<Seq<char>>, container_path: Seq<char>) -> Option<(nat, Seq<char>)>
    decreases mounts.len(),
{
    if mounts.len() == 0 {
        None
    } else {
        let prev = best_mount(mounts.drop_last(), container_path);
        match mount_match(mounts.last(), container_path) {
            None => prev,
            Some(m) => match prev {
                Some(p) if m.0 <= p.0 => prev,
                _ => Some(m),
            },
        }
    }
}

/// Where `container_path` lives on the host, by the mount with the deepest
/// destination that covers it.
pub open spec fn spec_host_path_for(container_path: Seq<char>, mounts: Seq<Seq<char>>) -> Option<Seq<char>> {
    match best_mount(mounts, container_path) {
        Some(b) => Some(b.1),
        None => None,
    }
}

/// One mount spec: the destination length and host path when it covers
/// `container_path`.
pub fn match_mount(m: &str, container_path: &str) -> (r: Option<(usize, String)>)
    ensures
        match r {
            Some(x) => mount_match(m@, container_path@) == Some((x.0 as nat, x.1@)),
            None => mount_match(m@, container_path@) is None,
        },
{
    let parts = split(m, ':');
    if parts.len() != 3 {
        return None;
    }
    assert(parts@[0]@ == split_char(m@, ':')[0]);
    assert(parts@[1]@ == split_char(m@, ':')[1]);
    let destination = &parts[1];
    let rest = match strip_prefix(container_path, destination.as_str()) {
        None => return None,
        Some(r) => r,
    };
    let n = rest.unicode_len();
    if n != 0 && rest.as_str().get_char(0) != '/' {
        return None;
    }
    let tail = trim_leading_slashes(rest.as_str());
    let host = join(parts[0].as_str(), tail.as_str());
    Some((destination.unicode_len(), host))
}

/// Maps a path inside the runner container back to the host, using the
/// game's own mounts.
pub fn host_path_for(container_path: &str, mounts: &Vec<String>) -> (r: Option<String>)
    ensures
        match r {
            Some(p) => spec_host_path_for(container_path@, views(mounts@)) == Some(p@),
            None => spec_host_path_for(container_path@, views(mounts@)) is None,
        },
{
    let mut best: Option<(usize, String)> = None;
    let mut i: usize = 0;
    assert(views(mounts@).take(0) =~= Seq::<Seq<char>>::empty());
    while i < mounts.len()
        invariant
            i <= mounts.len(),
            match best {
                Some(b) => best_mount(views(mounts@).take(i as int), container_path@) == Some((b.0 as nat, b.1@)),
                None => best_mount(views(mounts@).take(i as int), container_path@) is None,
            },
        decreases mounts.len() - i,
    {
        proof {
            assert(views(mounts@).take(i + 1).drop_last() =~= views(mounts@).take(i as int));
            assert(views(mounts@).take(i + 1).last() == mounts@[i as int]@);
        }
        match match_mount(mounts[i].as_str(), container_path) {
            None => {},
            Some(m) => {
                let replace = match &best {
                    Some(b) => m.0 > b.0,
                    None => true,
                };
                if replace {
                    best = Some(m);
                }
            },
        }
        i += 1;
    }
    assert(views(mounts@).take(mounts.len() as int) =~= views(mounts@));
    match best {
        Some(b) => Some(b.1),
        None => None,
    }
}

/// The deepest covering mount wins: no mount that covers the path has a
/// longer destination than the one chosen, and the path chosen is the one
/// some covering mount maps to.
pub proof fn lemma_deepest_mount_wins(mounts: Seq<Seq<char>>, container_path: Seq<char>)
    ensures
        best_mount(mounts, container_path) matches Some(b) ==> (
            (exists|i: int| 0 <= i < mounts.len() && mount_match(mounts[i], container_path) == Some(b))
            && forall|i: int| 0 <= i < mounts.len() && #[trigger] mount_match(mounts[i], container_path) is Some
                ==> (mount_match(mounts[i], container_path)->0).0 <= b.0),
        best_mount(mounts, container_path) is None ==> forall|i: int| 0 <= i < mounts.len()
            ==> #[trigger] mount_match(mounts[i], container_path) is None,
    decreases mounts.len(),
{
    if mounts.len() > 0 {
        let prev = mounts.drop_last();
        lemma_deepest_mount_wins(prev, container_path);
        let n = mounts.len() - 1;
        assert forall|i: int| 0 <= i < n implies mounts[i] == prev[i] by {}
        if let Some(b) = best_mount(mounts, container_path) {
            if best_mount(prev, container_path) == Some(b) {
                let w = choose|i: int| 0 <= i < prev.len() && mount_match(prev[i], container_path) == Some(b);
                assert(mounts[w] == prev[w]);
            } else {
                assert(mount_match(mounts[n], container_path) == Some(b));
            }
        }
    }
}

/// Among covering mounts of equal depth the earliest wins: the mount chosen
/// is one whose match gives the answer, and every covering mount listed
/// before it has a strictly shorter destination.
pub proof fn law_first_of_the_deepest_mounts_wins(mounts: Seq<Seq<char>>, container_path: Seq<char>)
    ensures
        best_mount(mounts, container_path) matches Some(b) ==> exists|i: int|
            0 <= i < mounts.len() && #[trigger] mount_match(mounts[i], container_path) == Some(b)
            && forall|j: int| 0 <= j < i && #[trigger] mount_match(mounts[j], container_path) is Some
                ==> (mount_match(mounts[j], container_path)->0).0 < b.0,
    decreases mounts.len(),
{
    if mounts.len() > 0 {
        let prev = mounts.drop_last();
        let n = mounts.len() - 1;
        law_first_of_the_deepest_mounts_wins(prev, container_path);
        lemma_deepest_mount_wins(prev, container_path);
        assert forall|i: int| 0 <= i < n implies mounts[i] == prev[i] by {}
        if let Some(b) = best_mount(mounts, container_path) {
            if best_mount(prev, container_path) == Some(b) {
                let w = choose|i: int|
                    0 <= i < prev.len() && #[trigger] mount_match(prev[i], container_path) == Some(b)
                    && forall|j: int| 0 <= j < i && #[trigger] mount_match(prev[j], container_path) is Some
                        ==> (mount_match(prev[j], container_path)->0).0 < b.0;
                assert(mount_match(mounts[w], container_path) == Some(b));
                assert forall|j: int| 0 <= j < w && #[trigger] mount_match(mounts[j], container_path) is Some
                    implies (mount_match(mounts[j], container_path)->0).0 < b.0 by {
                    assert(mounts[j] == prev[j]);
                }
            } else {
                assert(mount_match(mounts[n], container_path) == Some(b));
                assert forall|j: int| 0 <= j < n && #[trigger] mount_match(mounts[j], container_path) is Some
                    implies (mount_match(mounts[j], container_path)->0).0 < b.0 by {
                    assert(mounts[j] == prev[j]);
                    assert(mount_match(prev[j], container_path) is Some);
                }
            }
        }
    }
}

/// A container path has a host equivalent exactly when some mount covers it;
/// the equivalent is then what the first of the deepest covering mounts maps
/// it to.
pub proof fn law_host_path_for(mounts: Seq<Seq<char>>, container_path: Seq<char>)
    ensures
        spec_host_path_for(container_path, mounts) is Some <==> exists|i: int|
            0 <= i < mounts.len() && #[trigger] mount_match(mounts[i], container_path) is Some,
        spec_host_path_for(container_path, mounts) matches Some(p) ==> exists|i: int|
            0 <= i < mounts.len() && #[trigger] mount_match(mounts[i], container_path) is Some
            && (mount_match(mounts[i], container_path)->0).1 == p
            && (forall|j: int| 0 <= j < mounts.len() && #[trigger] mount_match(mounts[j], container_path) is Some
                ==> (mount_match(mounts[j], container_path)->0).0 <= (mount_match(mounts[i], container_path)->0).0)
            && (forall|j: int| 0 <= j < i && #[trigger] mount_match(mounts[j], container_path) is Some
                ==> (mount_match(mounts[j], container_path)->0).0 < (mount_match(mounts[i], container_path)->0).0),
{
    lemma_deepest_mount_wins(mounts, container_path);
    law_first_of_the_deepest_mounts_wins(mounts, container_path);
    if let Some(b) = best_mount(mounts, container_path) {
        let w = choose|i: int|
            0 <= i < mounts.len() && #[trigger] mount_match(mounts[i], container_path) == Some(b)
            && forall|j: int| 0 <= j < i && #[trigger] mount_match(mounts[j], container_path) is Some
                ==> (mount_match(mounts[j], container_path)->0).0 < b.0;
        assert(mount_match(mounts[w], container_path) is Some);
    }
}

/// Whether `p` is absolute, as `Path::is_absolute` decides it on Unix.
pub open spec fn is_absolute(p: Seq<char>) -> bool {
    has_prefix(p, seq!['/'])
}

/// The names in a path: the pieces between `/`, without empty ones and
/// without `.`.
pub open spec fn components(p: Seq<char>) -> Seq<Seq<char>> {
    split_char(p, '/').filter(|c: Seq<char>| c.len() > 0 && c != seq!['\u{2e}'])
}

/// `Path::starts_with` for paths without `.` components at their start:
/// both absolute or both relative, and the names of `base` begin the names
/// of `p`.
pub open spec fn path_starts_with(p: Seq<char>, base: Seq<char>) -> bool {
    is_absolute(p) == is_absolute(base) && components(base).is_prefix_of(components(p))
}

/// `p` is `root` or lies below it.
pub open spec fn lies_within(p: Seq<char>, root: Seq<char>) -> bool {
    p == root || path_starts_with(p, root)
}

pub fn path_components(p: &str) -> (r: Vec<String>)
    ensures
        views(r@) == components(p@),
{
    let parts = split(p, '/');
    let mut out: Vec<String> = Vec::new();
    let mut i: usize = 0;
    let ghost keep = |c: Seq<char>| c.len() > 0 && c != seq!['\u{2e}'];
    proof {
        assert(views(parts@).take(0) =~= Seq::<Seq<char>>::empty());
        reveal_with_fuel(Seq::<Seq<char>>::filter, 1);
        assert(views(out@) =~= views(parts@).take(0).filter(keep));
    }
    while i < parts.len()
        invariant
            i <= parts.len(),
            views(parts@) == split_char(p@, '/'),
            keep == (|c: Seq<char>| c.len() > 0 && c != seq!['\u{2e}']),
            views(out@) == views(parts@).take(i as int).filter(keep),
        decreases parts.len() - i,
    {
        proof {
            reveal_with_fuel(Seq::<Seq<char>>::filter, 1);
            assert(views(parts@).take(i + 1).drop_last() =~= views(parts@).take(i as int));
        }
        let c = &parts[i];
        let dot = c.as_str() == ".";
        proof { reveal_strlit("."); }
        let ghost before = views(out@);
        if c.unicode_len() > 0 && !(c.unicode_len() == 1 && c.as_str().get_char(0) == '\u{2e}') {
            proof {
                assert(c@ != seq!['\u{2e}']) by {
                    if c@ == seq!['\u{2e}'] { assert(c@[0] == '\u{2e}'); }
                }
            }
            out.push(c.clone());
            assert(views(out@) =~= before.push(c@));
        } else {
            proof {
                if c@.len() == 1 { assert(c@ =~= seq!['\u{2e}']); }
            }
        }
        i += 1;
    }
    assert(views(parts@).take(parts.len() as int) =~= views(parts@));
    out
}

/// Whether `p` is `root` or lies below it, name by name.
pub fn within(p: &str, root: &str) -> (r: bool)
    ensures
        r == lies_within(p@, root@),
{
    if p.to_owned() == root.to_owned() {
        return true;
    }
    let pa = starts_with(p, "/");
    let ra = starts_with(root, "/");
    proof { reveal_strlit("/"); assert("/"@ =~= seq!['/']); }
    if pa != ra {
        return false;
    }
    let pc = path_components(p);
    let rc = path_components(root);
    if rc.len() > pc.len() {
        return false;
    }
    let mut i: usize = 0;
    while i < rc.len()
        invariant
            rc.len() <= pc.len(),
            i <= rc.len(),
            views(pc@) == components(p@),
            views(rc@) == components(root@),
            forall|j: int| 0 <= j < i ==> components(root@)[j] == components(p@)[j],
        decreases rc.len() - i,
    {
        if rc[i] != pc[i] {
            assert(components(root@)[i as int] != components(p@)[i as int]);
            return false;
        }
        i += 1;
    }
    true
}

/// `p` lies within `root`, when there is a root.
pub open spec fn within_root(p: Seq<char>, root: Option<String>) -> bool {
    match root {
        Some(r) => lies_within(p, r@),
        None => false,
    }
}

/// `p` lies within one of the (canonical) roots.
pub open spec fn inside_some_root(p: Seq<char>, roots: Seq<Option<String>>) -> bool {
    exists|i: int| 0 <= i < roots.len() && within_root(p, #[trigger] roots[i])
}

/// How a request for `requested` is answered by a library with `roots`,
/// given the request and the roots made canonical.
pub open spec fn spec_resolve(roots: Seq<Seq<char>>, requested: Seq<char>, canon: Option<String>, canon_roots: Seq<Option<String>>) -> Result<Seq<char>, (u16, Seq<char>)> {
    if roots.len() == 0 {
        Err((INTERNAL_SERVER_ERROR, "no library roots configured; set ALTC_LIBRARY_ROOTS and mount them into the container"@))
    } else if !is_absolute(requested) {
        Err((BAD_REQUEST, "path must be absolute"@))
    } else {
        match canon {
            Some(c) if inside_some_root(c@, canon_roots) => Ok(c@),
            _ => Err((NOT_FOUND, "no such path: "@ + requested)),
        }
    }
}

/// Whether a path whose nearest existing ancestor is `canon` (made
/// canonical) lies inside a library with `roots`.
pub open spec fn spec_is_within(roots: Seq<Seq<char>>, canon: Option<String>, canon_roots: Seq<Option<String>>) -> bool {
    roots.len() > 0 && match canon {
        Some(c) => inside_some_root(c@, canon_roots),
        None => false,
    }
}

/// A path outside every root gets the very answer a missing path gets, so
/// the answer never tells whether something exists outside the library.
pub proof fn law_outside_is_answered_as_missing(roots: Seq<Seq<char>>, requested: Seq<char>, canon: String, canon_roots: Seq<Option<String>>)
    requires
        !inside_some_root(canon@, canon_roots),
    ensures
        spec_resolve(roots, requested, Some(canon), canon_roots) == spec_resolve(roots, requested, None, canon_roots),
{
}

/// Any root will do: for a configured library and an absolute request whose
/// canonical form is one of the canonical roots, or lies below it name by
/// name, the request resolves to that canonical form and is within the
/// library, whichever root in the list it is.
pub proof fn law_any_root_admits(roots: Seq<Seq<char>>, requested: Seq<char>, c: String, canon_roots: Seq<Option<String>>, i: int, root: String)
    requires
        roots.len() > 0,
        is_absolute(requested),
        0 <= i < canon_roots.len(),
        canon_roots[i] == Some(root),
        c@ == root@ || (is_absolute(c@) == is_absolute(root@) && components(root@).is_prefix_of(components(c@))),
    ensures
        spec_resolve(roots, requested, Some(c), canon_roots) == Ok::<Seq<char>, (u16, Seq<char>)>(c@),
        spec_is_within(roots, Some(c), canon_roots),
{
    assert(within_root(c@, canon_roots[i]));
}

/// Resolving and the inside check agree: for a configured library and an
/// absolute request, a path resolves exactly when it is within the library
/// (its canonical form being its own nearest existing ancestor), and then to
/// that canonical form.
pub proof fn law_resolve_agrees_with_is_within(roots: Seq<Seq<char>>, requested: Seq<char>, canon: Option<String>, canon_roots: Seq<Option<String>>)
    requires
        roots.len() > 0,
        is_absolute(requested),
    ensures
        spec_resolve(roots, requested, canon, canon_roots) is Ok <==> spec_is_within(roots, canon, canon_roots),
        spec_resolve(roots, requested, canon, canon_roots) matches Ok(p) ==> canon matches Some(c) && p == c@,
{
}

/// Where the agent is allowed to look.
#[derive(Debug)]
pub struct Library {
    roots: Vec<String>,
}

impl Default for Library {
    fn default() -> (l: Library)
        ensures
            l@.len() == 0,
    {
        Library { roots: Vec::new() }
    }
}

impl View for Library {
    type V = Seq<Seq<char>>;

    closed spec fn view(&self) -> Seq<Seq<char>> {
        views(self.roots@)
    }
}

/// The roots named by a setting: a JSON array of path strings. `None` when
/// the setting is blank or not such an array.
pub open spec fn roots_setting(raw: Seq<char>) -> Option<Seq<Seq<char>>> {
    if spec_trim(raw).len() == 0 {
        None
    } else {
        match json_parse(raw) {
            Some(JsonV::Array(items)) => if forall|i: int| 0 <= i < items.len()
                ==> #[trigger] json_parse(items[i]) matches Some(JsonV::Str(_)) {
                Some(items.map_values(|t: Seq<char>| json_parse(t)->Some_0->Str_0))
            } else {
                None
            },
            _ => None,
        }
    }
}

impl Library {
    pub fn new(roots: Vec<String>) -> (l: Library)
        ensures
            l@ == views(roots@),
    {
        Library { roots }
    }

    pub fn roots(&self) -> (r: &Vec<String>)
        ensures
            views(r@) == self@,
    {
        &self.roots
    }

    pub fn is_configured(&self) -> (r: bool)
        ensures
            r == (self@.len() > 0),
    {
        self.roots.len() > 0
    }

    /// The roots declared by the `ALTC_LIBRARY_ROOTS` setting (blank when
    /// unset). Anything but a JSON array of strings declares none.
    pub fn from_setting(raw: &str) -> (l: Library)
        ensures
            l@ == match roots_setting(raw@) {
                Some(r) => r,
                None => Seq::<Seq<char>>::empty(),
            },
    {
        let t = trim(raw);
        if t.unicode_len() == 0 {
            return Library::default();
        }
        let items = match json::parse(raw) {
            Ok(Json::Array(items)) => items,
            _ => return Library::default(),
        };
        let ghost texts = views(items@);
        let mut roots: Vec<String> = Vec::new();
        let mut i: usize = 0;
        while i < items.len()
            invariant
                i <= items.len(),
                texts == views(items@),
                json_parse(raw@) == Some(JsonV::Array(texts)),
                spec_trim(raw@).len() != 0,
                roots@.len() == i,
                forall|j: int| 0 <= j < i ==> #[trigger] json_parse(texts[j]) == Some(JsonV::Str(roots@[j]@)),
            decreases items.len() - i,
        {
            match json::parse(items[i].as_str()) {
                Ok(Json::Str(s)) => roots.push(s),
                _ => {
                    assert(!(json_parse(texts[i as int]) matches Some(JsonV::Str(_))));
                    assert(roots_setting(raw@) is None);
                    return Library::default();
                },
            }
            i += 1;
        }
        let l = Library { roots };
        assert(l@ =~= texts.map_values(|t: Seq<char>| json_parse(t)->Some_0->Str_0));
        l
    }

    /// Resolves a requested path and proves it stays inside a configured
    /// root. `canon` is the requested path made canonical (`None` when that
    /// failed: it does not exist), and `canon_roots` holds, for each root in
    /// order, that root made canonical (`None` for one that is not readable).
    /// Canonical forms are compared, so `..` and symlinks cannot lead outside
    /// a root; and a path outside every root is answered as a missing one.
    pub fn resolve(&self, requested: &str, canon: Option<String>, canon_roots: &Vec<Option<String>>) -> (r: Result<String, ApiError>)
        requires
            canon_roots@.len() == self@.len(),
        ensures
            match spec_resolve(self@, requested@, canon, canon_roots@) {
                Ok(p) => r matches Ok(x) && x@ == p,
                Err(e) => r matches Err(x) && x.0 == e.0 && x.1@ == e.1,
            },
            forall|i: int| #![trigger canon_roots@[i]]
                self@.len() > 0 && is_absolute(requested@) && canon is Some && 0 <= i < canon_roots@.len()
                && canon_roots@[i] is Some && lies_within(canon->Some_0@, canon_roots@[i]->Some_0@)
                ==> (r is Ok && r->Ok_0@ == canon->Some_0@),
    {
        if self.roots.len() == 0 {
            return Err(ApiError::internal(
                "no library roots configured; set ALTC_LIBRARY_ROOTS and mount them into the container",
            ));
        }
        let abs = starts_with(requested, "/");
        proof { reveal_strlit("/"); assert("/"@ =~= seq!['/']); }
        if !abs {
            return Err(ApiError::bad_request("path must be absolute"));
        }
        let missing = cat("no such path: ", requested);
        let rp = match canon {
            None => return Err(ApiError::not_found(missing.as_str())),
            Some(rp) => rp,
        };
        let mut i: usize = 0;
        while i < canon_roots.len()
            invariant
                i <= canon_roots@.len(),
                self@.len() > 0,
                is_absolute(requested@),
                canon == Some(rp),
                forall|j: int| 0 <= j < i ==> !within_root(rp@, #[trigger] canon_roots@[j]),
            decreases canon_roots.len() - i,
        {
            match &canon_roots[i] {
                Some(root) => {
                    if within(rp.as_str(), root.as_str()) {
                        assert(within_root(rp@, canon_roots@[i as int]));
                        assert(inside_some_root(rp@, canon_roots@));
                        return Ok(rp);
                    }
                },
                None => {},
            }
            i += 1;
        }
        Err(ApiError::not_found(missing.as_str()))
    }

    /// Whether a path falls inside a root without requiring it to exist:
    /// `canon` is the nearest existing ancestor of the path, made canonical
    /// (`None` when there is none or it cannot be made canonical), and
    /// `canon_roots` holds each root in order made canonical. With no roots
    /// configured nothing is within.
    pub fn is_within(&self, canon: Option<String>, canon_roots: &Vec<Option<String>>) -> (r: bool)
        requires
            canon_roots@.len() == self@.len(),
        ensures
            r == spec_is_within(self@, canon, canon_roots@),
            self@.len() == 0 ==> !r,
            forall|i: int| #![trigger canon_roots@[i]]
                self@.len() > 0 && canon is Some && 0 <= i < canon_roots@.len()
                && canon_roots@[i] is Some && lies_within(canon->Some_0@, canon_roots@[i]->Some_0@) ==> r,
    {
        let rp = match canon {
            None => return false,
            Some(rp) => rp,
        };
        let mut i: usize = 0;
        while i < canon_roots.len()
            invariant
                i <= canon_roots@.len(),
                canon_roots@.len() == self@.len(),
                canon == Some(rp),
                forall|j: int| 0 <= j < i ==> !within_root(rp@, #[trigger] canon_roots@[j]),
            decreases canon_roots.len() - i,
        {
            match &canon_roots[i] {
                Some(root) => {
                    if within(rp.as_str(), root.as_str()) {
                        assert(within_root(rp@, canon_roots@[i as int]));
                        return true;
                    }
                },
                None => {},
            }
            i += 1;
        }
        false
    }
}

} // verus!
