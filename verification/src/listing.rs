//! A folder's listing as the browse route answers it: hidden entries left
//! out, folders first, then by name ignoring case. Browsing a library is a
//! navigation task, and a user is looking for a folder.
use vstd::prelude::*;
use crate::error::{ApiError, BAD_REQUEST};
use crate::text::has_prefix;

verus! {

/// The query of the browse route: the folder to list.
pub struct BrowseQuery {
    pub path: String,
}

/// One entry of a folder.
#[derive(Debug)]
pub struct Entry {
    pub name: String,
    pub path: String,
    pub is_dir: bool,
    /// Absent for folders: size means nothing there, and finding it for a
    /// tree would make browsing a large library slow.
    pub size: Option<u64>,
}

pub struct EntryV {
    pub name: Seq<char>,
    pub path: Seq<char>,
    pub is_dir: bool,
    pub size: Option<u64>,
}

impl View for Entry {
    type V = EntryV;

    open spec fn view(&self) -> EntryV {
        EntryV { name: self.name@, path: self.path@, is_dir: self.is_dir, size: self.size }
    }
}

pub open spec fn entry_views(v: Seq<Entry>) -> Seq<EntryV> {
    v.map_values(|e: Entry| e@)
}

/// What `str::to_lowercase` gives for `s`.
pub uninterp spec fn unicode_lower(s: Seq<char>) -> Seq<char>;

/// Calls `str::to_lowercase`. Claimed: the result is a fixed function of the
/// text (Unicode's lower-case mapping).
#[verifier::external_body]
fn to_lower(s: &str) -> (r: String)
    ensures
        r@ == unicode_lower(s@),
{
    s.to_lowercase()
}

/// The order of `String`: by code point, character by character, a prefix
/// first. (UTF-8 keeps code point order, so this is the order of the bytes.)
pub open spec fn text_lt(a: Seq<char>, b: Seq<char>) -> bool
    decreases a.len(),
{
    if a.len() == 0 {
        b.len() > 0
    } else if b.len() == 0 {
        false
    } else if a[0] != b[0] {
        (a[0] as int) < (b[0] as int)
    } else {
        text_lt(a.drop_first(), b.drop_first())
    }
}

pub proof fn lemma_text_lt_irreflexive(a: Seq<char>)
    ensures
        !text_lt(a, a),
    decreases a.len(),
{
    if a.len() > 0 {
        lemma_text_lt_irreflexive(a.drop_first());
    }
}

pub proof fn lemma_text_lt_total(a: Seq<char>, b: Seq<char>)
    ensures
        text_lt(a, b) || a == b || text_lt(b, a),
    decreases a.len(),
{
    if a.len() > 0 && b.len() > 0 && a[0] == b[0] {
        lemma_text_lt_total(a.drop_first(), b.drop_first());
        if a.drop_first() == b.drop_first() {
            assert(a =~= seq![a[0]] + a.drop_first());
            assert(b =~= seq![b[0]] + b.drop_first());
        }
    } else if a.len() == 0 && b.len() == 0 {
        assert(a =~= b);
    } else if a.len() > 0 && b.len() > 0 {
        assert((a[0] as int) != (b[0] as int));
    }
}

pub proof fn lemma_text_lt_transitive(a: Seq<char>, b: Seq<char>, c: Seq<char>)
    requires
        text_lt(a, b),
        text_lt(b, c),
    ensures
        text_lt(a, c),
    decreases a.len(),
{
    if a.len() > 0 && b.len() > 0 && c.len() > 0 && a[0] == b[0] && b[0] == c[0] {
        lemma_text_lt_transitive(a.drop_first(), b.drop_first(), c.drop_first());
    }
}

/// `a` is listed before `b`: folders first, then by lower-cased name.
pub open spec fn entry_lt(a: EntryV, b: EntryV) -> bool {
    (a.is_dir && !b.is_dir) || (a.is_dir == b.is_dir && text_lt(unicode_lower(a.name), unicode_lower(b.name)))
}

proof fn lemma_entry_lt_transitive(a: EntryV, b: EntryV, c: EntryV)
    requires
        entry_lt(a, b),
        entry_lt(b, c),
    ensures
        entry_lt(a, c),
{
    if a.is_dir == b.is_dir && b.is_dir == c.is_dir {
        lemma_text_lt_transitive(unicode_lower(a.name), unicode_lower(b.name), unicode_lower(c.name));
    }
}

/// Either `a` comes before `c`, or `c` comes before `b`, whenever `a` comes
/// before `b`: being listed together is an equivalence.
proof fn lemma_entry_lt_split(a: EntryV, b: EntryV, c: EntryV)
    requires
        entry_lt(a, b),
    ensures
        entry_lt(a, c) || entry_lt(c, b),
{
    lemma_text_lt_total(unicode_lower(a.name), unicode_lower(c.name));
    lemma_text_lt_total(unicode_lower(c.name), unicode_lower(b.name));
    if a.is_dir == c.is_dir && c.is_dir == b.is_dir {
        if !text_lt(unicode_lower(a.name), unicode_lower(c.name)) && !text_lt(unicode_lower(c.name), unicode_lower(b.name)) {
            if unicode_lower(a.name) == unicode_lower(c.name) {
            } else {
                lemma_text_lt_transitive(unicode_lower(c.name), unicode_lower(a.name), unicode_lower(b.name));
            }
        }
    }
}

/// Each entry is listed no later than those after it.
pub open spec fn listed_in_order(s: Seq<EntryV>) -> bool {
    forall|i: int, j: int| 0 <= i < j < s.len() ==> !entry_lt(#[trigger] s[j], #[trigger] s[i])
}

/// `r` holds the entries of `src`, each once (`r[k]` is `src[perm[k]]`), and
/// entries that sort alike keep the order they had in `src`.
pub open spec fn stable_arrangement(r: Seq<EntryV>, src: Seq<EntryV>, perm: Seq<int>) -> bool {
    &&& r.len() == src.len() && perm.len() == r.len()
    &&& forall|k: int| 0 <= k < r.len() ==> 0 <= #[trigger] perm[k] < src.len() && r[k] == src[perm[k]]
    &&& forall|k: int, l: int| 0 <= k < l < r.len() ==> #[trigger] perm[k] != #[trigger] perm[l]
    &&& forall|k: int, l: int|
        0 <= k < l < r.len() && !entry_lt(r[l], r[k]) && !entry_lt(r[k], r[l]) ==> #[trigger] perm[k] < #[trigger] perm[l]
}

/// The entries a listing shows: all but hidden ones, in the folder's order.
pub open spec fn shown(src: Seq<EntryV>) -> Seq<EntryV>
    decreases src.len(),
{
    if src.len() == 0 {
        Seq::empty()
    } else {
        let rest = shown(src.drop_last());
        if has_prefix(src.last().name, seq!['.']) { rest } else { rest.push(src.last()) }
    }
}

/// An entry as the listing reports it.
pub open spec fn entry_of(name: Seq<char>, path: Seq<char>, is_dir: bool, len: u64) -> EntryV {
    EntryV { name, path, is_dir, size: if is_dir { None } else { Some(len) } }
}

pub open spec fn raw_views(v: Seq<(String, String, bool, u64)>) -> Seq<EntryV> {
    v.map_values(|t: (String, String, bool, u64)| entry_of(t.0@, t.1@, t.2, t.3))
}

/// Whether the browse route may list `requested`: only a folder.
pub fn check_folder(is_dir: bool) -> (r: Result<(), ApiError>)
    ensures
        is_dir <==> r is Ok,
        r is Err ==> r->Err_0.0 == BAD_REQUEST && r->Err_0.1@ == "not a directory"@,
{
    if is_dir {
        Ok(())
    } else {
        Err(ApiError::bad_request("not a directory"))
    }
}

fn lt_entry(a: &Entry, a_lower: &Vec<char>, b: &Entry, b_lower: &Vec<char>) -> (r: bool)
    requires
        a_lower@ == unicode_lower(a.name@),
        b_lower@ == unicode_lower(b.name@),
    ensures
        r == entry_lt(a@, b@),
{
    if a.is_dir != b.is_dir {
        return a.is_dir;
    }
    let n = a_lower.len();
    let m = b_lower.len();
    let mut i: usize = 0;
    proof {
        assert(a_lower@.subrange(0, n as int) =~= a_lower@);
        assert(b_lower@.subrange(0, m as int) =~= b_lower@);
    }
    while i < n && i < m && a_lower[i] == b_lower[i]
        invariant
            i <= n && i <= m,
            n == a_lower@.len() && m == b_lower@.len(),
            a_lower@.subrange(0, i as int) =~= b_lower@.subrange(0, i as int),
            text_lt(a_lower@, b_lower@) == text_lt(a_lower@.subrange(i as int, n as int), b_lower@.subrange(i as int, m as int)),
        decreases n - i,
    {
        assert(a_lower@.subrange(i as int, n as int).drop_first() =~= a_lower@.subrange(i as int + 1, n as int));
        assert(b_lower@.subrange(i as int, m as int).drop_first() =~= b_lower@.subrange(i as int + 1, m as int));
        i += 1;
    }
    let ghost sa = a_lower@.subrange(i as int, n as int);
    let ghost sb = b_lower@.subrange(i as int, m as int);
    if i == n {
        assert(sa.len() == 0);
        i < m
    } else if i == m {
        assert(sb.len() == 0 && sa.len() > 0);
        false
    } else {
        assert(sa[0] == a_lower@[i as int] && sb[0] == b_lower@[i as int]);
        assert(sa[0] != sb[0]);
        let lt = a_lower[i] < b_lower[i];
        assert(lt == ((sa[0] as int) < (sb[0] as int)));
        lt
    }
}

/// The listing of a folder's entries, given each one's name, path, whether
/// it is a folder and its length: hidden entries left out, then folders
/// first, then by lower-cased name, entries that sort alike keeping the
/// folder's order.
pub fn listing(items: Vec<(String, String, bool, u64)>) -> (r: Vec<Entry>)
    ensures
        listed_in_order(entry_views(r@)),
        exists|perm: Seq<int>| stable_arrangement(entry_views(r@), shown(raw_views(items@)), perm),
{
    let ghost src = raw_views(items@);
    let mut out: Vec<Entry> = Vec::new();
    let mut lowers: Vec<Vec<char>> = Vec::new();
    let ghost mut perm: Seq<int> = Seq::empty();
    let ghost mut kept: Seq<EntryV> = Seq::empty();
    let mut i: usize = 0;
    let n = items.len();
    let mut rest = items;
    proof {
        assert(src.subrange(0, 0) =~= Seq::<EntryV>::empty());
    }
    while i < n
        invariant
            n == src.len(),
            i <= n,
            rest@.len() + i == n,
            src == raw_views(items@),
            forall|k: int| 0 <= k < rest@.len() ==> raw_views(rest@)[k] == src[i + k],
            kept == shown(src.subrange(0, i as int)),
            out@.len() == lowers@.len(),
            forall|k: int| 0 <= k < out@.len() ==> (#[trigger] lowers@[k])@ == unicode_lower(out@[k].name@),
            listed_in_order(entry_views(out@)),
            stable_arrangement(entry_views(out@), kept, perm),
        decreases n - i,
    {
        let ghost old_rest = rest@;
        let item = rest.remove(0);
        let ghost ev = entry_of(item.0@, item.1@, item.2, item.3);
        proof {
            assert(item == old_rest[0]);
            assert(raw_views(old_rest)[0] == ev);
            assert(rest@ =~= old_rest.subrange(1, old_rest.len() as int));
            assert forall|k: int| 0 <= k < rest@.len() implies raw_views(rest@)[k] == src[i + 1 + k] by {
                assert(raw_views(rest@)[k] == raw_views(old_rest)[k + 1]);
            }
            assert(ev == src[i as int]);
            let nx = src.subrange(0, i as int + 1);
            assert(nx.drop_last() =~= src.subrange(0, i as int));
            assert(nx.last() == ev);
        }
        let (name, path, is_dir, len) = item;
        let hidden = name.as_str().unicode_len() > 0 && name.as_str().get_char(0) == '.';
        proof {
            if ev.name.len() > 0 {
                if ev.name[0] == '.' {
                    assert(ev.name.subrange(0, 1) =~= seq!['.']);
                } else {
                    assert(ev.name.subrange(0, 1)[0] != seq!['.'][0]);
                }
            }
            assert(hidden == has_prefix(ev.name, seq!['.']));
        }
        if !hidden {
            let e = Entry { name, path, is_dir, size: if is_dir { None } else { Some(len) } };
            assert(e@ == ev);
            let low = to_lower(&e.name);
            let lv: Vec<char> = crate::text::chars_of(&low);
            // first position holding an entry that sorts strictly after `e`
            let mut p: usize = 0;
            while p < out.len() && !lt_entry(&e, &lv, &out[p], &lowers[p])
                invariant
                    p <= out@.len(),
                    out@.len() == lowers@.len(),
                    forall|k: int| 0 <= k < out@.len() ==> (#[trigger] lowers@[k])@ == unicode_lower(out@[k].name@),
                    lv@ == unicode_lower(e.name@),
                    forall|k: int| 0 <= k < p ==> !entry_lt(e@, #[trigger] entry_views(out@)[k]),
                decreases out@.len() - p,
            {
                p += 1;
            }
            let ghost old_out = entry_views(out@);
            let ghost old_perm = perm;
            proof {
                // Everything from `p` on sorts strictly after `e`.
                assert forall|q: int| p <= q < old_out.len() implies entry_lt(e@, #[trigger] old_out[q]) by {
                    assert(entry_lt(e@, old_out[p as int]));
                    if q > p {
                        lemma_entry_lt_split(e@, old_out[p as int], old_out[q]);
                        assert(!entry_lt(old_out[q], old_out[p as int]));
                    }
                }
            }
            out.insert(p, e);
            lowers.insert(p, lv);
            proof {
                perm = old_perm.insert(p as int, kept.len() as int);
                let nv = entry_views(out@);
                assert(nv =~= old_out.insert(p as int, ev));
                assert forall|a: int, b: int| 0 <= a < b < nv.len() implies !entry_lt(#[trigger] nv[b], #[trigger] nv[a]) by {
                    if b == p {
                        assert(nv[a] == old_out[a]);
                    } else if a == p {
                        assert(nv[b] == old_out[b - 1]);
                        if entry_lt(old_out[b - 1], ev) {
                            lemma_entry_lt_transitive(old_out[b - 1], ev, old_out[b - 1]);
                            crate::listing::lemma_text_lt_irreflexive(unicode_lower(old_out[b - 1].name));
                        }
                    } else {
                        let a0 = if a < p { a } else { a - 1 };
                        let b0 = if b < p { b } else { b - 1 };
                        assert(nv[a] == old_out[a0] && nv[b] == old_out[b0]);
                    }
                }
                let nk = kept.push(ev);
                assert forall|k: int| 0 <= k < nv.len() implies 0 <= #[trigger] perm[k] < nk.len() && nv[k] == nk[perm[k]] by {
                    if k < p {
                        assert(perm[k] == old_perm[k]);
                    } else if k > p {
                        assert(perm[k] == old_perm[k - 1]);
                    }
                }
                assert forall|a: int, b: int| 0 <= a < b < nv.len() implies #[trigger] perm[a] != #[trigger] perm[b] by {
                    if a != p && b != p {
                        let a0 = if a < p { a } else { a - 1 };
                        let b0 = if b < p { b } else { b - 1 };
                        assert(perm[a] == old_perm[a0] && perm[b] == old_perm[b0]);
                    } else if a == p {
                        assert(perm[b] == old_perm[b - 1]);
                    } else {
                        assert(perm[a] == old_perm[a]);
                    }
                }
                assert forall|a: int, b: int|
                    0 <= a < b < nv.len() && !entry_lt(nv[b], nv[a]) && !entry_lt(nv[a], nv[b]) implies #[trigger] perm[a]
                    < #[trigger] perm[b] by {
                    if a != p && b != p {
                        let a0 = if a < p { a } else { a - 1 };
                        let b0 = if b < p { b } else { b - 1 };
                        assert(perm[a] == old_perm[a0] && perm[b] == old_perm[b0]);
                        assert(nv[a] == old_out[a0] && nv[b] == old_out[b0]);
                    } else if a == p {
                        assert(nv[b] == old_out[b - 1]);
                        assert(entry_lt(ev, old_out[b - 1]));
                    } else {
                        assert(perm[a] == old_perm[a]);
                    }
                }
                kept = nk;
            }
        }
        i += 1;
    }
    proof {
        assert(src.subrange(0, n as int) =~= src);
    }
    out
}

} // verus!
