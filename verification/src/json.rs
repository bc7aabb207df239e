//! JSON values, one level at a time.
//!
//! A parsed value holds its own kind and, for arrays and objects, the text of
//! each member; a member is parsed again when it is read. Text is parsed and
//! produced by `serde_json` alone.
use vstd::prelude::*;
use crate::text::views;
use serde_json::Value;

verus! {

/// A JSON value whose members are kept as their serialised text.
#[derive(Clone, Debug)]
pub enum Json {
    Null,
    Bool(bool),
    /// The number as `serde_json` prints it.
    Number(String),
    Str(String),
    /// The text of each element, in order.
    Array(Vec<String>),
    /// Each member's key and the text of its value, in the parser's order.
    Object(Vec<(String, String)>),
}

/// The mathematical form of a `Json`.
pub enum JsonV {
    Null,
    Bool(bool),
    Number(Seq<char>),
    Str(Seq<char>),
    Array(Seq<Seq<char>>),
    Object(Seq<(Seq<char>, Seq<char>)>),
}

pub open spec fn pair_views(v: Seq<(String, String)>) -> Seq<(Seq<char>, Seq<char>)> {
    v.map_values(|p: (String, String)| (p.0@, p.1@))
}

impl View for Json {
    type V = JsonV;

    open spec fn view(&self) -> JsonV {
        match self {
            Json::Null => JsonV::Null,
            Json::Bool(b) => JsonV::Bool(*b),
            Json::Number(n) => JsonV::Number(n@),
            Json::Str(s) => JsonV::Str(s@),
            Json::Array(v) => JsonV::Array(views(v@)),
            Json::Object(v) => JsonV::Object(pair_views(v@)),
        }
    }
}

/// What `serde_json` parses `text` into, one level deep; `None` when `text`
/// is not JSON. A fixed function of the text.
pub uninterp spec fn json_parse(text: Seq<char>) -> Option<JsonV>;

/// What `serde_json` prints for the string `s`: the quoted, escaped form.
pub uninterp spec fn json_quote(s: Seq<char>) -> Seq<char>;

/// What `serde_json` prints for the value it parses out of `text`.
pub uninterp spec fn json_canonical(text: Seq<char>) -> Option<Seq<char>>;

/// Calls `serde_json::from_str::<serde_json::Value>` and takes the result
/// apart one level: each array element and object member is printed back
/// with `to_string`. Claimed: the outcome is `json_parse` of the text; the
/// error message is the parser's own and is not stated.
#[verifier::external_body]
pub(crate) fn parse(text: &str) -> (r: Result<Json, String>)
    ensures
        r matches Ok(j) ==> json_parse(text@) == Some(j@),
        r is Err ==> json_parse(text@) is None,
{
    match serde_json::from_str::<Value>(text) {
        Err(e) => Err(e.to_string()),
        Ok(Value::Null) => Ok(Json::Null),
        Ok(Value::Bool(b)) => Ok(Json::Bool(b)),
        Ok(Value::Number(n)) => Ok(Json::Number(n.to_string())),
        Ok(Value::String(s)) => Ok(Json::Str(s)),
        Ok(Value::Array(a)) => Ok(Json::Array(a.iter().map(Value::to_string).collect())),
        Ok(Value::Object(o)) => Ok(Json::Object(o.into_iter().map(|(k, v)| (k, v.to_string())).collect())),
    }
}

/// Calls `serde_json::to_string` on a string. Claimed: the text is
/// `json_quote(s)`, and parsing it gives back that very string.
#[verifier::external_body]
pub(crate) fn quote(s: &str) -> (r: String)
    ensures
        r@ == json_quote(s@),
        json_parse(r@) == Some(JsonV::Str(s@)),
{
    serde_json::to_string(s).unwrap_or_default()
}

/// Calls `serde_json::to_string` on a `bool`. Claimed: `true` or `false`,
/// which parse back to the same `bool`.
#[verifier::external_body]
pub(crate) fn bool_text(b: bool) -> (r: String)
    ensures
        r@ == (if b { "true"@ } else { "false"@ }),
        json_parse(r@) == Some(JsonV::Bool(b)),
{
    serde_json::to_string(&b).unwrap_or_default()
}

/// Calls `serde_json::from_str::<serde_json::Value>` and prints the value
/// back with `to_string`. Claimed: the outcome is `json_canonical(text)`,
/// and it exists exactly when `text` parses. That the printed text parses
/// back to the same value is not claimed: without the crate's
/// `float_roundtrip` feature some floating-point numbers do not.
#[verifier::external_body]
pub(crate) fn canonical(text: &str) -> (r: Option<String>)
    ensures
        r matches Some(t) ==> json_canonical(text@) == Some(t@),
        r is None ==> json_canonical(text@) is None,
        r is Some <==> json_parse(text@) is Some,
{
    serde_json::from_str::<serde_json::Value>(text).ok().map(|v| v.to_string())
}

/// The text of the first member called `key`.
pub open spec fn lookup(ps: Seq<(Seq<char>, Seq<char>)>, key: Seq<char>) -> Option<Seq<char>>
    decreases ps.len(),
{
    if ps.len() == 0 {
        None
    } else if ps[0].0 == key {
        Some(ps[0].1)
    } else {
        lookup(ps.drop_first(), key)
    }
}

/// The text of member `key` of an object; `None` for a missing member or a
/// value that is not an object.
pub open spec fn field(j: JsonV, key: Seq<char>) -> Option<Seq<char>> {
    match j {
        JsonV::Object(ps) => lookup(ps, key),
        _ => None,
    }
}

/// What `serde_json` indexing gives: the member's value, or `null`.
pub open spec fn at(j: JsonV, key: Seq<char>) -> JsonV {
    match field(j, key) {
        Some(t) => match json_parse(t) {
            Some(v) => v,
            None => JsonV::Null,
        },
        None => JsonV::Null,
    }
}

pub open spec fn as_str(j: JsonV) -> Option<Seq<char>> {
    match j {
        JsonV::Str(s) => Some(s),
        _ => None,
    }
}

pub open spec fn as_bool(j: JsonV) -> Option<bool> {
    match j {
        JsonV::Bool(b) => Some(b),
        _ => None,
    }
}

/// `v[key].as_str()`.
pub open spec fn str_at(j: JsonV, key: Seq<char>) -> Option<Seq<char>> {
    as_str(at(j, key))
}

/// `v[key].as_str().unwrap_or_default()`.
pub open spec fn str_or_empty(j: JsonV, key: Seq<char>) -> Seq<char> {
    match str_at(j, key) {
        Some(s) => s,
        None => Seq::empty(),
    }
}

/// `v[key].as_bool()`.
pub open spec fn bool_at(j: JsonV, key: Seq<char>) -> Option<bool> {
    as_bool(at(j, key))
}

proof fn lemma_lookup_skip(ps: Seq<(Seq<char>, Seq<char>)>, i: int, key: Seq<char>)
    requires
        0 <= i < ps.len(),
        ps[i].0 != key,
    ensures
        lookup(ps.subrange(i, ps.len() as int), key) == lookup(ps.subrange(i + 1, ps.len() as int), key),
{
    assert(ps.subrange(i, ps.len() as int).drop_first() =~= ps.subrange(i + 1, ps.len() as int));
}

/// The first member called `key` is the one at `i`.
pub proof fn lemma_lookup_at(ps: Seq<(Seq<char>, Seq<char>)>, key: Seq<char>, i: int)
    requires
        0 <= i < ps.len(),
        ps[i].0 == key,
        forall|j: int| 0 <= j < i ==> ps[j].0 != key,
    ensures
        lookup(ps, key) == Some(ps[i].1),
    decreases i,
{
    if i > 0 {
        lemma_lookup_at(ps.drop_first(), key, i - 1);
    }
}

impl Json {
    /// The value `text` holds, when it is JSON.
    pub fn read(text: &str) -> (r: Option<Json>)
        ensures
            match json_parse(text@) {
                Some(v) => r matches Some(j) && j@ == v,
                None => r is None,
            },
    {
        match parse(text) {
            Ok(j) => Some(j),
            Err(_) => None,
        }
    }

    /// The text of member `key`, when this is an object that has one.
    pub fn get(&self, key: &str) -> (r: Option<String>)
        ensures
            r matches Some(t) ==> field(self@, key@) == Some(t@),
            r is None ==> field(self@, key@) is None,
    {
        match self {
            Json::Object(ps) => {
                let n = ps.len();
                let mut i: usize = 0;
                assert(pair_views(ps@).subrange(0, n as int) =~= pair_views(ps@));
                while i < n
                    invariant
                        self@ == JsonV::Object(pair_views(ps@)),
                        n == ps@.len(),
                        i <= n,
                        lookup(pair_views(ps@), key@) == lookup(pair_views(ps@).subrange(i as int, n as int), key@),
                    decreases n - i,
                {
                    let k = key.to_owned();
                    assert(k@ == key@);
                    assert(pair_views(ps@)[i as int] == (ps@[i as int].0@, ps@[i as int].1@));
                    if ps[i].0 == k {
                        let t = ps[i].1.clone();
                        assert(pair_views(ps@)[i as int].0 == key@);
                        assert(pair_views(ps@).subrange(i as int, n as int)[0] == pair_views(ps@)[i as int]);
                        assert(lookup(pair_views(ps@).subrange(i as int, n as int), key@) == Some(pair_views(ps@)[i as int].1));
                        assert(t@ == pair_views(ps@)[i as int].1);
                        return Some(t);
                    }
                    proof {
                        lemma_lookup_skip(pair_views(ps@), i as int, key@);
                    }
                    i += 1;
                }
                None
            },
            _ => None,
        }
    }

    /// `self[key]`: the member's value, or `Null` when there is none.
    pub fn at(&self, key: &str) -> (r: Json)
        ensures
            r@ == at(self@, key@),
    {
        match self.get(key) {
            Some(t) => match parse(t.as_str()) {
                Ok(v) => v,
                Err(_) => Json::Null,
            },
            None => Json::Null,
        }
    }

    pub fn as_str(&self) -> (r: Option<String>)
        ensures
            r matches Some(s) ==> as_str(self@) == Some(s@),
            r is None ==> as_str(self@) is None,
    {
        match self {
            Json::Str(s) => Some(s.clone()),
            _ => None,
        }
    }

    pub fn as_bool(&self) -> (r: Option<bool>)
        ensures
            r == as_bool(self@),
    {
        match self {
            Json::Bool(b) => Some(*b),
            _ => None,
        }
    }

    /// `self[key].as_str()`.
    pub fn str_at(&self, key: &str) -> (r: Option<String>)
        ensures
            r matches Some(s) ==> str_at(self@, key@) == Some(s@),
            r is None ==> str_at(self@, key@) is None,
    {
        self.at(key).as_str()
    }

    /// `self[key].as_str().unwrap_or_default()`.
    pub fn str_or_empty(&self, key: &str) -> (r: String)
        ensures
            r@ == str_or_empty(self@, key@),
    {
        match self.str_at(key) {
            Some(s) => s,
            None => String::new(),
        }
    }

    /// `self[key].as_bool()`.
    pub fn bool_at(&self, key: &str) -> (r: Option<bool>)
        ensures
            r == bool_at(self@, key@),
    {
        self.at(key).as_bool()
    }
}

} // verus!
