//! The protocol spoken with Wolf over its Unix socket: the request bodies,
//! how a reply is judged, and how its event stream is cut into frames. The
//! socket itself is driven by the application.
use vstd::prelude::*;
use crate::error::{ApiError, BAD_GATEWAY, NOT_FOUND};
use crate::json::{self, Json, JsonV, at, json_parse, json_quote, str_at};
use crate::text::{
    cat, find, first_occurrence, has_prefix, lines, own, slice, spec_lines, spec_strip_prefix, spec_trim,
    strip_prefix, trim, views,
};

verus! {

/// A failure talking to Wolf: the socket, the transport, or Wolf's own
/// `success: false` answer, in Wolf's words.
#[derive(Debug)]
pub struct WolfError(pub String);

impl WolfError {
    /// The message shown for this failure.
    pub fn message(&self) -> (r: String)
        ensures
            r@ == "wolf socket: "@ + self.0@,
    {
        cat("wolf socket: ", &self.0)
    }

    /// What a route answers when Wolf failed it: 502, since the agent is a
    /// gateway to Wolf.
    pub fn into_api(self) -> (r: ApiError)
        ensures
            r.0 == BAD_GATEWAY,
            r.1@ == "wolf socket: "@ + self.0@,
    {
        let m = self.message();
        ApiError::new(BAD_GATEWAY, &m)
    }
}

/// A client waiting to be paired.
#[derive(Debug)]
pub struct PendingPair {
    pub pair_secret: String,
    pub client_ip: String,
    pub client_id: String,
}

/// A client Wolf holds a certificate for.
#[derive(Debug)]
pub struct PairedClient {
    pub client_id: String,
    pub app_state_folder: String,
}

/// An app as Wolf lists it, trimmed: pipelines and runner internals never
/// leave the agent.
#[derive(Debug)]
pub struct WolfApp {
    pub id: String,
    pub title: String,
    pub support_hdr: bool,
    pub icon_png_path: Option<String>,
}

/// Where Wolf's socket is: `WOLF_SOCKET_PATH`, else `wolf.sock` in
/// `XDG_RUNTIME_DIR`, else in `/tmp/sockets`.
pub fn socket_path(wolf_socket_path: Option<String>, runtime_dir: Option<String>) -> (r: String)
    ensures
        match wolf_socket_path {
            Some(p) => r@ == p@,
            None => r@ == (match runtime_dir { Some(d) => d@, None => "/tmp/sockets"@ }) + "/wolf.sock"@,
        },
{
    match wolf_socket_path {
        Some(p) => p,
        None => {
            let dir = match runtime_dir {
                Some(d) => d,
                None => String::from_str("/tmp/sockets"),
            };
            cat(&dir, "/wolf.sock")
        },
    }
}

/// Wolf's word for a failure, or a stand-in when it gave none.
pub open spec fn error_text(v: JsonV) -> Seq<char> {
    match str_at(v, "error"@) {
        Some(e) => e,
        None => "unknown error"@,
    }
}

/// How a reply body is judged: not JSON is a failure; `success: false` is
/// Wolf refusing, in its own words; anything else is the answer.
pub open spec fn reply_ok(body: Seq<char>, r: Result<Json, WolfError>) -> bool {
    match json_parse(body) {
        None => r is Err,
        Some(v) => if at(v, "success"@) == JsonV::Bool(false) {
            r matches Err(e) && e.0@ == error_text(v)
        } else {
            r matches Ok(j) && j@ == v
        },
    }
}

/// Judges a reply body.
pub fn check_reply(body: &str) -> (r: Result<Json, WolfError>)
    ensures
        reply_ok(body@, r),
{
    let v = match json::parse(body) {
        Ok(v) => v,
        Err(e) => return Err(WolfError(e)),
    };
    let success = v.at("success");
    let refused = match success {
        Json::Bool(b) => !b,
        _ => false,
    };
    if refused {
        let e = match v.str_at("error") {
            Some(e) => e,
            None => String::from_str("unknown error"),
        };
        return Err(WolfError(e));
    }
    Ok(v)
}

/// The client id a pairing reply carries.
pub fn paired_client_id(reply: &Json) -> (r: Result<String, WolfError>)
    ensures
        match str_at(reply@, "client_id"@) {
            Some(id) => r is Ok && r->Ok_0@ == id,
            None => r is Err && r->Err_0.0@ == "pair response missing client_id"@,
        },
{
    match reply.str_at("client_id") {
        Some(id) => Ok(id),
        None => Err(WolfError(String::from_str("pair response missing client_id"))),
    }
}

/// The body that asks Wolf to pair a client: `{"pair_secret":…,"pin":…}`.
pub fn pair_body(pair_secret: &str, pin: &str) -> (r: String)
    ensures
        r@ == "{\"pair_secret\":"@ + json_quote(pair_secret@) + ",\"pin\":"@ + json_quote(pin@) + "}"@,
{
    let a = cat("{\"pair_secret\":", &json::quote(pair_secret));
    let b = cat(&a, ",\"pin\":");
    let c = cat(&b, &json::quote(pin));
    cat(&c, "}")
}

/// The body naming one app: `{"id":…}`.
pub fn app_id_body(id: &str) -> (r: String)
    ensures
        r@ == "{\"id\":"@ + json_quote(id@) + "}"@,
{
    let a = cat("{\"id\":", &json::quote(id));
    cat(&a, "}")
}

/// The body naming one client: `{"client_id":…}`.
pub fn client_id_body(client_id: &str) -> (r: String)
    ensures
        r@ == "{\"client_id\":"@ + json_quote(client_id@) + "}"@,
{
    let a = cat("{\"client_id\":", &json::quote(client_id));
    cat(&a, "}")
}

/// A client can be attached to an account only if Wolf has paired it.
pub fn check_known_client(known: &Vec<PairedClient>, client_id: &str) -> (r: Result<(), ApiError>)
    ensures
        (exists|i: int| 0 <= i < known@.len() && #[trigger] known@[i].client_id@ == client_id@) <==> r is Ok,
        r is Err ==> r->Err_0.0 == NOT_FOUND && r->Err_0.1@ == "no paired client with that id"@,
{
    let mut i: usize = 0;
    while i < known.len()
        invariant
            i <= known@.len(),
            forall|j: int| 0 <= j < i ==> known@[j].client_id@ != client_id@,
        decreases known.len() - i,
    {
        if crate::text::eq(&known[i].client_id, client_id) {
            return Ok(());
        }
        i += 1;
    }
    Err(ApiError::not_found("no paired client with that id"))
}

pub open spec fn event_prefix() -> Seq<char> {
    seq!['e', 'v', 'e', 'n', 't', ':', ' ']
}

pub open spec fn data_prefix() -> Seq<char> {
    seq!['d', 'a', 't', 'a', ':', ' ']
}

/// What the lines of a frame say: the last `event: ` line names the kind,
/// the last `data: ` line carries the JSON (absent when it does not parse).
pub open spec fn sse_fields(ls: Seq<Seq<char>>) -> (Option<Seq<char>>, Option<JsonV>)
    decreases ls.len(),
{
    if ls.len() == 0 {
        (None, None)
    } else {
        let (kind, data) = sse_fields(ls.drop_last());
        let line = ls.last();
        match spec_strip_prefix(line, event_prefix()) {
            Some(v) => (Some(spec_trim(v)), data),
            None => match spec_strip_prefix(line, data_prefix()) {
                Some(v) => (kind, json_parse(spec_trim(v))),
                None => (kind, data),
            },
        }
    }
}

/// A frame is an event when it has both a kind and data.
pub open spec fn spec_parse_sse(raw: Seq<char>) -> Option<(Seq<char>, JsonV)> {
    match sse_fields(spec_lines(raw)) {
        (Some(k), Some(d)) => Some((k, d)),
        _ => None,
    }
}

/// Reads one frame of Wolf's event stream.
pub fn parse_sse(raw: &str) -> (r: Option<(String, Json)>)
    ensures
        match spec_parse_sse(raw@) {
            Some((k, d)) => r matches Some(p) && p.0@ == k && p.1@ == d,
            None => r is None,
        },
{
    proof {
        reveal_strlit("event: ");
        reveal_strlit("data: ");
        assert("event: "@ =~= event_prefix());
        assert("data: "@ =~= data_prefix());
    }
    let ls = lines(raw);
    let ghost lv = views(ls@);
    let mut kind: Option<String> = None;
    let mut data: Option<Json> = None;
    let mut i: usize = 0;
    assert(lv.take(0) =~= Seq::<Seq<char>>::empty());
    while i < ls.len()
        invariant
            i <= ls@.len(),
            lv == views(ls@),
            lv == spec_lines(raw@),
            "event: "@ == event_prefix(),
            "data: "@ == data_prefix(),
            ({
                let (k, d) = sse_fields(lv.take(i as int));
                (match kind { Some(s) => Some(s@), None => None }) == k
                    && (match data { Some(j) => Some(j@), None => None }) == d
            }),
        decreases ls.len() - i,
    {
        let line = &ls[i];
        proof {
            assert(lv.take(i + 1).drop_last() =~= lv.take(i as int));
            assert(lv.take(i + 1).last() == line@);
        }
        match strip_prefix(line, "event: ") {
            Some(v) => {
                kind = Some(trim(&v));
            },
            None => match strip_prefix(line, "data: ") {
                Some(v) => {
                    let t = trim(&v);
                    data = match json::parse(&t) {
                        Ok(j) => Some(j),
                        Err(_) => None,
                    };
                },
                None => {},
            },
        }
        i += 1;
    }
    assert(lv.take(ls@.len() as int) =~= lv);
    match (kind, data) {
        (Some(k), Some(d)) => Some((k, d)),
        _ => None,
    }
}

/// What `String::from_utf8_lossy` makes of these bytes.
pub uninterp spec fn utf8_lossy(bytes: Seq<u8>) -> Seq<char>;

/// Calls `String::from_utf8_lossy`. Claimed: the text is a fixed function of
/// the bytes.
#[verifier::external_body]
pub(crate) fn lossy_text(bytes: &[u8]) -> (r: String)
    ensures
        r@ == utf8_lossy(bytes@),
{
    String::from_utf8_lossy(bytes).to_string()
}

pub open spec fn frame_end() -> Seq<char> {
    seq!['\n', '\n']
}

/// What has arrived of Wolf's event stream but is not yet a whole frame.
/// Frames end at a blank line.
pub struct SseBuffer {
    pub pending: String,
}

impl SseBuffer {
    pub fn new() -> (b: SseBuffer)
        ensures
            b.pending@.len() == 0,
    {
        SseBuffer { pending: String::new() }
    }

    /// Appends a chunk as it arrived off the socket.
    pub fn push(&mut self, chunk: &[u8])
        ensures
            final(self).pending@ == old(self).pending@ + utf8_lossy(chunk@),
    {
        let t = lossy_text(chunk);
        self.pending.append(&t);
    }

    /// Takes the next whole frame off the front, without its blank line;
    /// nothing when no frame is complete yet.
    pub fn next_frame(&mut self) -> (r: Option<String>)
        ensures
            match first_occurrence(old(self).pending@, frame_end()) {
                Some(i) => r matches Some(f) && f@ == old(self).pending@.subrange(0, i)
                    && final(self).pending@ == old(self).pending@.subrange(i + 2, old(self).pending@.len() as int),
                None => r is None && final(self).pending@ == old(self).pending@,
            },
    {
        proof {
            reveal_strlit("\n\n");
            assert("\n\n"@ =~= frame_end());
        }
        let found = find(&self.pending, "\n\n");
        proof {
            crate::text::lemma_first_occurrence(self.pending@, frame_end());
        }
        match found {
            Some(i) => {
                let n = self.pending.unicode_len();
                let frame = slice(&self.pending, 0, i);
                let rest = slice(&self.pending, i + 2, n);
                self.pending = rest;
                Some(frame)
            },
            None => None,
        }
    }
}

/// Nothing is lost or made up by cutting frames: what was pending is the
/// frame, the blank line, and what stays pending.
pub proof fn law_frames_partition_the_stream(before: Seq<char>, frame: Seq<char>, after: Seq<char>, i: int)
    requires
        first_occurrence(before, frame_end()) == Some(i),
        frame == before.subrange(0, i),
        after == before.subrange(i + 2, before.len() as int),
    ensures
        before == frame + frame_end() + after,
        !crate::text::contains_seq(frame, frame_end()),
{
    crate::text::lemma_first_occurrence(before, frame_end());
    assert(before =~= frame + frame_end() + after);
    if crate::text::contains_seq(frame, frame_end()) {
        let j = choose|j: int| crate::text::occurs_at(frame, frame_end(), j);
        assert(before.subrange(j, j + 2) =~= frame.subrange(j, j + 2));
        assert(crate::text::occurs_at(before, frame_end(), j));
    }
}

} // verus!
