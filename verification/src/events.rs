//! Launch progress as clients see it. Wolf's raw events are translated to a
//! handful of client-facing states; everything else Wolf sends is dropped,
//! because its payloads carry session secrets. The tracker holds what the
//! translation needs to remember between events, and decides for each event
//! what (if anything) is forwarded.
use vstd::prelude::*;
use crate::assoc::{StrMap, StrSet};
use crate::json::{self, Json, JsonV, field, json_parse, str_at};
use crate::progress::{RunnerUpdate, RunnerUpdateV};
use crate::text::{eq, last_occurrence, lemma_last_occurrence, own, rfind, slice};
use vstd::string::*;

verus! {

/// One launch state change, as forwarded to clients.
#[derive(Debug)]
pub struct LaunchEvent {
    pub client_id: String,
    pub app_id: Option<String>,
    pub state: String,
    /// 0-100 once known; absent for states that carry no number.
    pub percent: Option<u8>,
    pub error: Option<String>,
}

pub struct LaunchEventV {
    pub client_id: Seq<char>,
    pub app_id: Option<Seq<char>>,
    pub state: Seq<char>,
    pub percent: Option<u8>,
    pub error: Option<Seq<char>>,
}

pub open spec fn opt_view(o: Option<String>) -> Option<Seq<char>> {
    match o {
        Some(s) => Some(s@),
        None => None,
    }
}

impl View for LaunchEvent {
    type V = LaunchEventV;

    open spec fn view(&self) -> LaunchEventV {
        LaunchEventV {
            client_id: self.client_id@,
            app_id: opt_view(self.app_id),
            state: self.state@,
            percent: self.percent,
            error: opt_view(self.error),
        }
    }
}

/// The number every coarse state carries, so a client always has one to
/// render before the runner reports its own.
pub open spec fn spec_coarse_percent(state: Seq<char>) -> Option<u8> {
    if state == "connecting"@ {
        Some(1)
    } else if state == "launching"@ {
        Some(3)
    } else if state == "container_started"@ {
        Some(5)
    } else if state == "stopped"@ {
        Some(0)
    } else {
        None
    }
}

pub fn coarse_percent(state: &str) -> (r: Option<u8>)
    ensures
        r == spec_coarse_percent(state@),
{
    if eq(state, "connecting") {
        Some(1)
    } else if eq(state, "launching") {
        Some(3)
    } else if eq(state, "container_started") {
        Some(5)
    } else if eq(state, "stopped") {
        Some(0)
    } else {
        None
    }
}

/// The last `::`-separated part of an event name: Wolf namespaces its
/// events (`wolf::core::events::StreamSession`).
pub open spec fn leaf(kind: Seq<char>) -> Seq<char> {
    match last_occurrence(kind, "::"@) {
        Some(i) => kind.subrange(i + 2, kind.len() as int),
        None => kind,
    }
}

pub fn leaf_of(kind: &str) -> (r: String)
    ensures
        r@ == leaf(kind@),
{
    proof {
        reveal_strlit("::");
        lemma_last_occurrence(kind@, "::"@);
    }
    match rfind(kind, "::") {
        Some(i) => {
            let n = kind.unicode_len();
            slice(kind, i + 2, n)
        },
        None => own(kind),
    }
}

/// Which member identifies the client, and the state it maps to, for each
/// event Wolf sends that clients see.
pub open spec fn launch_state_of(leaf: Seq<char>) -> Option<(Seq<char>, Seq<char>)> {
    if leaf == "StreamSession"@ {
        Some(("client_id"@, "connecting"@))
    } else if leaf == "StartRunner"@ {
        Some(("session_id"@, "launching"@))
    } else if leaf == "DockerContainerCreated"@ {
        Some(("session_id"@, "container_started"@))
    } else if leaf == "DockerContainerStopped"@ {
        Some(("session_id"@, "stopped"@))
    } else if leaf == "StopStreamEvent"@ {
        Some(("session_id"@, "stopped"@))
    } else if leaf == "PauseStreamEvent"@ {
        Some(("session_id"@, "paused"@))
    } else if leaf == "ResumeStreamEvent"@ {
        Some(("session_id"@, "resumed"@))
    } else {
        None
    }
}

/// A member's value as an identifier: a string as itself, anything else
/// (a number, say) as its JSON text.
pub open spec fn spec_stringify_id(text: Seq<char>) -> Seq<char> {
    match json_parse(text) {
        Some(JsonV::Str(s)) => s,
        _ => text,
    }
}

/// An event as (client id, client-facing state), or `None` for events that
/// are not forwarded or lack their identifying member.
pub open spec fn spec_translate(kind: Seq<char>, data: JsonV) -> Option<(Seq<char>, Seq<char>)> {
    match launch_state_of(leaf(kind)) {
        None => None,
        Some((key, state)) => match field(data, key) {
            None => None,
            Some(t) => Some((spec_stringify_id(t), state)),
        },
    }
}

/// `text` is a member's JSON text.
pub fn stringify_id(text: &str) -> (r: String)
    ensures
        r@ == spec_stringify_id(text@),
{
    match json::parse(text) {
        Ok(Json::Str(s)) => s,
        _ => own(text),
    }
}

fn state_for(leaf: &str) -> (r: Option<(&'static str, &'static str)>)
    ensures
        match r {
            Some((k, s)) => launch_state_of(leaf@) == Some((k@, s@)),
            None => launch_state_of(leaf@) is None,
        },
{
    if eq(leaf, "StreamSession") {
        Some(("client_id", "connecting"))
    } else if eq(leaf, "StartRunner") {
        Some(("session_id", "launching"))
    } else if eq(leaf, "DockerContainerCreated") {
        Some(("session_id", "container_started"))
    } else if eq(leaf, "DockerContainerStopped") {
        Some(("session_id", "stopped"))
    } else if eq(leaf, "StopStreamEvent") {
        Some(("session_id", "stopped"))
    } else if eq(leaf, "PauseStreamEvent") {
        Some(("session_id", "paused"))
    } else if eq(leaf, "ResumeStreamEvent") {
        Some(("session_id", "resumed"))
    } else {
        None
    }
}

pub fn translate(kind: &str, data: &Json) -> (r: Option<(String, String)>)
    ensures
        match r {
            Some((c, s)) => spec_translate(kind@, data@) == Some((c@, s@)),
            None => spec_translate(kind@, data@) is None,
        },
{
    let l = leaf_of(kind);
    let (key, state) = match state_for(l.as_str()) {
        Some(p) => p,
        None => return None,
    };
    match data.get(key) {
        Some(t) => Some((stringify_id(t.as_str()), own(state))),
        None => None,
    }
}

/// What the tracker remembers.
pub struct TrackerV {
    /// Each client's app: only a session's first event names it.
    pub apps: Map<Seq<char>, Seq<char>>,
    /// Clients currently paused.
    pub paused: Set<Seq<char>>,
    /// The last percentage forwarded for each client.
    pub last: Map<Seq<char>, u8>,
    /// Containers whose logs are being followed.
    pub followed: Set<Seq<char>>,
}

/// A container whose runner log should now be followed.
pub struct Follow {
    pub container_id: String,
    pub client_id: String,
    pub app_id: Option<String>,
}

pub struct FollowV {
    pub container_id: Seq<char>,
    pub client_id: Seq<char>,
    pub app_id: Option<Seq<char>>,
}

impl View for Follow {
    type V = FollowV;

    open spec fn view(&self) -> FollowV {
        FollowV { container_id: self.container_id@, client_id: self.client_id@, app_id: opt_view(self.app_id) }
    }
}

/// What handling one event produced: at most one event for clients and at
/// most one container to start following.
pub struct Published {
    pub event: Option<LaunchEvent>,
    pub follow: Option<Follow>,
}

pub open spec fn opt_event_view(e: Option<LaunchEvent>) -> Option<LaunchEventV> {
    match e {
        Some(x) => Some(x@),
        None => None,
    }
}

pub open spec fn opt_follow_view(f: Option<Follow>) -> Option<FollowV> {
    match f {
        Some(x) => Some(x@),
        None => None,
    }
}

/// The ratchet: the new percentages once `pct` is recorded for `client`, or
/// `None` when `pct` would not be an advance. A percentage of 0 or 1 starts
/// a new session and is always accepted.
pub open spec fn ratchet(last: Map<Seq<char>, u8>, client: Seq<char>, pct: u8) -> Option<Map<Seq<char>, u8>> {
    if pct <= 1 {
        Some(last.insert(client, pct))
    } else if last.contains_key(client) && pct <= last[client] {
        None
    } else {
        Some(last.insert(client, pct))
    }
}

/// One Wolf event handled: the next state, the event forwarded, and the
/// container to follow.
pub open spec fn publish_step(m: TrackerV, kind: Seq<char>, data: JsonV) -> (TrackerV, Option<LaunchEventV>, Option<FollowV>) {
    match spec_translate(kind, data) {
        None => (m, None, None),
        Some((c, st)) => if st == "resumed"@ && !m.paused.contains(c) {
            (m, None, None)
        } else {
            let paused1 = if st == "paused"@ {
                m.paused.insert(c)
            } else if st == "resumed"@ {
                m.paused.remove(c)
            } else {
                m.paused
            };
            let (apps1, app) = match str_at(data, "app_id"@) {
                Some(a) => (m.apps.insert(c, a), Some(a)),
                None => (m.apps, if m.apps.contains_key(c) { Some(m.apps[c]) } else { None }),
            };
            let (apps2, paused2) = if st == "stopped"@ {
                (apps1.remove(c), paused1.remove(c))
            } else {
                (apps1, paused1)
            };
            let (followed1, follow) = if st == "container_started"@ {
                match str_at(data, "container_id"@) {
                    Some(cid) => if m.followed.contains(cid) {
                        (m.followed, None)
                    } else {
                        (m.followed.insert(cid), Some(FollowV { container_id: cid, client_id: c, app_id: app }))
                    },
                    None => (m.followed, None),
                }
            } else {
                (m.followed, None)
            };
            let m1 = TrackerV { apps: apps2, paused: paused2, last: m.last, followed: followed1 };
            let ev = LaunchEventV { client_id: c, app_id: app, state: st, percent: spec_coarse_percent(st), error: None };
            match spec_coarse_percent(st) {
                None => (m1, Some(ev), follow),
                Some(p) => match ratchet(m.last, c, p) {
                    None => (m1, None, follow),
                    Some(last1) => (TrackerV { last: last1, ..m1 }, Some(ev), follow),
                },
            }
        },
    }
}

/// One line of a runner's own progress, for `client` running `app`.
pub open spec fn runner_step(m: TrackerV, client: Seq<char>, app: Option<Seq<char>>, u: RunnerUpdateV) -> (TrackerV, Option<LaunchEventV>) {
    match u {
        RunnerUpdateV::Percent(p) => match ratchet(m.last, client, p) {
            None => (m, None),
            Some(last1) => (
                TrackerV { last: last1, ..m },
                Some(LaunchEventV {
                    client_id: client,
                    app_id: app,
                    state: if p >= 100 { "running"@ } else { "starting"@ },
                    percent: Some(p),
                    error: None,
                }),
            ),
        },
        RunnerUpdateV::Failed(reason) => (
            m,
            Some(LaunchEventV { client_id: client, app_id: app, state: "failed"@, percent: None, error: Some(reason) }),
        ),
    }
}

/// Everything the translation of Wolf's event stream needs to remember.
pub struct LaunchTracker {
    apps: StrMap<String>,
    paused: StrSet,
    last_pct: StrMap<u8>,
    followed: StrSet,
}

impl LaunchTracker {
    pub closed spec fn model(&self) -> TrackerV {
        TrackerV {
            apps: self.apps.view().map_values(|s: String| s@),
            paused: self.paused.view(),
            last: self.last_pct.view(),
            followed: self.followed.view(),
        }
    }

    pub fn new() -> (t: LaunchTracker)
        ensures
            t.model() == (TrackerV {
                apps: Map::empty(),
                paused: Set::empty(),
                last: Map::empty(),
                followed: Set::empty(),
            }),
    {
        let t = LaunchTracker { apps: StrMap::new(), paused: StrSet::new(), last_pct: StrMap::new(), followed: StrSet::new() };
        assert(t.model().apps =~= Map::empty());
        t
    }

    /// Records `pct` for `client` when it is an advance; reports whether it was.
    pub fn advances(&mut self, client: &str, pct: u8) -> (r: bool)
        ensures
            r == ratchet(old(self).model().last, client@, pct) is Some,
            final(self).model() == (TrackerV {
                last: match ratchet(old(self).model().last, client@, pct) {
                    Some(l) => l,
                    None => old(self).model().last,
                },
                ..old(self).model()
            }),
    {
        let prev: Option<u8> = match self.last_pct.get(client) {
            Some(p) => Some(*p),
            None => None,
        };
        if pct <= 1 {
            self.last_pct.insert(own(client), pct);
            return true;
        }
        match prev {
            Some(p) if pct <= p => false,
            _ => {
                self.last_pct.insert(own(client), pct);
                true
            },
        }
    }

    /// Handles one Wolf event.
    pub fn publish(&mut self, kind: &str, data: &Json) -> (r: Published)
        ensures
            publish_step(old(self).model(), kind@, data@) == (final(self).model(), opt_event_view(r.event), opt_follow_view(r.follow)),
    {
        let ghost m = self.model();
        let (client_id, state) = match translate(kind, data) {
            Some(t) => t,
            None => return Published { event: None, follow: None },
        };
        let ghost c = client_id@;
        let st = state.as_str();
        proof {
            reveal_strlit("paused");
            reveal_strlit("resumed");
            reveal_strlit("stopped");
            reveal_strlit("container_started");
            reveal_strlit("connecting");
            reveal_strlit("launching");
            assert("paused"@[0] != "resumed"@[0]);
            assert("stopped"@[0] != "resumed"@[0]);
            assert("stopped"@[0] != "paused"@[0]);
            assert("container_started"@[0] != "resumed"@[0]);
            assert("container_started"@[0] != "paused"@[0]);
            assert("container_started"@[0] != "stopped"@[0]);
        }
        let ghost paused1 = if st@ == "paused"@ {
            m.paused.insert(c)
        } else if st@ == "resumed"@ {
            m.paused.remove(c)
        } else {
            m.paused
        };
        if eq(st, "paused") {
            self.paused.insert(own(client_id.as_str()));
        } else if eq(st, "resumed") {
            if !self.paused.remove(client_id.as_str()) {
                assert(self.model().paused =~= m.paused);
                assert(self.model().apps =~= m.apps);
                return Published { event: None, follow: None };
            }
            assert(m.paused.contains(c));
        }
        assert(state@ == "resumed"@ ==> m.paused.contains(c));
        assert(self.model().paused == paused1);
        let ghost app_spec = str_at(data@, "app_id"@);
        let ghost apps1 = match app_spec {
            Some(a) => m.apps.insert(c, a),
            None => m.apps,
        };
        let app_id: Option<String> = match data.str_at("app_id") {
            Some(a) => {
                self.apps.insert(own(client_id.as_str()), own(a.as_str()));
                Some(a)
            },
            None => match self.apps.get(client_id.as_str()) {
                Some(a) => Some(own(a.as_str())),
                None => None,
            },
        };
        assert(self.model().apps =~= apps1);
        assert(opt_view(app_id) == (match app_spec {
            Some(a) => Some(a),
            None => if m.apps.contains_key(c) { Some(m.apps[c]) } else { None },
        }));
        if eq(st, "stopped") {
            self.apps.remove(client_id.as_str());
            self.paused.remove(client_id.as_str());
            assert(self.model().apps =~= apps1.remove(c));
        }
        let mut follow: Option<Follow> = None;
        if eq(st, "container_started") {
            match data.str_at("container_id") {
                Some(cid) => {
                    if self.followed.insert(own(cid.as_str())) {
                        let app_copy = match &app_id {
                            Some(a) => Some(own(a.as_str())),
                            None => None,
                        };
                        follow = Some(Follow { container_id: cid, client_id: own(client_id.as_str()), app_id: app_copy });
                    } else {
                        assert(self.model().followed =~= m.followed);
                    }
                },
                None => {},
            }
        }
        let ghost m1 = self.model();
        let pct = coarse_percent(st);
        match pct {
            Some(p) => {
                if !self.advances(client_id.as_str(), p) {
                    assert(self.model() == m1);
                    return Published { event: None, follow };
                }
            },
            None => {},
        }
        let event = LaunchEvent { client_id, app_id, state, percent: pct, error: None };
        assert(spec_translate(kind@, data@) == Some((c, state@)));
        assert(!(state@ == "resumed"@ && !m.paused.contains(c)));
        assert(m1.last == m.last);
        Published { event: Some(event), follow }
    }

    /// Handles one progress line from the runner of `client`'s session.
    pub fn runner_update(&mut self, client_id: &str, app_id: &Option<String>, u: RunnerUpdate) -> (r: Option<LaunchEvent>)
        ensures
            runner_step(old(self).model(), client_id@, opt_view(*app_id), u@) == (final(self).model(), opt_event_view(r)),
    {
        let app = match app_id {
            Some(a) => Some(own(a.as_str())),
            None => None,
        };
        match u {
            RunnerUpdate::Percent(p) => {
                if !self.advances(client_id, p) {
                    return None;
                }
                let state = if p >= 100 { own("running") } else { own("starting") };
                Some(LaunchEvent { client_id: own(client_id), app_id: app, state, percent: Some(p), error: None })
            },
            RunnerUpdate::Failed(reason) => Some(
                LaunchEvent { client_id: own(client_id), app_id: app, state: own("failed"), percent: None, error: Some(reason) },
            ),
        }
    }

    /// A container's log has ended; it may be followed again.
    pub fn follow_finished(&mut self, container_id: &str)
        ensures
            final(self).model() == (TrackerV { followed: old(self).model().followed.remove(container_id@), ..old(self).model() }),
    {
        self.followed.remove(container_id);
    }
}

/// Progress never appears to go backwards: a percentage above 1 is only
/// forwarded when it exceeds the last one forwarded for that client, and it
/// is then remembered; 0 and 1 start a new session.
pub proof fn law_progress_never_goes_backwards(m: TrackerV, kind: Seq<char>, data: JsonV)
    ensures
        ({
            let (m1, ev, _) = publish_step(m, kind, data);
            ev matches Some(e) ==> (e.percent matches Some(p) ==> (
                m1.last.contains_key(e.client_id) && m1.last[e.client_id] == p
                && (p > 1 && m.last.contains_key(e.client_id) ==> m.last[e.client_id] < p)))
        }),
{
}

/// A runner's own percentages obey the same ratchet as Wolf's coarse states.
pub proof fn law_runner_progress_never_goes_backwards(m: TrackerV, client: Seq<char>, app: Option<Seq<char>>, u: RunnerUpdateV)
    ensures
        ({
            let (m1, ev) = runner_step(m, client, app, u);
            ev matches Some(e) ==> (e.percent matches Some(p) ==> (
                m1.last[client] == p && (p > 1 && m.last.contains_key(client) ==> m.last[client] < p)))
        }),
{
}

/// Wolf also fires a resume while setting a session up; only a resume that
/// follows a pause is forwarded, and a suppressed one changes nothing.
pub proof fn law_resume_needs_a_pause(m: TrackerV, kind: Seq<char>, data: JsonV)
    requires
        spec_translate(kind, data) matches Some((c, st)) && st == "resumed"@ && !m.paused.contains(c),
    ensures
        publish_step(m, kind, data) == (m, None::<LaunchEventV>, None::<FollowV>),
{
}

/// Events that are not launch states are dropped and change nothing.
pub proof fn law_unmapped_events_are_dropped(m: TrackerV, kind: Seq<char>, data: JsonV)
    requires
        launch_state_of(leaf(kind)) is None,
    ensures
        publish_step(m, kind, data) == (m, None::<LaunchEventV>, None::<FollowV>),
{
}

/// A stopped session leaves nothing behind for its client: no remembered
/// app and no pause.
pub proof fn law_stop_forgets_the_session(m: TrackerV, kind: Seq<char>, data: JsonV)
    requires
        spec_translate(kind, data) matches Some((c, st)) && st == "stopped"@,
    ensures
        ({
            let (m1, _, _) = publish_step(m, kind, data);
            let c = spec_translate(kind, data)->Some_0.0;
            !m1.apps.contains_key(c) && !m1.paused.contains(c)
        }),
{
    reveal_strlit("stopped");
    reveal_strlit("resumed");
    reveal_strlit("paused");
    reveal_strlit("container_started");
    reveal_strlit("connecting");
    reveal_strlit("launching");
    assert("paused"@[0] != "resumed"@[0]);
    assert("stopped"@[0] != "resumed"@[0]);
    assert("stopped"@[0] != "paused"@[0]);
    assert("stopped"@[0] != "container_started"@[0]);
}

/// A container is followed at most once at a time.
pub proof fn law_containers_are_followed_once(m: TrackerV, kind: Seq<char>, data: JsonV)
    ensures
        ({
            let (m1, _, f) = publish_step(m, kind, data);
            f matches Some(fv) ==> !m.followed.contains(fv.container_id) && m1.followed.contains(fv.container_id)
        }),
{
}

} // verus!
