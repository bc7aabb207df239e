//! What a session runner reports about itself. The runner prints
//! `ALTC-PROGRESS:<pct>` (or `ALTC-PROGRESS:<pct>:FAILED:<reason>`) into its
//! log; nothing else in the stream is forwarded.
use vstd::prelude::*;
use crate::numbers::{parse_unsigned, parse_unsigned_str};
use crate::text::{
    contains, contains_seq, find, first_occurrence, lemma_first_occurrence, own, slice, spec_strip_prefix, spec_trim, strip_prefix, trim,
};
use vstd::string::*;

verus! {

/// A progress line's meaning.
#[derive(Debug)]
pub enum RunnerUpdate {
    Percent(u8),
    Failed(String),
}

pub enum RunnerUpdateV {
    Percent(u8),
    Failed(Seq<char>),
}

impl View for RunnerUpdate {
    type V = RunnerUpdateV;

    open spec fn view(&self) -> RunnerUpdateV {
        match self {
            RunnerUpdate::Percent(p) => RunnerUpdateV::Percent(*p),
            RunnerUpdate::Failed(r) => RunnerUpdateV::Failed(r@),
        }
    }
}

pub open spec fn marker() -> Seq<char> {
    "ALTC-PROGRESS:"@
}

/// `s` with `p` removed from its front as many times as it occurs there, as
/// `trim_start_matches(p)` does.
pub open spec fn strip_all(s: Seq<char>, p: Seq<char>) -> Seq<char>
    decreases s.len(),
{
    if p.len() > 0 && spec_strip_prefix(s, p) is Some {
        strip_all(spec_strip_prefix(s, p)->Some_0, p)
    } else {
        s
    }
}

/// What a log line says: the number after the marker (0-255, capped at
/// 100), or, when the rest of the line after the number holds `FAILED`,
/// the reason that follows it.
pub open spec fn spec_parse_progress(line: Seq<char>) -> Option<RunnerUpdateV> {
    match first_occurrence(line, marker()) {
        None => None,
        Some(idx) => {
            let rest = spec_trim(line.subrange(idx + marker().len(), line.len() as int));
            let head = match first_occurrence(rest, seq![':']) {
                Some(j) => rest.take(j),
                None => rest,
            };
            match parse_unsigned(spec_trim(head), 255) {
                None => None,
                Some(pct) => match first_occurrence(rest, seq![':']) {
                    Some(j) if contains_seq(rest.subrange(j + 1, rest.len() as int), "FAILED"@) =>
                        Some(RunnerUpdateV::Failed(spec_trim(strip_all(rest.subrange(j + 1, rest.len() as int), "FAILED:"@)))),
                    _ => Some(RunnerUpdateV::Percent(if pct > 100 { 100 } else { pct as u8 })),
                },
            }
        },
    }
}

fn strip_all_exec(s: &str, p: &str) -> (r: String)
    ensures
        r@ == strip_all(s@, p@),
    decreases s@.len(),
{
    if p.unicode_len() == 0 {
        return own(s);
    }
    match strip_prefix(s, p) {
        Some(t) => strip_all_exec(t.as_str(), p),
        None => own(s),
    }
}

/// Reads one log line.
pub fn parse_progress(line: &str) -> (r: Option<RunnerUpdate>)
    ensures
        match r {
            Some(u) => spec_parse_progress(line@) == Some(u@),
            None => spec_parse_progress(line@) is None,
        },
{
    let idx = match find(line, "ALTC-PROGRESS:") {
        Some(i) => i,
        None => return None,
    };
    proof {
        reveal_strlit("ALTC-PROGRESS:");
        lemma_first_occurrence(line@, marker());
    }
    let n = line.unicode_len();
    let rest = trim(slice(line, idx + 14, n).as_str()).as_str().to_owned();
    let colon = find(rest.as_str(), ":");
    proof { reveal_strlit(":"); assert(":"@ =~= seq![':']); }
    proof { lemma_first_occurrence(rest@, seq![':']); }
    let head = match colon {
        Some(j) => slice(rest.as_str(), 0, j),
        None => own(rest.as_str()),
    };
    assert(colon matches Some(j) ==> head@ == rest@.take(j as int));
    let pct = match parse_unsigned_str(trim(head.as_str()).as_str(), 255) {
        Some(p) => p,
        None => return None,
    };
    match colon {
        Some(j) => {
            let rn = rest.unicode_len();
            assert(j + 1 <= rest@.len());
            let extra = slice(rest.as_str(), j + 1, rn);
            if contains(extra.as_str(), "FAILED") {
                let reason = trim(strip_all_exec(extra.as_str(), "FAILED:").as_str());
                return Some(RunnerUpdate::Failed(reason));
            }
        },
        None => {},
    }
    let capped: u8 = if pct > 100 { 100 } else { pct as u8 };
    Some(RunnerUpdate::Percent(capped))
}

} // verus!
