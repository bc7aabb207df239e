//! Following a session container's log for the runner's progress lines. The
//! log arrives in chunks of bytes; lines are cut at `\n`, each is read as
//! text, and what is not yet a whole line waits for the next chunk. Docker
//! frames the stream with binary headers, but the payload is plain text, so
//! scanning for lines is enough to find the markers.
use vstd::prelude::*;
use crate::progress::{RunnerUpdate, RunnerUpdateV, parse_progress, spec_parse_progress};
use crate::wolf::{lossy_text, utf8_lossy};

verus! {

/// A partial line longer than this is dropped rather than kept forever.
pub const MAX_PENDING: usize = 65536;

/// The whole lines of `b` (each with its `\n`) and what follows the last one.
#[verifier::opaque]
pub open spec fn log_split(b: Seq<u8>) -> (Seq<Seq<u8>>, Seq<u8>)
    decreases b.len(),
{
    if b.len() == 0 {
        (Seq::empty(), Seq::empty())
    } else {
        let (ls, cur) = log_split(b.drop_last());
        let c = cur.push(b.last());
        if b.last() == 10 { (ls.push(c), Seq::empty()) } else { (ls, c) }
    }
}

/// What one whole line reports.
#[verifier::opaque]
pub open spec fn line_report(line: Seq<u8>) -> Option<RunnerUpdateV> {
    spec_parse_progress(utf8_lossy(line))
}

/// What the lines report, in order.
#[verifier::opaque]
pub open spec fn updates_of(ls: Seq<Seq<u8>>) -> Seq<RunnerUpdateV>
    decreases ls.len(),
{
    if ls.len() == 0 {
        Seq::empty()
    } else {
        let rest = updates_of(ls.drop_last());
        match line_report(ls.last()) {
            Some(u) => rest.push(u),
            None => rest,
        }
    }
}

pub open spec fn update_views(v: Seq<RunnerUpdate>) -> Seq<RunnerUpdateV> {
    v.map_values(|u: RunnerUpdate| u@)
}

proof fn lemma_no_newline_split(b: Seq<u8>)
    requires
        forall|i: int| 0 <= i < b.len() ==> b[i] != 10,
    ensures
        log_split(b) == (Seq::<Seq<u8>>::empty(), b),
    decreases b.len(),
{
    reveal(log_split);
    if b.len() > 0 {
        lemma_no_newline_split(b.drop_last());
        assert(b.drop_last().push(b.last()) =~= b);
    }
}

/// What one whole line reports.
fn line_update(line: &Vec<u8>) -> (r: Option<RunnerUpdate>)
    ensures
        match r {
            Some(u) => line_report(line@) == Some(u@),
            None => line_report(line@) is None,
        },
{
    let text = lossy_text(line.as_slice());
    proof {
        reveal(line_report);
    }
    parse_progress(&text)
}

/// The part of the log that has arrived but is not yet a whole line.
pub struct ProgressReader {
    pending: Vec<u8>,
}

impl ProgressReader {
    #[verifier::type_invariant]
    spec fn no_whole_line(self) -> bool {
        forall|i: int| 0 <= i < self.pending@.len() ==> self.pending@[i] != 10
    }

    pub closed spec fn pending(self) -> Seq<u8> {
        self.pending@
    }

    pub fn new() -> (r: ProgressReader)
        ensures
            r.pending().len() == 0,
    {
        ProgressReader { pending: Vec::new() }
    }

    /// Takes the next chunk of the log: the progress reported by every line
    /// it completes, in order. What is left over waits, unless it has grown
    /// past `MAX_PENDING`, when it is dropped.
    pub fn feed(&mut self, chunk: &[u8]) -> (r: Vec<RunnerUpdate>)
        ensures
            ({
                let (ls, rest) = log_split(old(self).pending() + chunk@);
                &&& update_views(r@) == updates_of(ls)
                &&& final(self).pending() == (if rest.len() > MAX_PENDING { Seq::empty() } else { rest })
            }),
    {
        proof {
            use_type_invariant(&*self);
            lemma_no_newline_split(self.pending@);
        }
        let ghost all = self.pending@ + chunk@;
        let ghost start = self.pending@.len();
        let mut buf: Vec<u8> = Vec::new();
        std::mem::swap(&mut buf, &mut self.pending);
        let mut out: Vec<RunnerUpdate> = Vec::new();
        let mut i: usize = 0;
        proof {
            assert(all.take(start as int) =~= buf@);
            reveal(updates_of);
            assert(update_views(out@) =~= Seq::<RunnerUpdateV>::empty());
        }
        while i < chunk.len()
            invariant
                i <= chunk@.len(),
                all == old(self).pending() + chunk@,
                start == old(self).pending().len(),
                update_views(out@) == updates_of(log_split(all.take(start + i)).0),
                buf@ == log_split(all.take(start + i)).1,
            decreases chunk.len() - i,
        {
            let ghost pre = all.take(start + i);
            proof {
                assert(all.take(start + i + 1) =~= pre.push(chunk@[i as int]));
                lemma_split_step(pre, chunk@[i as int]);
            }
            let byte = chunk[i];
            buf.push(byte);
            if byte == 10 {
                let ghost before = update_views(out@);
                proof {
                    lemma_updates_push(log_split(pre).0, buf@);
                }
                match line_update(&buf) {
                    Some(u) => {
                        out.push(u);
                        assert(update_views(out@) =~= before.push(u@));
                    },
                    None => {},
                }
                buf = Vec::new();
            }
            i += 1;
        }
        proof {
            assert(all.take((start + chunk@.len()) as int) =~= all);
        }
        if buf.len() > MAX_PENDING {
            buf = Vec::new();
        }
        proof {
            let (ls, rest) = log_split(all);
            assert forall|k: int| 0 <= k < buf@.len() implies buf@[k] != 10 by {
                lemma_rest_has_no_newline(all);
            }
        }
        self.pending = buf;
        out
    }
}

proof fn lemma_split_step(pre: Seq<u8>, b: u8)
    ensures
        log_split(pre.push(b)) == (if b == 10 {
            (log_split(pre).0.push(log_split(pre).1.push(b)), Seq::<u8>::empty())
        } else {
            (log_split(pre).0, log_split(pre).1.push(b))
        }),
{
    reveal(log_split);
    assert(pre.push(b).drop_last() =~= pre);
}

proof fn lemma_updates_push(ls: Seq<Seq<u8>>, l: Seq<u8>)
    ensures
        updates_of(ls.push(l)) == (match line_report(l) {
            Some(u) => updates_of(ls).push(u),
            None => updates_of(ls),
        }),
{
    reveal(updates_of);
    assert(ls.push(l).drop_last() =~= ls);
}

proof fn lemma_rest_has_no_newline(b: Seq<u8>)
    ensures
        forall|k: int| 0 <= k < log_split(b).1.len() ==> log_split(b).1[k] != 10,
    decreases b.len(),
{
    reveal(log_split);
    if b.len() > 0 {
        lemma_rest_has_no_newline(b.drop_last());
        let (ls, cur) = log_split(b.drop_last());
        if b.last() != 10 {
            assert(log_split(b).1 == cur.push(b.last()));
            assert forall|k: int| 0 <= k < log_split(b).1.len() implies log_split(b).1[k] != 10 by {
                if k < cur.len() {
                    assert(log_split(b).1[k] == cur[k]);
                }
            }
        }
    }
}

proof fn lemma_split_concat(x: Seq<u8>, y: Seq<u8>)
    ensures
        log_split(x + y) == (
            log_split(x).0 + log_split(log_split(x).1 + y).0,
            log_split(log_split(x).1 + y).1,
        ),
    decreases y.len(),
{
    let r = log_split(x).1;
    if y.len() == 0 {
        assert(x + y =~= x);
        assert(r + y =~= r);
        lemma_rest_has_no_newline(x);
        lemma_no_newline_split(r);
        assert(log_split(x).0 + Seq::<Seq<u8>>::empty() =~= log_split(x).0);
    } else {
        let y0 = y.drop_last();
        let b = y.last();
        lemma_split_concat(x, y0);
        assert(x + y =~= (x + y0).push(b));
        assert(r + y =~= (r + y0).push(b));
        lemma_split_step(x + y0, b);
        lemma_split_step(r + y0, b);
        let m = log_split(r + y0).0;
        let c = log_split(r + y0).1;
        assert((log_split(x).0 + m).push(c.push(b)) =~= log_split(x).0 + m.push(c.push(b)));
    }
}

proof fn lemma_updates_concat(a: Seq<Seq<u8>>, b: Seq<Seq<u8>>)
    ensures
        updates_of(a + b) == updates_of(a) + updates_of(b),
    decreases b.len(),
{
    reveal(updates_of);
    if b.len() == 0 {
        assert(a + b =~= a);
        assert(updates_of(a) + updates_of(b) =~= updates_of(a));
    } else {
        lemma_updates_concat(a, b.drop_last());
        assert((a + b).drop_last() =~= a + b.drop_last());
        assert((a + b).last() == b.last());
        match line_report(b.last()) {
            Some(u) => {
                assert((updates_of(a) + updates_of(b.drop_last())).push(u) =~= updates_of(a) + updates_of(b.drop_last()).push(u));
            },
            None => {},
        }
    }
}

/// Where the log is cut into chunks does not matter: feeding `a` and then
/// `b` reports what feeding them together reports, and leaves the same part
/// waiting, as long as nothing waiting was dropped in between.
pub proof fn law_chunk_boundaries_do_not_matter(pending: Seq<u8>, a: Seq<u8>, b: Seq<u8>)
    requires
        log_split(pending + a).1.len() <= MAX_PENDING,
    ensures
        updates_of(log_split(pending + a).0) + updates_of(log_split(log_split(pending + a).1 + b).0)
            == updates_of(log_split(pending + a + b).0),
        log_split(log_split(pending + a).1 + b).1 == log_split(pending + a + b).1,
{
    lemma_split_concat(pending + a, b);
    lemma_updates_concat(log_split(pending + a).0, log_split(log_split(pending + a).1 + b).0);
}

} // verus!
