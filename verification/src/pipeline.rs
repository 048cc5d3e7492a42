//! The streaming pipeline: line reassembly, per-line UTF-8 validation and
//! `data:` field extraction, with the split-invariance law tying the chunked
//! run to a run over the whole input at once.
//!
//! Validation happens per complete line rather than per chunk: a newline is
//! ASCII and never falls inside a multi-byte scalar, so exactly the same
//! inputs are rejected, but the outcome no longer depends on where the
//! transport happened to cut its chunks.

use crate::lines::{concat_of, lines_match, scan_from, LineReassembler};
use crate::sse::{extract_step, lemma_record_valid, DataExtractor};
use vstd::prelude::*;
use vstd::utf8::{decode_utf8, valid_utf8};

verus! {

/// Relies on core::str::from_utf8: it returns `Ok` exactly when the bytes
/// are a valid UTF-8 encoding, and the resulting `&str` views those same
/// bytes, so its characters are their decoding.
#[verifier::external_body]
pub(crate) fn utf8_to_str(b: &[u8]) -> (r: Option<&str>)
    ensures
        match r {
            Some(s) => valid_utf8(b@) && s@ == decode_utf8(b@),
            None => !valid_utf8(b@),
        },
{
    core::str::from_utf8(b).ok()
}

/// The records carried by `r`, as a sequence: none or one.
pub open spec fn opt_rec(r: Option<Seq<u8>>) -> Seq<Seq<u8>> {
    match r {
        Some(x) => seq![x],
        None => Seq::empty(),
    }
}

/// Run the extractor over complete lines, in order, validating each line's
/// encoding first. Returns the final pending flag, the records emitted, and
/// whether every line was valid; an invalid line poisons the whole run and
/// withholds its records.
pub open spec fn run_lines(pending: bool, ls: Seq<Seq<u8>>) -> (bool, Seq<Seq<u8>>, bool)
    decreases ls.len(),
{
    if ls.len() == 0 {
        (pending, Seq::empty(), true)
    } else if !valid_utf8(ls[0]) {
        (pending, Seq::empty(), false)
    } else {
        let s = extract_step(pending, ls[0]);
        let rest = run_lines(s.0, ls.drop_first());
        if rest.2 {
            (rest.0, opt_rec(s.1) + rest.1, true)
        } else {
            (rest.0, Seq::empty(), false)
        }
    }
}

/// A run succeeds exactly when every line is valid UTF-8.
pub proof fn lemma_run_lines_ok(pending: bool, ls: Seq<Seq<u8>>)
    ensures
        run_lines(pending, ls).2 <==> (forall|i: int|
            0 <= i < ls.len() ==> valid_utf8(#[trigger] ls[i])),
    decreases ls.len(),
{
    if ls.len() == 0 {
    } else if !valid_utf8(ls[0]) {
    } else {
        let s = extract_step(pending, ls[0]);
        let d = ls.drop_first();
        lemma_run_lines_ok(s.0, d);
        if run_lines(s.0, d).2 {
            assert forall|i: int| 0 <= i < ls.len() implies valid_utf8(#[trigger] ls[i]) by {
                if i > 0 {
                    assert(valid_utf8(d[i - 1]));
                }
            }
        } else {
            let j = choose|j: int| 0 <= j < d.len() && !valid_utf8(#[trigger] d[j]);
            assert(ls[j + 1] == d[j]);
            assert(!valid_utf8(ls[j + 1]));
        }
    }
}

/// Runs compose: running `a + b` is running `a`, then running `b` with the
/// flag that `a` left behind, and concatenating the records.
pub proof fn lemma_run_lines_append(pending: bool, a: Seq<Seq<u8>>, b: Seq<Seq<u8>>)
    ensures
        ({
            let ra = run_lines(pending, a);
            let rb = run_lines(ra.0, b);
            let rab = run_lines(pending, a + b);
            &&& rab.2 == (ra.2 && rb.2)
            &&& ra.2 ==> rab.0 == rb.0
            &&& (ra.2 && rb.2) ==> rab.1 == ra.1 + rb.1
        }),
    decreases a.len(),
{
    if a.len() == 0 {
        assert(a + b =~= b);
        assert(run_lines(pending, a).1 + run_lines(run_lines(pending, a).0, b).1 =~= run_lines(
            run_lines(pending, a).0,
            b,
        ).1);
    } else {
        assert((a + b)[0] == a[0]);
        if valid_utf8(a[0]) {
            let s = extract_step(pending, a[0]);
            lemma_run_lines_append(s.0, a.drop_first(), b);
            assert((a + b).drop_first() =~= a.drop_first() + b);
            let ra1 = run_lines(s.0, a.drop_first());
            let rb = run_lines(ra1.0, b);
            if ra1.2 && rb.2 {
                assert(opt_rec(s.1) + (ra1.1 + rb.1) =~= (opt_rec(s.1) + ra1.1) + rb.1);
            }
        }
    }
}

/// The private state of one pipeline instance: the carried-over tail of an
/// unterminated line, and the extractor's pending-label flag.
pub struct PipeState {
    pub tail: Seq<u8>,
    pub pending: bool,
}

/// What one step of the pipeline produces: the state afterwards, the
/// records emitted, and whether every line seen was a valid encoding.
pub struct FeedOutcome {
    pub state: PipeState,
    pub records: Seq<Seq<u8>>,
    pub ok: bool,
}

/// Feeding one chunk: scan it into complete lines, then run the extractor
/// over them.
pub open spec fn feed_chunk_spec(st: PipeState, chunk: Seq<u8>) -> FeedOutcome {
    let sc = scan_from((Seq::empty(), st.tail), chunk);
    let r = run_lines(st.pending, sc.0);
    FeedOutcome {
        state: PipeState { tail: sc.1, pending: r.0 },
        records: if r.2 {
            r.1
        } else {
            Seq::empty()
        },
        ok: r.2,
    }
}

/// End of input: a non-empty carried-over tail counts as one final complete
/// line; a still-pending bare label is dropped without a record.
pub open spec fn flush_spec(st: PipeState) -> FeedOutcome {
    let ls: Seq<Seq<u8>> = if st.tail.len() > 0 {
        seq![st.tail]
    } else {
        Seq::empty()
    };
    let r = run_lines(st.pending, ls);
    FeedOutcome {
        state: PipeState { tail: Seq::empty(), pending: r.0 },
        records: if r.2 {
            r.1
        } else {
            Seq::empty()
        },
        ok: r.2,
    }
}

/// Feeding a sequence of chunks, stopping at the first invalid line.
pub open spec fn feed_all_spec(st: PipeState, chunks: Seq<Seq<u8>>) -> FeedOutcome
    decreases chunks.len(),
{
    if chunks.len() == 0 {
        FeedOutcome { state: st, records: Seq::empty(), ok: true }
    } else {
        let first = feed_chunk_spec(st, chunks[0]);
        if !first.ok {
            first
        } else {
            let rest = feed_all_spec(first.state, chunks.drop_first());
            FeedOutcome {
                state: rest.state,
                records: first.records + rest.records,
                ok: rest.ok,
            }
        }
    }
}

/// The fresh pipeline state.
pub open spec fn initial_state() -> PipeState {
    PipeState { tail: Seq::empty(), pending: false }
}

/// The records of a whole stream delivered as one chunk, final flush
/// included.
pub open spec fn stream_records(input: Seq<u8>) -> Seq<Seq<u8>> {
    let f = feed_chunk_spec(initial_state(), input);
    if !f.ok {
        f.records
    } else {
        f.records + flush_spec(f.state).records
    }
}

/// Whether a whole stream decodes cleanly, line by line.
pub open spec fn stream_ok(input: Seq<u8>) -> bool {
    let f = feed_chunk_spec(initial_state(), input);
    f.ok && flush_spec(f.state).ok
}

/// The records of a stream delivered chunk by chunk, final flush included.
pub open spec fn chunked_records(chunks: Seq<Seq<u8>>) -> Seq<Seq<u8>> {
    let f = feed_all_spec(initial_state(), chunks);
    if !f.ok {
        f.records
    } else {
        f.records + flush_spec(f.state).records
    }
}

/// Whether a chunked delivery decodes cleanly, line by line.
pub open spec fn chunked_ok(chunks: Seq<Seq<u8>>) -> bool {
    let f = feed_all_spec(initial_state(), chunks);
    f.ok && flush_spec(f.state).ok
}

/// Feeding chunks one at a time is feeding their concatenation at once.
proof fn lemma_feed_all_concat(st: PipeState, chunks: Seq<Seq<u8>>)
    ensures
        ({
            let single = feed_chunk_spec(st, concat_of(chunks));
            let multi = feed_all_spec(st, chunks);
            &&& multi.ok == single.ok
            &&& multi.ok ==> multi.state == single.state && multi.records == single.records
        }),
    decreases chunks.len(),
{
    if chunks.len() == 0 {
        let single = feed_chunk_spec(st, concat_of(chunks));
        assert(single.records =~= Seq::<Seq<u8>>::empty());
        assert(single.state.tail =~= st.tail);
    } else {
        let c0 = chunks[0];
        let rest = chunks.drop_first();
        crate::lines::lemma_scan_append((Seq::empty(), st.tail), c0, concat_of(rest));
        let sc0 = scan_from((Seq::empty(), st.tail), c0);
        crate::lines::lemma_scan_grows(sc0, concat_of(rest));
        let sc1 = scan_from((Seq::empty(), sc0.1), concat_of(rest));
        lemma_run_lines_append(st.pending, sc0.0, sc1.0);
        let first = feed_chunk_spec(st, c0);
        lemma_feed_all_concat(first.state, rest);
    }
}

/// Split-invariance: however the transport cuts a cleanly-decoding byte
/// stream into chunks, the pipeline emits exactly the records of the whole
/// stream, in the same order. Chunk boundaries are unobservable.
pub proof fn lemma_split_invariance(chunks: Seq<Seq<u8>>)
    ensures
        chunked_ok(chunks) == stream_ok(concat_of(chunks)),
        stream_ok(concat_of(chunks)) ==> chunked_records(chunks) == stream_records(
            concat_of(chunks),
        ),
{
    lemma_feed_all_concat(initial_state(), chunks);
}

/// One relay's pipeline: reassembles lines out of chunks, validates each
/// line's encoding, and extracts normalized `data:` records.
pub struct SsePipeline {
    reasm: LineReassembler,
    ext: DataExtractor,
}

impl SsePipeline {
    /// The carried tail and pending flag, as the specifications see them.
    pub closed spec fn state(&self) -> PipeState {
        PipeState { tail: self.reasm@, pending: self.ext@ }
    }

    pub fn new() -> (r: Self)
        ensures
            r.state() == initial_state(),
    {
        let r = SsePipeline { reasm: LineReassembler::new(), ext: DataExtractor::new() };
        proof {
            assert(r.state().tail =~= initial_state().tail);
        }
        r
    }

    /// Feed one chunk; emit the records its complete lines produce, in
    /// order. `Err` reports an invalid encoding on some line: the stream
    /// cannot be resynchronized and the records of this chunk are withheld.
    pub fn feed(&mut self, chunk: &[u8]) -> (r: Result<Vec<Vec<u8>>, ()>)
        ensures
            ({
                let out = feed_chunk_spec(old(self).state(), chunk@);
                match r {
                    Ok(recs) => {
                        &&& out.ok
                        &&& final(self).state() == out.state
                        &&& lines_match(recs@, out.records)
                        &&& forall|i: int|
                            0 <= i < recs@.len() ==> valid_utf8(#[trigger] recs@[i]@)
                    },
                    Err(_) => !out.ok,
                }
            }),
    {
        let ghost pending0 = self.ext@;
        let lines = self.reasm.feed(chunk);
        let ghost ls = scan_from((Seq::empty(), old(self).state().tail), chunk@).0;
        let n = lines.len();
        let mut k: usize = 0;
        while k < n
            invariant
                k <= n == lines@.len(),
                lines_match(lines@, ls),
                pending0 == old(self).state().pending,
                ls == scan_from((Seq::empty(), old(self).state().tail), chunk@).0,
                forall|j: int| 0 <= j < k ==> valid_utf8(#[trigger] ls[j]),
            decreases n - k,
        {
            if utf8_to_str((&lines[k]).as_slice()).is_none() {
                proof {
                    assert(lines@[k as int]@ == ls[k as int]);
                    assert(!valid_utf8(ls[k as int]));
                    lemma_run_lines_ok(pending0, ls);
                    assert(!feed_chunk_spec(old(self).state(), chunk@).ok);
                }
                return Err(());
            }
            proof {
                assert(lines@[k as int]@ == ls[k as int]);
            }
            k += 1;
        }
        proof {
            lemma_run_lines_ok(pending0, ls);
        }
        let mut recs: Vec<Vec<u8>> = Vec::new();
        k = 0;
        while k < n
            invariant
                k <= n == lines@.len(),
                lines_match(lines@, ls),
                pending0 == old(self).state().pending,
                ls == scan_from((Seq::empty(), old(self).state().tail), chunk@).0,
                forall|j: int| 0 <= j < ls.len() ==> valid_utf8(#[trigger] ls[j]),
                self.ext@ == run_lines(pending0, ls.take(k as int)).0,
                run_lines(pending0, ls.take(k as int)).2,
                lines_match(recs@, run_lines(pending0, ls.take(k as int)).1),
                forall|i: int| 0 <= i < recs@.len() ==> valid_utf8(#[trigger] recs@[i]@),
                self.reasm@ == scan_from((Seq::empty(), old(self).state().tail), chunk@).1,
            decreases n - k,
        {
            let ghost pre = run_lines(pending0, ls.take(k as int));
            let ghost step = extract_step(pre.0, ls[k as int]);
            proof {
                assert(ls.take(k + 1) =~= ls.take(k as int) + seq![ls[k as int]]);
                lemma_run_lines_append(pending0, ls.take(k as int), seq![ls[k as int]]);
                let one_ls = seq![ls[k as int]];
                assert(one_ls[0] == ls[k as int]);
                assert(one_ls.drop_first() =~= Seq::<Seq<u8>>::empty());
                assert(run_lines(step.0, one_ls.drop_first()) == (
                    step.0,
                    Seq::<Seq<u8>>::empty(),
                    true,
                ));
                assert(run_lines(pre.0, one_ls) == (step.0, opt_rec(step.1) + Seq::empty(), true));
                assert(opt_rec(step.1) + Seq::<Seq<u8>>::empty() =~= opt_rec(step.1));
                lemma_record_valid(pre.0, ls[k as int]);
                assert(lines@[k as int]@ == ls[k as int]);
            }
            let rec = self.ext.feed_line((&lines[k]).as_slice());
            if let Some(v) = rec {
                recs.push(v);
                proof {
                    assert(v@ == step.1->Some_0);
                    assert(opt_rec(step.1)[0] == v@);
                    assert(lines_match(recs@, pre.1 + opt_rec(step.1)));
                }
            } else {
                proof {
                    assert(pre.1 + opt_rec(step.1) =~= pre.1);
                }
            }
            proof {
                assert(run_lines(pending0, ls.take(k + 1)).1 == pre.1 + opt_rec(step.1));
                assert(run_lines(pending0, ls.take(k + 1)).0 == step.0);
            }
            k += 1;
        }
        proof {
            assert(ls.take(n as int) =~= ls);
        }
        Ok(recs)
    }

    /// End of input: flush the carried tail as one final line, if there is
    /// one, and emit what it produces. A pending bare label is dropped.
    pub fn finish(&mut self) -> (r: Result<Vec<Vec<u8>>, ()>)
        ensures
            ({
                let out = flush_spec(old(self).state());
                match r {
                    Ok(recs) => {
                        &&& out.ok
                        &&& final(self).state() == out.state
                        &&& lines_match(recs@, out.records)
                        &&& forall|i: int|
                            0 <= i < recs@.len() ==> valid_utf8(#[trigger] recs@[i]@)
                    },
                    Err(_) => !out.ok,
                }
            }),
    {
        let ghost pending0 = self.ext@;
        let tail = self.reasm.take_tail();
        match tail {
            None => {
                let recs: Vec<Vec<u8>> = Vec::new();
                proof {
                    let out = flush_spec(old(self).state());
                    assert(out.ok);
                    assert(self.state().tail =~= out.state.tail);
                    assert(lines_match(recs@, out.records));
                }
                Ok(recs)
            },
            Some(line) => {
                let ghost ls = seq![line@];
                if utf8_to_str(line.as_slice()).is_none() {
                    proof {
                        assert(!valid_utf8(ls[0]));
                        assert(!run_lines(pending0, ls).2);
                    }
                    return Err(());
                }
                let ghost step = extract_step(pending0, line@);
                proof {
                    assert(ls[0] == line@);
                    assert(ls.drop_first() =~= Seq::<Seq<u8>>::empty());
                    assert(run_lines(step.0, ls.drop_first()) == (
                        step.0,
                        Seq::<Seq<u8>>::empty(),
                        true,
                    ));
                    assert(run_lines(pending0, ls) == (step.0, opt_rec(step.1) + Seq::empty(), true));
                    assert(opt_rec(step.1) + Seq::<Seq<u8>>::empty() =~= opt_rec(step.1));
                    lemma_record_valid(pending0, line@);
                }
                let rec = self.ext.feed_line(line.as_slice());
                let mut recs: Vec<Vec<u8>> = Vec::new();
                if let Some(v) = rec {
                    recs.push(v);
                    proof {
                        assert(opt_rec(step.1)[0] == v@);
                        assert(lines_match(recs@, opt_rec(step.1)));
                    }
                } else {
                    proof {
                        assert(lines_match(recs@, opt_rec(step.1)));
                    }
                }
                proof {
                    let out = flush_spec(old(self).state());
                    assert(out.records == opt_rec(step.1));
                    assert(self.state().tail =~= out.state.tail);
                }
                Ok(recs)
            },
        }
    }
}

} // verus!
