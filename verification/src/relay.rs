//! The stream orchestrator: one relay's lifecycle from the upstream
//! response to exactly one terminal signal, with every normalized record
//! delivered in order in between.
//!
//! The orchestrator is a state machine. The caller of the library drives
//! it with what the transport produced (a status, chunks, a failure, the
//! end of the body) and delivers the returned signals to the event sink;
//! every decision is made here.

use crate::pipeline::{
    feed_chunk_spec, flush_spec, initial_state, utf8_to_str, PipeState, SsePipeline,
};
use crate::request::{
    parsed_method, streaming_allowed, transport_error_msg, unsupported_method_msg, ApiError,
    ApiRequest, Method,
};
use crate::text::{dec_of, u64_to_dec};
use vstd::prelude::*;
use vstd::string::StringExecFns;
use vstd::utf8::{decode_utf8, valid_utf8};

verus! {

/// One normalized record, keyed by the stream it belongs to. The data is
/// one `data: <payload>` line with its trailing newline.
#[derive(Debug, Clone)]
pub struct StreamChunk {
    pub stream_id: String,
    pub data: String,
}

/// The successful terminal signal of a stream.
#[derive(Debug, Clone)]
pub struct StreamEnd {
    pub stream_id: String,
}

/// The failing terminal signal of a stream.
#[derive(Debug, Clone)]
pub struct StreamError {
    pub stream_id: String,
    pub error: String,
}

/// One signal delivered to the event sink.
#[derive(Debug, Clone)]
pub enum Signal {
    Chunk(StreamChunk),
    End(StreamEnd),
    Error(StreamError),
}

/// A terminal signal closes the stream; only records may precede it.
pub open spec fn terminal_signal(s: Signal) -> bool {
    !(s is Chunk)
}

pub open spec fn record_signal_matches(s: Signal, id: Seq<char>, rec: Seq<u8>) -> bool {
    &&& s matches Signal::Chunk(c)
    &&& c.stream_id@ == id
    &&& valid_utf8(rec)
    &&& c.data@ == decode_utf8(rec)
}

pub open spec fn end_signal_matches(s: Signal, id: Seq<char>) -> bool {
    s matches Signal::End(e) && e.stream_id@ == id
}

pub open spec fn error_signal_matches(s: Signal, id: Seq<char>, msg: Seq<char>) -> bool {
    s matches Signal::Error(e) && e.stream_id@ == id && e.error@ == msg
}

pub open spec fn http_error_msg(status: u16) -> Seq<char> {
    "HTTP Error: "@ + dec_of(status as nat)
}

pub open spec fn read_error_msg(d: Seq<char>) -> Seq<char> {
    "Stream read error: "@ + d
}

pub open spec fn decode_error_text() -> Seq<char> {
    "UTF-8 decode error"@
}

pub open spec fn sink_error_text() -> Seq<char> {
    "Event delivery failed"@
}

/// What one attempt to read the upstream body produced: a chunk of bytes,
/// or a transport failure described by its message.
pub enum UpstreamEvent {
    Data(Seq<u8>),
    Failed(Seq<char>),
}

/// A signal, reduced to what the lifecycle laws speak about.
pub enum SigKind {
    Record(Seq<u8>),
    End,
    Error(Seq<char>),
}

pub open spec fn terminal_kind(s: SigKind) -> bool {
    !(s is Record)
}

pub open spec fn record_signals(recs: Seq<Seq<u8>>) -> Seq<SigKind> {
    recs.map(|i: int, r: Seq<u8>| SigKind::Record(r))
}

/// The signals of a streaming body read to its end (or to its first
/// failure), starting from the pipeline state `st`.
pub open spec fn run_events(st: PipeState, events: Seq<UpstreamEvent>) -> Seq<SigKind>
    decreases events.len(),
{
    if events.len() == 0 {
        let fin = flush_spec(st);
        if fin.ok {
            record_signals(fin.records).push(SigKind::End)
        } else {
            seq![SigKind::Error(decode_error_text())]
        }
    } else {
        match events[0] {
            UpstreamEvent::Failed(d) => seq![SigKind::Error(read_error_msg(d))],
            UpstreamEvent::Data(b) => {
                let out = feed_chunk_spec(st, b);
                if out.ok {
                    record_signals(out.records) + run_events(out.state, events.drop_first())
                } else {
                    seq![SigKind::Error(decode_error_text())]
                }
            },
        }
    }
}

/// Every signal one stream emits once its upstream response arrived: an
/// error status short-circuits without reading the body; otherwise the
/// body's events run through the pipeline.
pub open spec fn relay_run(status: u16, events: Seq<UpstreamEvent>) -> Seq<SigKind> {
    if status >= 400 {
        seq![SigKind::Error(http_error_msg(status))]
    } else {
        run_events(initial_state(), events)
    }
}

proof fn lemma_run_events_terminal(st: PipeState, events: Seq<UpstreamEvent>)
    ensures
        ({
            let sigs = run_events(st, events);
            &&& sigs.len() > 0
            &&& terminal_kind(sigs.last())
            &&& forall|i: int| 0 <= i < sigs.len() - 1 ==> !terminal_kind(#[trigger] sigs[i])
        }),
    decreases events.len(),
{
    if events.len() == 0 {
    } else {
        match events[0] {
            UpstreamEvent::Failed(_) => {},
            UpstreamEvent::Data(b) => {
                let out = feed_chunk_spec(st, b);
                if out.ok {
                    lemma_run_events_terminal(out.state, events.drop_first());
                    let head = record_signals(out.records);
                    let rest = run_events(out.state, events.drop_first());
                    assert((head + rest).last() == rest.last());
                    assert(forall|i: int|
                        0 <= i < head.len() ==> !terminal_kind(#[trigger] (head + rest)[i]));
                }
            },
        }
    }
}

/// Exactly one terminal signal: however the upstream behaves, the signal
/// sequence of a stream is some records followed by one final `End` or
/// `Error`, and nothing after it.
pub proof fn lemma_exactly_one_terminal(status: u16, events: Seq<UpstreamEvent>)
    ensures
        ({
            let sigs = relay_run(status, events);
            &&& sigs.len() > 0
            &&& terminal_kind(sigs.last())
            &&& forall|i: int| 0 <= i < sigs.len() - 1 ==> !terminal_kind(#[trigger] sigs[i])
        }),
{
    if status < 400 {
        lemma_run_events_terminal(initial_state(), events);
    }
}

/// An upstream error status short-circuits the stream: the one signal is
/// the error, and no record is emitted, whatever the body held.
pub proof fn lemma_error_status_short_circuits(status: u16, events: Seq<UpstreamEvent>)
    requires
        status >= 400,
    ensures
        relay_run(status, events) == seq![SigKind::Error(http_error_msg(status))],
{
}

/// Where the orchestrator stands in a stream's lifecycle.
#[derive(Debug, Clone, Copy, PartialEq, Eq, Structural)]
pub enum Phase {
    /// The request is on its way; no response yet.
    Sending,
    /// A usable response arrived; the body is being relayed.
    Streaming,
    /// A terminal signal has been produced; nothing may follow.
    Done,
}

/// The orchestrator of one streaming relay.
pub struct StreamRelay {
    stream_id: String,
    pipe: SsePipeline,
    phase: Phase,
}

impl StreamRelay {
    pub closed spec fn spec_phase(&self) -> Phase {
        self.phase
    }

    pub closed spec fn id(&self) -> Seq<char> {
        self.stream_id@
    }

    pub closed spec fn pipe_state(&self) -> PipeState {
        self.pipe.state()
    }

    pub fn new(stream_id: String) -> (r: Self)
        ensures
            r.spec_phase() is Sending,
            r.id() == stream_id@,
            r.pipe_state() == initial_state(),
    {
        StreamRelay { stream_id, pipe: SsePipeline::new(), phase: Phase::Sending }
    }

    /// The record `rec`, wrapped as a signal for this stream.
    fn chunk_signal(&self, rec: &[u8]) -> (s: Signal)
        requires
            valid_utf8(rec@),
        ensures
            record_signal_matches(s, self.id(), rec@),
    {
        match utf8_to_str(rec) {
            Some(text) => Signal::Chunk(
                StreamChunk { stream_id: self.stream_id.clone(), data: text.to_owned() },
            ),
            None => {
                proof {
                    assert(false);
                }
                vstd::pervasive::unreached()
            },
        }
    }

    fn error_signal(&self, error: String) -> (s: Signal)
        ensures
            error_signal_matches(s, self.id(), error@),
    {
        Signal::Error(StreamError { stream_id: self.stream_id.clone(), error })
    }

    /// The request itself failed: no response, no body. Terminal.
    pub fn on_transport_error(&mut self, detail: &str) -> (s: Signal)
        requires
            old(self).spec_phase() is Sending,
        ensures
            final(self).spec_phase() is Done,
            final(self).id() == old(self).id(),
            error_signal_matches(s, old(self).id(), transport_error_msg(detail@)),
    {
        self.phase = Phase::Done;
        self.error_signal(crate::text::prefixed("HTTP request failed: ", detail))
    }

    /// A response arrived. An error status (at least 400) is terminal at
    /// once — the body is not read; anything else opens the stream.
    pub fn on_status(&mut self, status: u16) -> (r: Option<Signal>)
        requires
            old(self).spec_phase() is Sending,
        ensures
            final(self).id() == old(self).id(),
            if status >= 400 {
                &&& final(self).spec_phase() is Done
                &&& r matches Some(s) && error_signal_matches(
                    s,
                    old(self).id(),
                    http_error_msg(status),
                )
            } else {
                &&& final(self).spec_phase() is Streaming
                &&& final(self).pipe_state() == old(self).pipe_state()
                &&& r is None
            },
    {
        if status >= 400 {
            self.phase = Phase::Done;
            let mut msg = String::from_str("HTTP Error: ");
            let d = u64_to_dec(status as u64);
            msg.append(d.as_str());
            Some(self.error_signal(msg))
        } else {
            self.phase = Phase::Streaming;
            None
        }
    }

    /// One chunk of the body: emit the records its complete lines produce,
    /// in order, or a terminal decode error.
    pub fn on_chunk(&mut self, chunk: &[u8]) -> (sigs: Vec<Signal>)
        requires
            old(self).spec_phase() is Streaming,
        ensures
            final(self).id() == old(self).id(),
            ({
                let out = feed_chunk_spec(old(self).pipe_state(), chunk@);
                if out.ok {
                    &&& final(self).spec_phase() is Streaming
                    &&& final(self).pipe_state() == out.state
                    &&& sigs@.len() == out.records.len()
                    &&& forall|i: int|
                        0 <= i < sigs@.len() ==> record_signal_matches(
                            #[trigger] sigs@[i],
                            old(self).id(),
                            out.records[i],
                        )
                } else {
                    &&& final(self).spec_phase() is Done
                    &&& sigs@.len() == 1
                    &&& error_signal_matches(sigs@[0], old(self).id(), decode_error_text())
                }
            }),
    {
        match self.pipe.feed(chunk) {
            Ok(recs) => {
                let ghost out = feed_chunk_spec(old(self).pipe_state(), chunk@);
                let mut sigs: Vec<Signal> = Vec::new();
                let n = recs.len();
                let mut i: usize = 0;
                while i < n
                    invariant
                        i <= n == recs@.len(),
                        crate::lines::lines_match(recs@, out.records),
                        forall|j: int| 0 <= j < recs@.len() ==> valid_utf8(#[trigger] recs@[j]@),
                        self.id() == old(self).id(),
                        sigs@.len() == i,
                        forall|j: int|
                            0 <= j < i ==> record_signal_matches(
                                #[trigger] sigs@[j],
                                old(self).id(),
                                out.records[j],
                            ),
                    decreases n - i,
                {
                    let s = self.chunk_signal((&recs[i]).as_slice());
                    sigs.push(s);
                    i += 1;
                }
                sigs
            },
            Err(_) => {
                self.phase = Phase::Done;
                let s = self.error_signal(String::from_str("UTF-8 decode error"));
                let mut sigs: Vec<Signal> = Vec::new();
                sigs.push(s);
                sigs
            },
        }
    }

    /// Reading the body failed mid-stream. Terminal.
    pub fn on_read_error(&mut self, detail: &str) -> (s: Signal)
        requires
            old(self).spec_phase() is Streaming,
        ensures
            final(self).spec_phase() is Done,
            final(self).id() == old(self).id(),
            error_signal_matches(s, old(self).id(), read_error_msg(detail@)),
    {
        self.phase = Phase::Done;
        self.error_signal(crate::text::prefixed("Stream read error: ", detail))
    }

    /// The event sink stopped accepting deliveries: producing further work
    /// is pointless. Terminal.
    pub fn on_sink_failure(&mut self) -> (s: Signal)
        requires
            old(self).spec_phase() is Streaming,
        ensures
            final(self).spec_phase() is Done,
            final(self).id() == old(self).id(),
            error_signal_matches(s, old(self).id(), sink_error_text()),
    {
        self.phase = Phase::Done;
        self.error_signal(String::from_str("Event delivery failed"))
    }

    /// The body ended: flush the carried tail as a final line, emit what it
    /// produces, and close the stream with its one `End` signal.
    pub fn on_body_end(&mut self) -> (sigs: Vec<Signal>)
        requires
            old(self).spec_phase() is Streaming,
        ensures
            final(self).spec_phase() is Done,
            final(self).id() == old(self).id(),
            ({
                let fin = flush_spec(old(self).pipe_state());
                if fin.ok {
                    &&& sigs@.len() == fin.records.len() + 1
                    &&& forall|i: int|
                        0 <= i < fin.records.len() ==> record_signal_matches(
                            #[trigger] sigs@[i],
                            old(self).id(),
                            fin.records[i],
                        )
                    &&& end_signal_matches(sigs@.last(), old(self).id())
                } else {
                    &&& sigs@.len() == 1
                    &&& error_signal_matches(sigs@[0], old(self).id(), decode_error_text())
                }
            }),
    {
        self.phase = Phase::Done;
        match self.pipe.finish() {
            Ok(recs) => {
                let ghost fin = flush_spec(old(self).pipe_state());
                let mut sigs: Vec<Signal> = Vec::new();
                let n = recs.len();
                let mut i: usize = 0;
                while i < n
                    invariant
                        i <= n == recs@.len(),
                        crate::lines::lines_match(recs@, fin.records),
                        forall|j: int| 0 <= j < recs@.len() ==> valid_utf8(#[trigger] recs@[j]@),
                        self.id() == old(self).id(),
                        sigs@.len() == i,
                        forall|j: int|
                            0 <= j < i ==> record_signal_matches(
                                #[trigger] sigs@[j],
                                old(self).id(),
                                fin.records[j],
                            ),
                    decreases n - i,
                {
                    let s = self.chunk_signal((&recs[i]).as_slice());
                    sigs.push(s);
                    i += 1;
                }
                sigs.push(Signal::End(StreamEnd { stream_id: self.stream_id.clone() }));
                sigs
            },
            Err(_) => {
                let s = self.error_signal(String::from_str("UTF-8 decode error"));
                let mut sigs: Vec<Signal> = Vec::new();
                sigs.push(s);
                sigs
            },
        }
    }
}

/// Accept a streaming request: validate the method before any I/O, and
/// only then mint the stream handle and the orchestrator for its run. The
/// handle goes back to the caller synchronously; the relay then runs in
/// the background.
pub fn start_stream(request: &ApiRequest) -> (r: Result<(String, Method, StreamRelay), ApiError>)
    ensures
        match r {
            Ok((id, m, relay)) => {
                &&& parsed_method(request.method@) == Some(m)
                &&& streaming_allowed(m)
                &&& id@.len() == 36
                &&& relay.spec_phase() is Sending
                &&& relay.id() == id@
                &&& relay.pipe_state() == initial_state()
            },
            Err(e) => {
                &&& !(parsed_method(request.method@) matches Some(m) && streaming_allowed(m))
                &&& e.message@ == unsupported_method_msg(request.method@)
                &&& e.status is None
            },
        },
{
    match crate::request::validate_stream_method(request.method.as_str()) {
        Ok(m) => {
            let id = crate::ids::fresh_uuid();
            let relay = StreamRelay::new(id.clone());
            Ok((id, m, relay))
        },
        Err(e) => Err(e),
    }
}

} // verus!
