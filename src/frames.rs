//! The frame view of bodies: the decoder that turns a host incoming body
//! into data frames followed by at most one trailers frame, and the sender
//! that forwards frames to a host outgoing body.

use vstd::prelude::*;
use crate::body::{BodyHint, FieldPairs};
use crate::headers::{
    groups_wf,
    lemma_fields_round_trip,
    lemma_fields_stop_small,
    field_error_for,
    fields_stop,
    flatten,
    groups_of_pairs,
    header_groups,
    header_map_from_fields,
    header_map_to_fields,
    pairs_view,
    FieldError,
    FieldGroup,
    MAX_FIELD_NAMES,
};

verus! {

/// The largest read the decoder asks of the host stream at once.
pub const MAX_FRAME_SIZE: u64 = 65536;

/// A frame of a body: data, or the trailers that close it.
#[derive(Debug)]
pub enum Frame {
    Data(Vec<u8>),
    Trailers(http::HeaderMap),
}

/// What a host stream read gave.
#[derive(Debug)]
pub enum ReadOutcome {
    /// Bytes, possibly none yet.
    Bytes(Vec<u8>),
    /// The stream is closed: no more bytes will come.
    Closed,
    /// The last operation failed, with the host's description.
    Failed(String),
}

/// What asking the host for the trailers of a finished body gave.
#[derive(Debug)]
pub enum TrailersOutcome {
    /// Not there yet.
    Pending,
    /// The trailer fields, as (name, value) pairs.
    Fields(FieldPairs),
    /// The body had no trailers.
    Absent,
    /// The host failed to deliver them.
    Failed(wasip2::http::types::ErrorCode),
}

/// An event the host hands to the decoder.
#[derive(Debug)]
pub enum HostEvent {
    Read(ReadOutcome),
    Trailers(TrailersOutcome),
}

/// The errors of reading a body.
#[derive(Debug)]
pub enum BodyError {
    /// Reading the incoming body stream failed.
    ReadStream(String),
    /// The host failed to deliver the incoming trailers.
    ReadTrailers(wasip2::http::types::ErrorCode),
    /// The incoming trailers are no valid header map.
    DecodeTrailers(FieldError),
}

/// What the decoder asks of its driver after an event.
#[derive(Debug)]
pub enum DecodeStep {
    /// Hand out this frame.
    Frame(Frame),
    /// Wait until the host is ready, then hand in the next event.
    Wait,
    /// The stream is done: drop it, finish the host body and hand in what
    /// its trailers give.
    FinishBody,
    /// The body is over.
    End,
    /// Hand out this error.
    Error(BodyError),
}

/// Where the decoder stands.
#[derive(Clone, Copy, Debug, PartialEq, Eq, Structural)]
pub enum DecoderPhase {
    Body,
    Trailers,
    Done,
}

/// What a decoder step amounts to, by value.
pub enum StepKind {
    Data(Seq<u8>),
    Trailers(Seq<FieldGroup>),
    Wait,
    FinishBody,
    End,
    Error,
}

pub open spec fn kind_of(s: DecodeStep) -> StepKind {
    match s {
        DecodeStep::Frame(Frame::Data(b)) => StepKind::Data(b@),
        DecodeStep::Frame(Frame::Trailers(h)) => StepKind::Trailers(header_groups(h)),
        DecodeStep::Wait => StepKind::Wait,
        DecodeStep::FinishBody => StepKind::FinishBody,
        DecodeStep::End => StepKind::End,
        DecodeStep::Error(_) => StepKind::Error,
    }
}

/// One step of the decoder: the next phase and what it hands out.
pub open spec fn decode_spec(p: DecoderPhase, ev: HostEvent) -> (DecoderPhase, StepKind) {
    match p {
        DecoderPhase::Body => match ev {
            HostEvent::Read(ReadOutcome::Bytes(b)) => if b@.len() > 0 {
                (DecoderPhase::Body, StepKind::Data(b@))
            } else {
                (DecoderPhase::Body, StepKind::Wait)
            },
            HostEvent::Read(ReadOutcome::Closed) => (DecoderPhase::Trailers, StepKind::FinishBody),
            HostEvent::Read(ReadOutcome::Failed(_)) => (DecoderPhase::Body, StepKind::Error),
            HostEvent::Trailers(_) => (DecoderPhase::Body, StepKind::Wait),
        },
        DecoderPhase::Trailers => match ev {
            HostEvent::Trailers(TrailersOutcome::Pending) => (DecoderPhase::Trailers, StepKind::Wait),
            HostEvent::Trailers(TrailersOutcome::Fields(f)) => if fields_stop(pairs_view(f@)) < 0 {
                (DecoderPhase::Done, StepKind::Trailers(groups_of_pairs(pairs_view(f@))))
            } else {
                (DecoderPhase::Done, StepKind::Error)
            },
            HostEvent::Trailers(TrailersOutcome::Absent) => (DecoderPhase::Done, StepKind::End),
            HostEvent::Trailers(TrailersOutcome::Failed(_)) => (DecoderPhase::Done, StepKind::Error),
            HostEvent::Read(_) => (DecoderPhase::Trailers, StepKind::Wait),
        },
        DecoderPhase::Done => (DecoderPhase::Done, StepKind::End),
    }
}

/// The decoder of a host incoming body: data frames while its stream gives
/// bytes, then at most one trailers frame, then the end.
#[derive(Debug)]
pub struct IncomingBodyDecoder {
    pub phase: DecoderPhase,
    pub size_hint: BodyHint,
}

impl IncomingBodyDecoder {
    pub fn new(size_hint: BodyHint) -> (r: IncomingBodyDecoder)
        ensures
            r.phase == DecoderPhase::Body,
            r.size_hint == size_hint,
    {
        IncomingBodyDecoder { phase: DecoderPhase::Body, size_hint }
    }

    /// Takes the host's answer and says what to do next. An answer that
    /// does not belong to the current phase (a read once the stream has
    /// closed, trailers while it streams) asks to wait; once done, every
    /// step is the end.
    pub fn step(&mut self, ev: HostEvent) -> (r: DecodeStep)
        ensures
            (final(self).phase, kind_of(r)) == decode_spec(old(self).phase, ev),
            final(self).size_hint == old(self).size_hint,
            match (old(self).phase, ev) {
                (DecoderPhase::Body, HostEvent::Read(ReadOutcome::Bytes(b))) => b@.len() > 0 ==> r
                    == DecodeStep::Frame(Frame::Data(b)),
                (DecoderPhase::Body, HostEvent::Read(ReadOutcome::Failed(m))) => r == DecodeStep::Error(
                    BodyError::ReadStream(m),
                ),
                (DecoderPhase::Trailers, HostEvent::Trailers(TrailersOutcome::Failed(c))) => r
                    == DecodeStep::Error(BodyError::ReadTrailers(c)),
                (DecoderPhase::Trailers, HostEvent::Trailers(TrailersOutcome::Fields(f))) => fields_stop(
                    pairs_view(f@),
                ) >= 0 ==> r is Error && r->Error_0 is DecodeTrailers && field_error_for(
                    pairs_view(f@),
                    r->Error_0->DecodeTrailers_0,
                ),
                _ => true,
            },
    {
        match self.phase {
            DecoderPhase::Body => match ev {
                HostEvent::Read(ReadOutcome::Bytes(b)) => {
                    if b.len() > 0 {
                        DecodeStep::Frame(Frame::Data(b))
                    } else {
                        DecodeStep::Wait
                    }
                },
                HostEvent::Read(ReadOutcome::Closed) => {
                    self.phase = DecoderPhase::Trailers;
                    DecodeStep::FinishBody
                },
                HostEvent::Read(ReadOutcome::Failed(msg)) => DecodeStep::Error(
                    BodyError::ReadStream(msg),
                ),
                HostEvent::Trailers(_) => DecodeStep::Wait,
            },
            DecoderPhase::Trailers => match ev {
                HostEvent::Trailers(TrailersOutcome::Pending) => DecodeStep::Wait,
                HostEvent::Trailers(TrailersOutcome::Fields(f)) => {
                    self.phase = DecoderPhase::Done;
                    match header_map_from_fields(&f) {
                        Ok(h) => DecodeStep::Frame(Frame::Trailers(h)),
                        Err(e) => DecodeStep::Error(BodyError::DecodeTrailers(e)),
                    }
                },
                HostEvent::Trailers(TrailersOutcome::Absent) => {
                    self.phase = DecoderPhase::Done;
                    DecodeStep::End
                },
                HostEvent::Trailers(TrailersOutcome::Failed(code)) => {
                    self.phase = DecoderPhase::Done;
                    DecodeStep::Error(BodyError::ReadTrailers(code))
                },
                HostEvent::Read(_) => DecodeStep::Wait,
            },
            DecoderPhase::Done => DecodeStep::End,
        }
    }

    /// Whether the body is over.
    pub fn is_end_stream(&self) -> (r: bool)
        ensures
            r == (self.phase == DecoderPhase::Done),
    {
        self.phase == DecoderPhase::Done
    }

    /// The exact length, where the `Content-Length` gave it.
    pub fn exact_size(&self) -> (r: Option<u64>)
        ensures
            r == self.size_hint.content_length_spec(),
    {
        self.size_hint.content_length()
    }
}

/// What the decoder hands out over a sequence of events, starting in `p`.
pub open spec fn run(p: DecoderPhase, evs: Seq<HostEvent>) -> Seq<StepKind>
    decreases evs.len(),
{
    if evs.len() == 0 {
        seq![]
    } else {
        let (next, k) = decode_spec(p, evs[0]);
        seq![k] + run(next, evs.subrange(1, evs.len() as int))
    }
}

/// The data the steps hand out, concatenated.
pub open spec fn data_of(out: Seq<StepKind>) -> Seq<u8>
    decreases out.len(),
{
    if out.len() == 0 {
        seq![]
    } else {
        let rest = data_of(out.subrange(1, out.len() as int));
        match out[0] {
            StepKind::Data(b) => b + rest,
            _ => rest,
        }
    }
}

/// The bytes that the host reads in the events delivered, concatenated.
pub open spec fn delivered(evs: Seq<HostEvent>) -> Seq<u8>
    decreases evs.len(),
{
    if evs.len() == 0 {
        seq![]
    } else {
        let rest = delivered(evs.subrange(1, evs.len() as int));
        match evs[0] {
            HostEvent::Read(ReadOutcome::Bytes(b)) => b@ + rest,
            _ => rest,
        }
    }
}

proof fn lemma_run_done(evs: Seq<HostEvent>)
    ensures
        forall|j: int| 0 <= j < run(DecoderPhase::Done, evs).len() ==> #[trigger] run(
            DecoderPhase::Done,
            evs,
        )[j] is End,
        run(DecoderPhase::Done, evs).len() == evs.len(),
    decreases evs.len(),
{
    if evs.len() > 0 {
        lemma_run_done(evs.subrange(1, evs.len() as int));
    }
}

proof fn lemma_run_len(p: DecoderPhase, evs: Seq<HostEvent>)
    ensures
        run(p, evs).len() == evs.len(),
    decreases evs.len(),
{
    if evs.len() > 0 {
        let (next, k) = decode_spec(p, evs[0]);
        lemma_run_len(next, evs.subrange(1, evs.len() as int));
    }
}

proof fn lemma_run_no_data_after_body(p: DecoderPhase, evs: Seq<HostEvent>)
    requires
        p != DecoderPhase::Body,
    ensures
        forall|j: int| 0 <= j < run(p, evs).len() ==> !(#[trigger] run(p, evs)[j] is Data),
    decreases evs.len(),
{
    if evs.len() > 0 {
        let (next, k) = decode_spec(p, evs[0]);
        lemma_run_no_data_after_body(next, evs.subrange(1, evs.len() as int));
        let out = run(p, evs);
        assert forall|j: int| 0 <= j < out.len() implies !(#[trigger] out[j] is Data) by {
            if j > 0 {
                assert(out[j] == run(next, evs.subrange(1, evs.len() as int))[j - 1]);
            }
        }
    }
}

/// The frames of an incoming body come in order, whatever the host does:
/// no data once its stream has closed, nothing but the end once the
/// trailers (or the end) have been handed out, so at most one trailers frame.
pub proof fn lemma_frames_ordered(p: DecoderPhase, evs: Seq<HostEvent>)
    ensures
        forall|i: int, j: int|
            0 <= i < j < run(p, evs).len() && (#[trigger] run(p, evs)[i] is Trailers || run(
                p,
                evs,
            )[i] is End) ==> #[trigger] run(p, evs)[j] is End,
        forall|i: int, j: int|
            0 <= i < j < run(p, evs).len() && #[trigger] run(p, evs)[i] is FinishBody ==> !(
            #[trigger] run(p, evs)[j] is Data),
    decreases evs.len(),
{
    if evs.len() > 0 {
        let tail = evs.subrange(1, evs.len() as int);
        let (next, k) = decode_spec(p, evs[0]);
        lemma_frames_ordered(next, tail);
        let out = run(p, evs);
        let rest = run(next, tail);
        assert forall|j: int| 0 < j < out.len() implies #[trigger] out[j] == rest[j - 1] by {}
        if k is Trailers || k is End {
            assert(next == DecoderPhase::Done);
            lemma_run_done(tail);
        }
        if k is FinishBody {
            lemma_run_no_data_after_body(next, tail);
        }
    }
}

/// Whether the events deliver a body's bytes and then close its stream (at
/// position `c`), after which the host answers "not yet" any number of
/// times before `last` gives the trailers' outcome.
pub open spec fn is_delivery(evs: Seq<HostEvent>, c: int, last: TrailersOutcome) -> bool {
    &&& 0 <= c < evs.len() - 1
    &&& forall|i: int| 0 <= i < c ==> #[trigger] evs[i] is Read && evs[i]->Read_0 is Bytes
    &&& evs[c] == HostEvent::Read(ReadOutcome::Closed)
    &&& forall|i: int| c < i < evs.len() - 1 ==> #[trigger] evs[i] == HostEvent::Trailers(
        TrailersOutcome::Pending,
    )
    &&& evs[evs.len() - 1] == HostEvent::Trailers(last)
}

proof fn lemma_trailers_tail(evs: Seq<HostEvent>, last: TrailersOutcome)
    requires
        evs.len() >= 1,
        forall|i: int| 0 <= i < evs.len() - 1 ==> #[trigger] evs[i] == HostEvent::Trailers(
            TrailersOutcome::Pending,
        ),
        evs[evs.len() - 1] == HostEvent::Trailers(last),
    ensures
        run(DecoderPhase::Trailers, evs).len() == evs.len(),
        data_of(run(DecoderPhase::Trailers, evs)) == Seq::<u8>::empty(),
        delivered(evs) == Seq::<u8>::empty(),
        forall|j: int|
            0 <= j < evs.len() - 1 ==> #[trigger] run(DecoderPhase::Trailers, evs)[j] is Wait,
        run(DecoderPhase::Trailers, evs).last() == decode_spec(
            DecoderPhase::Trailers,
            HostEvent::Trailers(last),
        ).1,
    decreases evs.len(),
{
    let tail = evs.subrange(1, evs.len() as int);
    let (next, k) = decode_spec(DecoderPhase::Trailers, evs[0]);
    let out = run(DecoderPhase::Trailers, evs);
    lemma_run_len(DecoderPhase::Trailers, evs);
    if evs.len() == 1 {
        assert(tail =~= Seq::<HostEvent>::empty());
        assert(out =~= seq![k]);
        assert(out.subrange(1, 1) =~= Seq::<StepKind>::empty());
        assert(data_of(out.subrange(1, 1)) == Seq::<u8>::empty());
        assert(delivered(tail) == Seq::<u8>::empty());
    } else {
        assert forall|i: int| 0 <= i < tail.len() - 1 implies #[trigger] tail[i]
            == HostEvent::Trailers(TrailersOutcome::Pending) by {
            assert(tail[i] == evs[i + 1]);
        }
        lemma_trailers_tail(tail, last);
        assert(evs[0] == HostEvent::Trailers(TrailersOutcome::Pending));
        assert(next == DecoderPhase::Trailers);
        let rest = run(DecoderPhase::Trailers, tail);
        assert(out.subrange(1, out.len() as int) =~= rest);
        assert forall|j: int| 0 < j < out.len() implies #[trigger] out[j] == rest[j - 1] by {}
    }
}

proof fn lemma_delivery_data(evs: Seq<HostEvent>, c: int, last: TrailersOutcome)
    requires
        is_delivery(evs, c, last),
    ensures
        data_of(run(DecoderPhase::Body, evs)) == delivered(evs),
        run(DecoderPhase::Body, evs).len() == evs.len(),
        forall|j: int|
            0 <= j < evs.len() - 1 ==> !(#[trigger] run(DecoderPhase::Body, evs)[j] is Trailers),
        run(DecoderPhase::Body, evs).last() == decode_spec(DecoderPhase::Trailers, HostEvent::Trailers(last)).1,
    decreases evs.len(),
{
    let tail = evs.subrange(1, evs.len() as int);
    lemma_run_len(DecoderPhase::Body, evs);
    let out = run(DecoderPhase::Body, evs);
    if c == 0 {
        let (next, k) = decode_spec(DecoderPhase::Body, evs[0]);
        assert(next == DecoderPhase::Trailers);
        assert forall|i: int| 0 <= i < tail.len() - 1 implies #[trigger] tail[i]
            == HostEvent::Trailers(TrailersOutcome::Pending) by {
            assert(tail[i] == evs[i + 1]);
        }
        lemma_trailers_tail(tail, last);
        let rest = run(next, tail);
        assert(out.subrange(1, out.len() as int) =~= rest);
        assert forall|j: int| 0 < j < out.len() implies #[trigger] out[j] == rest[j - 1] by {}
        assert forall|j: int| 0 <= j < evs.len() - 1 implies !(#[trigger] out[j] is Trailers) by {
            if j > 0 {
                assert(rest[j - 1] is Wait);
            }
        }
    } else {
        assert(is_delivery(tail, c - 1, last)) by {
            assert forall|i: int| 0 <= i < c - 1 implies #[trigger] tail[i] is Read
                && tail[i]->Read_0 is Bytes by {
                assert(tail[i] == evs[i + 1]);
            }
            assert forall|i: int| c - 1 < i < tail.len() - 1 implies #[trigger] tail[i]
                == HostEvent::Trailers(TrailersOutcome::Pending) by {
                assert(tail[i] == evs[i + 1]);
            }
        }
        lemma_delivery_data(tail, c - 1, last);
        assert(evs[0] is Read && evs[0]->Read_0 is Bytes);
        let (next, k) = decode_spec(DecoderPhase::Body, evs[0]);
        assert(next == DecoderPhase::Body);
        let rest = run(DecoderPhase::Body, tail);
        assert(out.subrange(1, out.len() as int) =~= rest);
        assert forall|j: int| 0 < j < out.len() implies #[trigger] out[j] == rest[j - 1] by {}
        match evs[0] {
            HostEvent::Read(ReadOutcome::Bytes(b)) => {
                if b@.len() == 0 {
                    assert(b@ + delivered(tail) =~= delivered(tail));
                }
            },
            _ => {},
        }
    }
}

/// A body's bytes come back whole through the decoder, however the host
/// splits them across reads and however long the trailers take: when the
/// sender wrote `v` and finished with no trailers, the data frames together
/// are `v` and no trailers frame comes.
pub proof fn lemma_round_trip_in_memory(v: Seq<u8>, evs: Seq<HostEvent>, c: int)
    requires
        is_delivery(evs, c, TrailersOutcome::Absent),
        delivered(evs) == v,
    ensures
        data_of(run(DecoderPhase::Body, evs)) == v,
        forall|j: int|
            0 <= j < run(DecoderPhase::Body, evs).len() ==> !(#[trigger] run(
                DecoderPhase::Body,
                evs,
            )[j] is Trailers),
{
    lemma_delivery_data(evs, c, TrailersOutcome::Absent);
}

/// Trailers sent with a body come back once, exactly, after all of its
/// data: when the sender wrote `v` and finished with the fields of a trailer
/// map `t` (of fewer than `MAX_FIELD_NAMES` names), the data frames together
/// are `v`, and the one trailers frame is the last step and holds what `t`
/// holds.
pub proof fn lemma_round_trip_trailers(
    v: Seq<u8>,
    t: http::HeaderMap,
    evs: Seq<HostEvent>,
    c: int,
    fields: FieldPairs,
)
    requires
        groups_wf(header_groups(t)),
        header_groups(t).len() < MAX_FIELD_NAMES,
        pairs_view(fields@) == flatten(header_groups(t)),
        is_delivery(evs, c, TrailersOutcome::Fields(fields)),
        delivered(evs) == v,
    ensures
        data_of(run(DecoderPhase::Body, evs)) == v,
        run(DecoderPhase::Body, evs).last() == StepKind::Trailers(header_groups(t)),
        forall|j: int|
            0 <= j < run(DecoderPhase::Body, evs).len() - 1 ==> !(#[trigger] run(
                DecoderPhase::Body,
                evs,
            )[j] is Trailers),
{
    lemma_fields_round_trip(t);
    lemma_fields_stop_small(flatten(header_groups(t)));
    lemma_delivery_data(evs, c, TrailersOutcome::Fields(fields));
}

/// What the sender does with a frame of a frame source.
#[derive(Debug)]
pub enum SendStep {
    /// Write these bytes to the outgoing stream.
    Write(Vec<u8>),
    /// Nothing to write: poll the next frame.
    Continue,
    /// The source is over: close the stream and finish the outgoing body
    /// with these trailer fields.
    Finish(Option<FieldPairs>),
    /// The source failed: drop the outgoing body unfinished.
    Abort(anyhow::Error),
}

/// The sender of a frame source to a host outgoing body. It keeps the
/// fields of the last trailers frame seen, to finish the body with.
#[derive(Debug)]
pub struct FrameSender {
    pub trailers: Option<FieldPairs>,
}

pub open spec fn trailers_view(t: Option<FieldPairs>) -> Option<Seq<(Seq<u8>, Seq<u8>)>> {
    match t {
        Some(f) => Some(pairs_view(f@)),
        None => None,
    }
}

/// What the sender keeps after a frame: the fields of a trailers frame
/// replace what it kept, and the end hands them over.
pub open spec fn kept_after(
    kept: Option<Seq<(Seq<u8>, Seq<u8>)>>,
    f: Option<Result<Frame, anyhow::Error>>,
) -> Option<Seq<(Seq<u8>, Seq<u8>)>> {
    match f {
        Some(Ok(Frame::Trailers(h))) => Some(flatten(header_groups(h))),
        None => None,
        _ => kept,
    }
}

impl FrameSender {
    pub fn new() -> (r: FrameSender)
        ensures
            r.trailers.is_none(),
    {
        FrameSender { trailers: None }
    }

    /// Takes the next frame of the source (`None` once it is over).
    pub fn on_frame(&mut self, f: Option<Result<Frame, anyhow::Error>>) -> (r: SendStep)
        ensures
            trailers_view(final(self).trailers) == kept_after(trailers_view(old(self).trailers), f),
            match f {
                Some(Ok(Frame::Data(d))) => r is Write && r->Write_0@ == d@,
                Some(Ok(Frame::Trailers(_))) => r is Continue,
                Some(Err(e)) => r == SendStep::Abort(e),
                None => r is Finish && trailers_view(r->Finish_0) == trailers_view(
                    old(self).trailers,
                ),
            },
    {
        match f {
            Some(Ok(Frame::Data(d))) => SendStep::Write(d),
            Some(Ok(Frame::Trailers(h))) => {
                self.trailers = Some(header_map_to_fields(&h));
                SendStep::Continue
            },
            Some(Err(e)) => SendStep::Abort(e),
            None => SendStep::Finish(self.trailers.take()),
        }
    }
}

/// What the sender keeps after a run of frames.
pub open spec fn kept_after_all(
    kept: Option<Seq<(Seq<u8>, Seq<u8>)>>,
    fs: Seq<Option<Result<Frame, anyhow::Error>>>,
) -> Option<Seq<(Seq<u8>, Seq<u8>)>>
    decreases fs.len(),
{
    if fs.len() == 0 {
        kept
    } else {
        kept_after_all(kept_after(kept, fs[0]), fs.subrange(1, fs.len() as int))
    }
}

/// Only the last trailers frame of a source is forwarded: after a run of
/// frames whose last trailers frame holds `t`, with only data after it,
/// the sender keeps exactly the fields of `t`, which the end then hands over.
pub proof fn lemma_last_trailers_forwarded(
    kept: Option<Seq<(Seq<u8>, Seq<u8>)>>,
    fs: Seq<Option<Result<Frame, anyhow::Error>>>,
    i: int,
    t: http::HeaderMap,
)
    requires
        0 <= i < fs.len(),
        fs[i] == Some(Ok::<Frame, anyhow::Error>(Frame::Trailers(t))),
        forall|j: int| i < j < fs.len() ==> #[trigger] fs[j] matches Some(Ok(Frame::Data(_))),
    ensures
        kept_after_all(kept, fs) == Some(flatten(header_groups(t))),
    decreases fs.len(),
{
    let tail = fs.subrange(1, fs.len() as int);
    if i == 0 {
        lemma_no_trailers_keeps(Some(flatten(header_groups(t))), tail);
    } else {
        assert forall|j: int| i - 1 < j < tail.len() implies
        #[trigger] tail[j] matches Some(Ok(Frame::Data(_))) by {
            assert(tail[j] == fs[j + 1]);
        }
        lemma_last_trailers_forwarded(kept_after(kept, fs[0]), tail, i - 1, t);
    }
}

proof fn lemma_no_trailers_keeps(
    kept: Option<Seq<(Seq<u8>, Seq<u8>)>>,
    fs: Seq<Option<Result<Frame, anyhow::Error>>>,
)
    requires
        forall|j: int| 0 <= j < fs.len() ==> #[trigger] fs[j] matches Some(Ok(Frame::Data(_))),
    ensures
        kept_after_all(kept, fs) == kept,
    decreases fs.len(),
{
    if fs.len() > 0 {
        let tail = fs.subrange(1, fs.len() as int);
        assert forall|j: int| 0 <= j < tail.len() implies
        #[trigger] tail[j] matches Some(Ok(Frame::Data(_))) by {
            assert(tail[j] == fs[j + 1]);
        }
        lemma_no_trailers_keeps(kept, tail);
    }
}

} // verus!
