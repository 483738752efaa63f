//! A streamed reply, as the sequence of events that the front end sees.
//!
//! The transport reports what arrives; a session turns each arrival into at
//! most one event, named after the stream it belongs to.

use crate::status::{status_display, status_is_success, status_number, status_to_string};
use reqwest::StatusCode;
use vstd::prelude::*;
use vstd::string::*;
use vstd::utf8::{decode_utf8, valid_utf8};

verus! {

/// What the transport reports of a streamed call.
#[derive(Debug, PartialEq, Eq)]
pub enum Arrival {
    /// The request could not be sent, or no reply came.
    SendFailed(String),
    /// The reply's head came, with this status.
    Responded(StatusCode),
    /// A piece of the body came.
    Chunk(Vec<u8>),
    /// The body broke off.
    ReadFailed(String),
    /// The body came to its end.
    End,
}

/// An arrival, as mathematical values; a status stands in by its number.
pub enum ArrivalView {
    SendFailed(Seq<char>),
    Responded(u16),
    Chunk(Seq<u8>),
    ReadFailed(Seq<char>),
    End,
}

impl View for Arrival {
    type V = ArrivalView;

    open spec fn view(&self) -> ArrivalView {
        match self {
            Arrival::SendFailed(m) => ArrivalView::SendFailed(m@),
            Arrival::Responded(s) => ArrivalView::Responded(status_number(*s)),
            Arrival::Chunk(b) => ArrivalView::Chunk(b@),
            Arrival::ReadFailed(m) => ArrivalView::ReadFailed(m@),
            Arrival::End => ArrivalView::End,
        }
    }
}

/// What an event carries.
#[derive(Clone, Debug, PartialEq, Eq)]
pub enum Payload {
    /// A piece of the body, as text.
    Chunk(String),
    /// Why the stream failed.
    Error(String),
    /// The stream is complete.
    Done,
}

/// A payload, as mathematical values.
pub enum PayloadView {
    Chunk(Seq<char>),
    Error(Seq<char>),
    Done,
}

impl View for Payload {
    type V = PayloadView;

    open spec fn view(&self) -> PayloadView {
        match self {
            Payload::Chunk(t) => PayloadView::Chunk(t@),
            Payload::Error(m) => PayloadView::Error(m@),
            Payload::Done => PayloadView::Done,
        }
    }
}

/// An event for the front end.
#[derive(Clone, Debug, PartialEq, Eq)]
pub struct StreamEvent {
    pub name: String,
    pub payload: Payload,
}

/// An event, as mathematical values.
pub struct EventView {
    pub name: Seq<char>,
    pub payload: PayloadView,
}

impl View for StreamEvent {
    type V = EventView;

    open spec fn view(&self) -> EventView {
        EventView { name: self.name@, payload: self.payload@ }
    }
}

/// How far a session has come.
#[derive(Clone, Debug, PartialEq, Eq)]
pub enum Phase {
    /// Nothing has come back yet.
    Waiting,
    /// The reply's head was good; the body is coming.
    Streaming,
    /// The body came to its end.
    Completed,
    /// The stream failed, with this message.
    Failed(String),
}

/// A phase, as mathematical values.
pub enum PhaseView {
    Waiting,
    Streaming,
    Completed,
    Failed(Seq<char>),
}

impl View for Phase {
    type V = PhaseView;

    open spec fn view(&self) -> PhaseView {
        match self {
            Phase::Waiting => PhaseView::Waiting,
            Phase::Streaming => PhaseView::Streaming,
            Phase::Completed => PhaseView::Completed,
            Phase::Failed(m) => PhaseView::Failed(m@),
        }
    }
}

/// One streamed call, known to the front end by the id it chose.
#[derive(Clone, Debug, PartialEq, Eq)]
pub struct StreamSession {
    pub stream_id: String,
    pub phase: Phase,
}

/// The event for a piece of the body.
pub open spec fn chunk_event(id: Seq<char>, text: Seq<char>) -> EventView {
    EventView { name: "stream-chunk-"@ + id, payload: PayloadView::Chunk(text) }
}

/// The event for a failure.
pub open spec fn error_event(id: Seq<char>, message: Seq<char>) -> EventView {
    EventView { name: "stream-error-"@ + id, payload: PayloadView::Error(message) }
}

/// The event for the end of the body.
pub open spec fn complete_event(id: Seq<char>) -> EventView {
    EventView { name: "stream-complete-"@ + id, payload: PayloadView::Done }
}

/// The message for a reply whose status is no success.
pub open spec fn status_failure(code: u16) -> Seq<char> {
    "Request failed with status: "@ + status_display(code)
}

/// A session that has seen its last event.
pub open spec fn is_closed(phase: PhaseView) -> bool {
    phase is Completed || phase is Failed
}

/// An event that ends a stream.
pub open spec fn is_terminal(event: EventView) -> bool {
    !(event.payload is Chunk)
}

/// The phase that follows an arrival. What does not fit the phase changes
/// nothing.
pub open spec fn next_phase(phase: PhaseView, arrival: ArrivalView) -> PhaseView {
    match phase {
        PhaseView::Waiting => match arrival {
            ArrivalView::SendFailed(m) => PhaseView::Failed(m),
            ArrivalView::Responded(code) => if 200 <= code < 300 {
                PhaseView::Streaming
            } else {
                PhaseView::Failed(status_failure(code))
            },
            _ => phase,
        },
        PhaseView::Streaming => match arrival {
            ArrivalView::ReadFailed(m) => PhaseView::Failed(m),
            ArrivalView::End => PhaseView::Completed,
            _ => phase,
        },
        _ => phase,
    }
}

/// The event that an arrival gives rise to, if any. A piece of the body that
/// is no UTF-8 gives none.
pub open spec fn emitted(id: Seq<char>, phase: PhaseView, arrival: ArrivalView) -> Option<
    EventView,
> {
    match phase {
        PhaseView::Waiting => match arrival {
            ArrivalView::SendFailed(m) => Some(error_event(id, m)),
            ArrivalView::Responded(code) => if 200 <= code < 300 {
                None
            } else {
                Some(error_event(id, status_failure(code)))
            },
            _ => None,
        },
        PhaseView::Streaming => match arrival {
            ArrivalView::Chunk(bytes) => if valid_utf8(bytes) {
                Some(chunk_event(id, decode_utf8(bytes)))
            } else {
                None
            },
            ArrivalView::ReadFailed(m) => Some(error_event(id, m)),
            ArrivalView::End => Some(complete_event(id)),
            _ => None,
        },
        _ => None,
    }
}

/// The events that a run of arrivals gives rise to, from a given phase on.
pub open spec fn events_of(id: Seq<char>, phase: PhaseView, arrivals: Seq<ArrivalView>) -> Seq<
    EventView,
>
    decreases arrivals.len(),
{
    if arrivals.len() == 0 {
        Seq::empty()
    } else {
        let rest = events_of(id, next_phase(phase, arrivals[0]), arrivals.drop_first());
        match emitted(id, phase, arrivals[0]) {
            Some(event) => seq![event] + rest,
            None => rest,
        }
    }
}

/// The phase that a run of arrivals leads to.
pub open spec fn phase_after(phase: PhaseView, arrivals: Seq<ArrivalView>) -> PhaseView
    decreases arrivals.len(),
{
    if arrivals.len() == 0 {
        phase
    } else {
        phase_after(next_phase(phase, arrivals[0]), arrivals.drop_first())
    }
}

/// What the call returns once the session is closed: success after a
/// complete stream, the failure's message after a failed one.
pub open spec fn outcome_of(phase: PhaseView) -> Option<Result<(), Seq<char>>> {
    match phase {
        PhaseView::Completed => Some(Ok(())),
        PhaseView::Failed(m) => Some(Err(m)),
        _ => None,
    }
}

/// Calls `std::str::from_utf8`. Trusted: it accepts exactly the bytes that
/// are UTF-8, and the text is then the one they encode.
#[verifier::external_body]
pub(crate) fn decode_chunk(bytes: &Vec<u8>) -> (r: Option<String>)
    ensures
        match r {
            Some(text) => valid_utf8(bytes@) && text@ == decode_utf8(bytes@),
            None => !valid_utf8(bytes@),
        },
{
    std::str::from_utf8(bytes).ok().map(String::from)
}

fn named(prefix: &str, id: &str, payload: Payload) -> (r: StreamEvent)
    ensures
        r@ == (EventView { name: prefix@ + id@, payload: payload@ }),
{
    let mut name = String::from_str(prefix);
    name.append(id);
    StreamEvent { name, payload }
}

impl Phase {
    /// What the call returns, once the session is closed.
    pub fn outcome(&self) -> (r: Option<Result<(), String>>)
        ensures
            match outcome_of(self@) {
                None => r.is_none(),
                Some(Ok(_)) => r matches Some(Ok(_)),
                Some(Err(m)) => r matches Some(Err(e)) && e@ == m,
            },
    {
        match self {
            Phase::Completed => Some(Ok(())),
            Phase::Failed(m) => Some(Err(m.clone())),
            _ => None,
        }
    }
}

impl StreamSession {
    /// A session that waits for its reply.
    pub fn new(stream_id: String) -> (r: StreamSession)
        ensures
            r.stream_id@ == stream_id@,
            r.phase@ == PhaseView::Waiting,
    {
        StreamSession { stream_id, phase: Phase::Waiting }
    }

    /// Takes one arrival: moves the session on and hands out the event to
    /// emit, if the arrival gives rise to one.
    pub fn step(&mut self, arrival: &Arrival) -> (r: Option<StreamEvent>)
        ensures
            final(self).stream_id@ == old(self).stream_id@,
            final(self).phase@ == next_phase(old(self).phase@, arrival@),
            match emitted(old(self).stream_id@, old(self).phase@, arrival@) {
                Some(event) => r matches Some(e) && e@ == event,
                None => r.is_none(),
            },
    {
        let waiting = match &self.phase {
            Phase::Waiting => true,
            _ => false,
        };
        let streaming = match &self.phase {
            Phase::Streaming => true,
            _ => false,
        };
        if !waiting && !streaming {
            return None;
        }
        match arrival {
            Arrival::SendFailed(m) => {
                if waiting {
                    self.phase = Phase::Failed(m.clone());
                    Some(named("stream-error-", self.stream_id.as_str(), Payload::Error(m.clone())))
                } else {
                    None
                }
            },
            Arrival::Responded(status) => {
                if !waiting {
                    None
                } else if status_is_success(status) {
                    self.phase = Phase::Streaming;
                    None
                } else {
                    let mut message = String::from_str("Request failed with status: ");
                    message.append(status_to_string(status).as_str());
                    self.phase = Phase::Failed(message.clone());
                    Some(named("stream-error-", self.stream_id.as_str(), Payload::Error(message)))
                }
            },
            Arrival::Chunk(bytes) => {
                if !streaming {
                    None
                } else {
                    match decode_chunk(bytes) {
                        Some(text) => Some(
                            named("stream-chunk-", self.stream_id.as_str(), Payload::Chunk(text)),
                        ),
                        None => None,
                    }
                }
            },
            Arrival::ReadFailed(m) => {
                if streaming {
                    self.phase = Phase::Failed(m.clone());
                    Some(named("stream-error-", self.stream_id.as_str(), Payload::Error(m.clone())))
                } else {
                    None
                }
            },
            Arrival::End => {
                if streaming {
                    self.phase = Phase::Completed;
                    Some(named("stream-complete-", self.stream_id.as_str(), Payload::Done))
                } else {
                    None
                }
            },
        }
    }
}

/// The views of a run of arrivals.
pub open spec fn arrivals_view(arrivals: Seq<Arrival>) -> Seq<ArrivalView> {
    arrivals.map_values(|a: Arrival| a@)
}

/// The views of a run of events.
pub open spec fn events_view(events: Seq<StreamEvent>) -> Seq<EventView> {
    events.map_values(|e: StreamEvent| e@)
}

/// Runs a whole session over what the transport reported, in order: the
/// events to emit, and the phase in which the session ends.
pub fn relay(stream_id: String, arrivals: &Vec<Arrival>) -> (r: (Vec<StreamEvent>, Phase))
    ensures
        events_view(r.0@) == events_of(stream_id@, PhaseView::Waiting, arrivals_view(arrivals@)),
        r.1@ == phase_after(PhaseView::Waiting, arrivals_view(arrivals@)),
{
    let ghost id = stream_id@;
    let ghost all = arrivals_view(arrivals@);
    let mut session = StreamSession::new(stream_id);
    let mut events: Vec<StreamEvent> = Vec::new();
    let mut i: usize = 0;
    assert(all.skip(0) =~= all);
    assert(events_view(events@) =~= Seq::empty());
    while i < arrivals.len()
        invariant
            i <= arrivals.len(),
            all == arrivals_view(arrivals@),
            session.stream_id@ == id,
            events_view(events@) + events_of(id, session.phase@, all.skip(i as int)) == events_of(
                id,
                PhaseView::Waiting,
                all,
            ),
            phase_after(session.phase@, all.skip(i as int)) == phase_after(
                PhaseView::Waiting,
                all,
            ),
        decreases arrivals.len() - i,
    {
        let ghost before = events_view(events@);
        let ghost phase = session.phase@;
        proof {
            assert(all.skip(i as int).drop_first() =~= all.skip(i + 1));
            assert(all.skip(i as int)[0] == arrivals@[i as int]@);
        }
        match session.step(&arrivals[i]) {
            Some(event) => {
                let ghost e = event@;
                events.push(event);
                assert(events_view(events@) =~= before.push(e));
                assert(before.push(e) + events_of(id, session.phase@, all.skip(i + 1)) =~= before
                    + (seq![e] + events_of(id, session.phase@, all.skip(i + 1))));
            },
            None => {},
        }
        i += 1;
    }
    (events, session.phase)
}

/// The arrivals of a body that comes in the given pieces.
pub open spec fn chunk_arrivals(chunks: Seq<Seq<u8>>) -> Seq<ArrivalView> {
    chunks.map_values(|bytes: Seq<u8>| ArrivalView::Chunk(bytes))
}

/// The events of a body that comes in the given pieces, each of them UTF-8.
pub open spec fn chunk_events(id: Seq<char>, chunks: Seq<Seq<u8>>) -> Seq<EventView> {
    chunks.map_values(|bytes: Seq<u8>| chunk_event(id, decode_utf8(bytes)))
}

/// A closed session emits nothing more and stays as it is.
pub proof fn lemma_closed_is_silent(id: Seq<char>, phase: PhaseView, arrivals: Seq<ArrivalView>)
    requires
        is_closed(phase),
    ensures
        events_of(id, phase, arrivals) == Seq::<EventView>::empty(),
        phase_after(phase, arrivals) == phase,
    decreases arrivals.len(),
{
    if arrivals.len() > 0 {
        lemma_closed_is_silent(id, phase, arrivals.drop_first());
    }
}

/// An event that ends a stream closes the session, and says how the call
/// returns: an error event carries the message that the call fails with, a
/// complete event stands for success. No other arrival closes a session.
pub proof fn lemma_terminal_event_closes(id: Seq<char>, phase: PhaseView, arrival: ArrivalView)
    requires
        !is_closed(phase),
    ensures
        match emitted(id, phase, arrival) {
            Some(event) => match event.payload {
                PayloadView::Chunk(_) => next_phase(phase, arrival) == phase && event.name
                    == "stream-chunk-"@ + id,
                PayloadView::Error(m) => next_phase(phase, arrival) == PhaseView::Failed(m)
                    && event.name == "stream-error-"@ + id,
                PayloadView::Done => next_phase(phase, arrival) == PhaseView::Completed
                    && event.name == "stream-complete-"@ + id,
            },
            None => !is_closed(next_phase(phase, arrival)),
        },
{
}

/// Of the events of a session at most one ends the stream, and that one is
/// the last: every event before the last carries a piece of the body.
pub proof fn lemma_terminal_event_is_last(
    id: Seq<char>,
    phase: PhaseView,
    arrivals: Seq<ArrivalView>,
)
    ensures
        forall|i: int|
            0 <= i < events_of(id, phase, arrivals).len() && is_terminal(
                #[trigger] events_of(id, phase, arrivals)[i],
            ) ==> i == events_of(id, phase, arrivals).len() - 1,
    decreases arrivals.len(),
{
    if arrivals.len() > 0 {
        let next = next_phase(phase, arrivals[0]);
        let rest = events_of(id, next, arrivals.drop_first());
        lemma_terminal_event_is_last(id, next, arrivals.drop_first());
        if is_closed(phase) {
            lemma_closed_is_silent(id, phase, arrivals);
        } else {
            lemma_terminal_event_closes(id, phase, arrivals[0]);
            match emitted(id, phase, arrivals[0]) {
                Some(event) => {
                    if is_terminal(event) {
                        lemma_closed_is_silent(id, next, arrivals.drop_first());
                    } else {
                        let all = events_of(id, phase, arrivals);
                        assert(all == seq![event] + rest);
                        assert forall|i: int| 0 <= i < all.len() && is_terminal(all[i]) implies i
                            == all.len() - 1 by {
                            assert(all[i] == rest[i - 1]);
                        }
                    }
                },
                None => {},
            }
        }
    }
}

/// How a session ends is told by its last event. A session that succeeded
/// emitted a complete event last; one that failed emitted an error event
/// last, with the message that the call fails with; one that is still open
/// has emitted nothing but pieces of the body.
pub proof fn lemma_outcome_matches_last_event(
    id: Seq<char>,
    phase: PhaseView,
    arrivals: Seq<ArrivalView>,
)
    requires
        !is_closed(phase),
    ensures
        match outcome_of(phase_after(phase, arrivals)) {
            Some(Ok(_)) => events_of(id, phase, arrivals).len() > 0 && events_of(
                id,
                phase,
                arrivals,
            ).last() == complete_event(id),
            Some(Err(m)) => events_of(id, phase, arrivals).len() > 0 && events_of(
                id,
                phase,
                arrivals,
            ).last() == error_event(id, m),
            None => forall|i: int|
                0 <= i < events_of(id, phase, arrivals).len() ==> !is_terminal(
                    #[trigger] events_of(id, phase, arrivals)[i],
                ),
        },
    decreases arrivals.len(),
{
    if arrivals.len() > 0 {
        let next = next_phase(phase, arrivals[0]);
        let tail = arrivals.drop_first();
        let rest = events_of(id, next, tail);
        let all = events_of(id, phase, arrivals);
        lemma_terminal_event_closes(id, phase, arrivals[0]);
        if is_closed(next) {
            lemma_closed_is_silent(id, next, tail);
            assert(all =~= seq![emitted(id, phase, arrivals[0]).unwrap()]);
        } else {
            lemma_outcome_matches_last_event(id, next, tail);
            match emitted(id, phase, arrivals[0]) {
                Some(event) => {
                    assert(all == seq![event] + rest);
                    if rest.len() > 0 {
                        assert(all.last() == rest.last());
                    }
                    assert forall|i: int| 0 <= i < all.len() && i > 0 implies all[i] == rest[i
                        - 1] by {}
                },
                None => {},
            }
        }
    }
}

/// The events of a body whose pieces are all UTF-8, up to and with its end.
pub proof fn lemma_body_events(id: Seq<char>, chunks: Seq<Seq<u8>>)
    requires
        forall|i: int| 0 <= i < chunks.len() ==> valid_utf8(#[trigger] chunks[i]),
    ensures
        events_of(id, PhaseView::Streaming, chunk_arrivals(chunks) + seq![ArrivalView::End])
            == chunk_events(id, chunks) + seq![complete_event(id)],
        phase_after(PhaseView::Streaming, chunk_arrivals(chunks) + seq![ArrivalView::End])
            == PhaseView::Completed,
    decreases chunks.len(),
{
    let arrivals = chunk_arrivals(chunks) + seq![ArrivalView::End];
    let tail = arrivals.drop_first();
    if chunks.len() == 0 {
        assert(tail =~= Seq::empty());
        assert(events_of(id, PhaseView::Completed, tail) =~= Seq::empty());
        assert(events_of(id, PhaseView::Streaming, arrivals) =~= seq![complete_event(id)]);
        assert(chunk_events(id, chunks) + seq![complete_event(id)] =~= seq![complete_event(id)]);
        assert(phase_after(PhaseView::Completed, tail) == PhaseView::Completed);
    } else {
        let rest = chunks.drop_first();
        lemma_body_events(id, rest);
        assert(tail =~= chunk_arrivals(rest) + seq![ArrivalView::End]);
        assert(arrivals[0] == ArrivalView::Chunk(chunks[0]));
        assert(chunk_events(id, chunks) + seq![complete_event(id)] =~= seq![
            chunk_event(id, decode_utf8(chunks[0])),
        ] + (chunk_events(id, rest) + seq![complete_event(id)]));
    }
}

/// A reply with a success status whose body comes in pieces that are all
/// UTF-8, and then ends, gives one chunk event for each piece, in the order
/// in which the pieces came, then one complete event, and no error event;
/// the call succeeds.
pub proof fn lemma_complete_stream(id: Seq<char>, code: u16, chunks: Seq<Seq<u8>>)
    requires
        200 <= code < 300,
        forall|i: int| 0 <= i < chunks.len() ==> valid_utf8(#[trigger] chunks[i]),
    ensures
        events_of(
            id,
            PhaseView::Waiting,
            seq![ArrivalView::Responded(code)] + chunk_arrivals(chunks) + seq![ArrivalView::End],
        ) == chunk_events(id, chunks) + seq![complete_event(id)],
        (chunk_events(id, chunks) + seq![complete_event(id)]).len() == chunks.len() + 1,
        forall|i: int|
            0 <= i < chunks.len() ==> (#[trigger] (chunk_events(id, chunks) + seq![
                complete_event(id),
            ])[i]) == chunk_event(id, decode_utf8(chunks[i])),
        (chunk_events(id, chunks) + seq![complete_event(id)])[chunks.len() as int]
            == complete_event(id),
        outcome_of(
            phase_after(
                PhaseView::Waiting,
                seq![ArrivalView::Responded(code)] + chunk_arrivals(chunks) + seq![
                    ArrivalView::End,
                ],
            ),
        ) == Some(Ok::<(), Seq<char>>(())),
{
    let arrivals = seq![ArrivalView::Responded(code)] + chunk_arrivals(chunks) + seq![
        ArrivalView::End,
    ];
    lemma_body_events(id, chunks);
    assert(arrivals.drop_first() =~= chunk_arrivals(chunks) + seq![ArrivalView::End]);
    assert(arrivals[0] == ArrivalView::Responded(code));
}

/// A call whose request cannot be sent gives one error event, which carries
/// the transport's message, and no other event, whatever is reported after;
/// the call fails with that message.
pub proof fn lemma_send_failure(id: Seq<char>, message: Seq<char>, after: Seq<ArrivalView>)
    ensures
        events_of(id, PhaseView::Waiting, seq![ArrivalView::SendFailed(message)] + after) == seq![
            error_event(id, message),
        ],
        outcome_of(
            phase_after(PhaseView::Waiting, seq![ArrivalView::SendFailed(message)] + after),
        ) == Some(Err::<(), Seq<char>>(message)),
{
    let arrivals = seq![ArrivalView::SendFailed(message)] + after;
    assert(arrivals.drop_first() =~= after);
    assert(arrivals[0] == ArrivalView::SendFailed(message));
    lemma_closed_is_silent(id, PhaseView::Failed(message), after);
    assert(seq![error_event(id, message)] + Seq::<EventView>::empty() =~= seq![
        error_event(id, message),
    ]);
}

} // verus!
