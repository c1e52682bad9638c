//! One streaming session: the decisions of the producer that turns transport
//! bytes into items for one consumer.
//!
//! The session is a state machine. Its driver hands it an `Input` (bytes that
//! arrived, the end or failure of the transport, the consumer going away, or
//! leave to go on after a delivery) and gets back an `Action`: read more bytes,
//! deliver one item, or stop. Frames are taken one at a time and each event is
//! applied before the next frame is looked at, so items come in event order and
//! the driver can hold the session at every delivery (backpressure). Once the
//! session has closed, normally, on an error, or because the consumer left,
//! every input yields `Stop` and changes nothing.

use crate::accumulator::{apply_model, Accumulator, ItemModel, TextStreamEvent};
use crate::decode::{map_frame, mapped};
use crate::error::{ErrorModel, StreamError, TransportError};
use crate::event::EventModel;
use crate::frame::{
    chunking_is_invisible, copy_from, drained, frame_text, frames_extend, frames_of, joined,
    FrameDecoder, FrameError, RawFrame,
};
use crate::message::{empty_message, MessageModel};
use vstd::prelude::*;

verus! {

/// Where a session stands.
#[derive(Debug, Clone, Copy, PartialEq, Eq, Structural)]
pub enum Phase {
    /// No frame has arrived yet.
    Idle,
    /// Frames are arriving.
    Open,
    /// The final message has been delivered.
    ClosedNormal,
    /// A failure has been delivered.
    ClosedError,
    /// The consumer went away.
    ClosedCancelled,
}

/// Whether the session has closed, for whatever reason.
pub open spec fn is_closed(p: Phase) -> bool {
    p is ClosedNormal || p is ClosedError || p is ClosedCancelled
}

/// What the driver tells the session.
#[derive(Debug)]
pub enum Input {
    /// Go on: at the start, and after an item was delivered.
    Resume,
    /// Bytes that the transport delivered.
    Bytes(Vec<u8>),
    /// The transport has no more bytes.
    TransportEnded,
    /// A read from the transport failed; its description.
    TransportFailed(String),
    /// The consumer closed or dropped its end.
    ConsumerClosed,
}

/// An input, over sequences.
pub enum InputModel {
    Resume,
    Bytes(Seq<u8>),
    TransportEnded,
    TransportFailed(Seq<char>),
    ConsumerClosed,
}

impl View for Input {
    type V = InputModel;

    open spec fn view(&self) -> InputModel {
        match self {
            Input::Resume => InputModel::Resume,
            Input::Bytes(b) => InputModel::Bytes(b@),
            Input::TransportEnded => InputModel::TransportEnded,
            Input::TransportFailed(m) => InputModel::TransportFailed(m@),
            Input::ConsumerClosed => InputModel::ConsumerClosed,
        }
    }
}

/// What the session asks of the driver.
#[derive(Debug)]
pub enum Action {
    /// Read more bytes from the transport.
    Read,
    /// Deliver this item to the consumer, then resume.
    Deliver(Result<TextStreamEvent, StreamError>),
    /// Stop: issue no further reads and deliver nothing more.
    Stop,
}

/// An action, over the models of the items.
pub enum ActionModel {
    Read,
    Deliver(Result<ItemModel, ErrorModel>),
    Stop,
}

impl View for Action {
    type V = ActionModel;

    open spec fn view(&self) -> ActionModel {
        match self {
            Action::Read => ActionModel::Read,
            Action::Deliver(Ok(item)) => ActionModel::Deliver(Ok(item@)),
            Action::Deliver(Err(e)) => ActionModel::Deliver(Err(e@)),
            Action::Stop => ActionModel::Stop,
        }
    }
}

/// A session: its phase, the bytes received, how many frames were consumed, and
/// the message accumulated so far.
pub struct SessionModel {
    pub phase: Phase,
    pub received: Seq<u8>,
    pub taken: nat,
    pub message: MessageModel,
}

/// The protocol event that one frame decodes to, or why it does not.
pub open spec fn frame_event(f: RawFrame) -> Result<EventModel, ErrorModel> {
    match frame_text(f) {
        None => Err(ErrorModel::Frame(FrameError::InvalidUtf8)),
        Some(t) => mapped(t.data),
    }
}

/// The effect of one frame on the accumulated message.
pub open spec fn frame_outcome(acc: MessageModel, f: RawFrame) -> Result<
    (MessageModel, Option<ItemModel>),
    ErrorModel,
> {
    match frame_event(f) {
        Err(e) => Err(e),
        Ok(ev) => match apply_model(acc, ev) {
            Err(p) => Err(ErrorModel::Protocol(p)),
            Ok(x) => Ok(x),
        },
    }
}

/// Cutting the same bytes into chunks in any two ways decodes to the same
/// sequence of events: the events of the frames that a decoder hands out are
/// those of the frames of all the bytes together.
pub proof fn chunking_keeps_events(chunks: Seq<Seq<u8>>, other: Seq<Seq<u8>>)
    requires
        joined(chunks) == joined(other),
    ensures
        drained(chunks).map_values(|f: RawFrame| frame_event(f)) == frames_of(
            joined(chunks),
        ).map_values(|f: RawFrame| frame_event(f)),
        drained(chunks).map_values(|f: RawFrame| frame_event(f)) == drained(other).map_values(
            |f: RawFrame| frame_event(f),
        ),
{
    chunking_is_invisible(chunks, other);
}

/// Frames are consumed from `from` on until one yields an item or a failure, or
/// none is left: the index after the last frame consumed, the message, and what
/// was yielded.
pub open spec fn drive(acc: MessageModel, frames: Seq<RawFrame>, from: int) -> (
    int,
    MessageModel,
    Option<Result<ItemModel, ErrorModel>>,
)
    decreases frames.len() - from,
{
    if from < 0 || from >= frames.len() {
        (from, acc, None)
    } else {
        match frame_outcome(acc, frames[from]) {
            Err(e) => (from + 1, acc, Some(Err(e))),
            Ok((a2, Some(item))) => (from + 1, a2, Some(Ok(item))),
            Ok((a2, None)) => drive(a2, frames, from + 1),
        }
    }
}

/// The session after consuming what its bytes allow, and the action.
pub open spec fn advance(s: SessionModel) -> (SessionModel, ActionModel) {
    let (n, a, out) = drive(s.message, frames_of(s.received), s.taken as int);
    let s2 = SessionModel { taken: n as nat, message: a, ..s };
    match out {
        None => (
            SessionModel {
                phase: if n > s.taken {
                    Phase::Open
                } else {
                    s.phase
                },
                ..s2
            },
            ActionModel::Read,
        ),
        Some(Ok(ItemModel::Fragment(t))) => (
            SessionModel { phase: Phase::Open, ..s2 },
            ActionModel::Deliver(Ok(ItemModel::Fragment(t))),
        ),
        Some(Ok(ItemModel::Final(m))) => (
            SessionModel { phase: Phase::ClosedNormal, ..s2 },
            ActionModel::Deliver(Ok(ItemModel::Final(m))),
        ),
        Some(Err(e)) => (SessionModel { phase: Phase::ClosedError, ..s2 }, ActionModel::Deliver(Err(e))),
    }
}

/// One transition of the session.
pub open spec fn next(s: SessionModel, i: InputModel) -> (SessionModel, ActionModel) {
    if is_closed(s.phase) {
        (s, ActionModel::Stop)
    } else {
        match i {
            InputModel::ConsumerClosed => (
                SessionModel { phase: Phase::ClosedCancelled, ..s },
                ActionModel::Stop,
            ),
            InputModel::TransportFailed(m) => (
                SessionModel { phase: Phase::ClosedError, ..s },
                ActionModel::Deliver(Err(ErrorModel::TransportRead(m))),
            ),
            InputModel::TransportEnded => (
                SessionModel { phase: Phase::ClosedError, ..s },
                ActionModel::Deliver(Err(ErrorModel::ClosedEarly)),
            ),
            InputModel::Resume => advance(s),
            InputModel::Bytes(b) => advance(SessionModel { received: s.received + b, ..s }),
        }
    }
}

/// The actions that a session takes on a sequence of inputs.
pub open spec fn actions(s: SessionModel, inputs: Seq<InputModel>) -> Seq<ActionModel>
    decreases inputs.len(),
{
    if inputs.len() == 0 {
        seq![]
    } else {
        let (s2, a) = next(s, inputs[0]);
        seq![a] + actions(s2, inputs.skip(1))
    }
}

/// A closed session is silent: whatever comes after, it only ever says `Stop`,
/// so it issues no read and delivers nothing, neither an item nor an error.
pub proof fn closed_session_is_silent(s: SessionModel, inputs: Seq<InputModel>)
    requires
        is_closed(s.phase),
    ensures
        actions(s, inputs).len() == inputs.len(),
        forall|i: int| 0 <= i < inputs.len() ==> (#[trigger] actions(s, inputs)[i]) is Stop,
    decreases inputs.len(),
{
    if inputs.len() > 0 {
        closed_session_is_silent(s, inputs.skip(1));
        let rest = actions(s, inputs.skip(1));
        assert(actions(s, inputs) == seq![ActionModel::Stop] + rest);
        assert forall|i: int| 0 <= i < inputs.len() implies (#[trigger] actions(s, inputs)[i])
            is Stop by {
            if i > 0 {
                assert(actions(s, inputs)[i] == rest[i - 1]);
            }
        }
    }
}

/// A consumer that goes away ends the session at once and quietly: the session
/// says `Stop` (no further read, no error item), and from then on says nothing
/// else.
pub proof fn cancellation_stops_quietly(s: SessionModel, later: Seq<InputModel>)
    requires
        !is_closed(s.phase),
    ensures
        next(s, InputModel::ConsumerClosed).0.phase == Phase::ClosedCancelled,
        next(s, InputModel::ConsumerClosed).1 is Stop,
        forall|i: int|
            0 <= i < later.len() ==> (#[trigger] actions(
                next(s, InputModel::ConsumerClosed).0,
                later,
            )[i]) is Stop,
{
    closed_session_is_silent(next(s, InputModel::ConsumerClosed).0, later);
}

/// The items that a session delivers from frame `i` on when every item is
/// delivered and the transport then ends: items up to and including the first
/// final message or failure, and a closed-early failure if the frames run out
/// first.
pub open spec fn items_from(acc: MessageModel, frames: Seq<RawFrame>, i: int) -> Seq<
    Result<ItemModel, ErrorModel>,
>
    decreases frames.len() - i,
{
    if i < 0 || i >= frames.len() {
        seq![Err(ErrorModel::ClosedEarly)]
    } else {
        match frame_outcome(acc, frames[i]) {
            Err(e) => seq![Err(e)],
            Ok((a2, None)) => items_from(a2, frames, i + 1),
            Ok((_, Some(ItemModel::Final(m)))) => seq![Ok(ItemModel::Final(m))],
            Ok((a2, Some(item))) => seq![Ok(item)] + items_from(a2, frames, i + 1),
        }
    }
}

/// The items that a session delivers for a whole byte stream, when every item is
/// delivered and the transport ends after the last byte.
pub open spec fn stream_items(bytes: Seq<u8>) -> Seq<Result<ItemModel, ErrorModel>> {
    items_from(empty_message(), frames_of(bytes), 0)
}

/// The model of a delivered item.
pub open spec fn delivered(r: Result<TextStreamEvent, StreamError>) -> Result<ItemModel, ErrorModel> {
    match r {
        Ok(i) => Ok(i@),
        Err(e) => Err(e@),
    }
}

/// The item that an action delivers, if any.
pub open spec fn pending(a: ActionModel) -> Seq<Result<ItemModel, ErrorModel>> {
    match a {
        ActionModel::Deliver(x) => seq![x],
        _ => seq![],
    }
}

/// `pf` begins `ff`.
pub open spec fn begins(pf: Seq<RawFrame>, ff: Seq<RawFrame>) -> bool {
    pf.len() <= ff.len() && ff.take(pf.len() as int) == pf
}

proof fn lemma_drive_prefix(acc: MessageModel, pf: Seq<RawFrame>, ff: Seq<RawFrame>, t: int)
    requires
        0 <= t <= pf.len(),
        begins(pf, ff),
    ensures
        ({
            let (n, a, out) = drive(acc, pf, t);
            &&& t <= n <= pf.len()
            &&& match out {
                None => n == pf.len() && items_from(acc, ff, t) == items_from(a, ff, n),
                Some(Ok(ItemModel::Fragment(x))) => n > t && items_from(acc, ff, t) == seq![
                    Ok::<ItemModel, ErrorModel>(ItemModel::Fragment(x)),
                ] + items_from(a, ff, n),
                Some(x) => n > t && items_from(acc, ff, t) == seq![x],
            }
        }),
    decreases pf.len() - t,
{
    if t < pf.len() {
        assert(pf[t] == ff.take(pf.len() as int)[t]);
        assert(pf[t] == ff[t]);
        match frame_outcome(acc, pf[t]) {
            Ok((a2, None)) => {
                lemma_drive_prefix(a2, pf, ff, t + 1);
            },
            _ => {},
        }
    }
}

/// After `advance`, the items still to come are those that were to come, less
/// the one delivered.
proof fn lemma_advance_items(s: SessionModel, ff: Seq<RawFrame>)
    requires
        !is_closed(s.phase),
        s.taken <= frames_of(s.received).len(),
        begins(frames_of(s.received), ff),
    ensures
        ({
            let (s2, a) = advance(s);
            &&& s2.received == s.received
            &&& s.taken <= s2.taken <= frames_of(s.received).len()
            &&& (a is Deliver ==> s2.taken > s.taken)
            &&& (a is Read || a is Deliver)
            &&& (a is Read ==> s2.taken == frames_of(s.received).len() && !is_closed(s2.phase))
            &&& !is_closed(s2.phase) ==> pending(a) + items_from(s2.message, ff, s2.taken as int)
                == items_from(s.message, ff, s.taken as int)
            &&& is_closed(s2.phase) ==> pending(a) == items_from(s.message, ff, s.taken as int)
        }),
{
    lemma_drive_prefix(s.message, frames_of(s.received), ff, s.taken as int);
    let (s2, a) = advance(s);
    if a is Read {
        assert(pending(a) + items_from(s2.message, ff, s2.taken as int) =~= items_from(
            s2.message,
            ff,
            s2.taken as int,
        ));
    }
}

proof fn lemma_joined_step(all: Seq<Seq<u8>>, k: int)
    requires
        0 <= k < all.len(),
    ensures
        joined(all.take(k + 1)) == joined(all.take(k)) + all[k],
{
    assert(all.take(k + 1).drop_last() =~= all.take(k));
}

/// The frames of the first `k` chunks begin the frames of all of them.
proof fn lemma_frames_of_prefix(all: Seq<Seq<u8>>, k: int)
    requires
        0 <= k <= all.len(),
    ensures
        begins(frames_of(joined(all.take(k))), frames_of(joined(all))),
    decreases all.len() - k,
{
    let ff = frames_of(joined(all));
    if k == all.len() {
        assert(all.take(k) =~= all);
        assert(ff.take(ff.len() as int) =~= ff);
    } else {
        lemma_frames_of_prefix(all, k + 1);
        lemma_joined_step(all, k);
        frames_extend(joined(all.take(k)), all[k]);
        let a = frames_of(joined(all.take(k)));
        let b = frames_of(joined(all.take(k + 1)));
        assert(ff.take(a.len() as int) =~= b.take(a.len() as int));
    }
}

/// The producer side of one streaming session.
pub struct StreamSession {
    phase: Phase,
    decoder: FrameDecoder,
    acc: Accumulator,
}

impl View for StreamSession {
    type V = SessionModel;

    closed spec fn view(&self) -> SessionModel {
        SessionModel {
            phase: self.phase,
            received: self.decoder@.received,
            taken: self.decoder@.taken,
            message: self.acc@,
        }
    }
}

impl StreamSession {
    /// The session's decoder is consistent with the bytes received.
    pub closed spec fn wf(&self) -> bool {
        self.decoder.wf()
    }

    /// A well-formed session has consumed no more frames than its bytes hold.
    pub proof fn lemma_taken_bound(&self)
        requires
            self.wf(),
        ensures
            self@.taken <= frames_of(self@.received).len(),
    {
        self.decoder.lemma_taken_bound();
    }

    /// A session that has received nothing.
    pub fn new() -> (r: StreamSession)
        ensures
            r.wf(),
            r@ == (SessionModel {
                phase: Phase::Idle,
                received: seq![],
                taken: 0,
                message: empty_message(),
            }),
    {
        StreamSession { phase: Phase::Idle, decoder: FrameDecoder::new(), acc: Accumulator::new() }
    }

    /// The session's phase.
    pub fn phase(&self) -> (r: Phase)
        ensures
            r == self@.phase,
    {
        self.phase
    }

    /// Takes one input and says what to do next (see `next`).
    pub fn step(&mut self, input: Input) -> (r: Action)
        requires
            old(self).wf(),
        ensures
            final(self).wf(),
            (final(self)@, r@) == next(old(self)@, input@),
    {
        if self.phase == Phase::ClosedNormal || self.phase == Phase::ClosedError || self.phase
            == Phase::ClosedCancelled {
            return Action::Stop;
        }
        match input {
            Input::ConsumerClosed => {
                self.phase = Phase::ClosedCancelled;
                Action::Stop
            },
            Input::TransportFailed(m) => {
                self.phase = Phase::ClosedError;
                Action::Deliver(Err(StreamError::Transport(TransportError::Read(m))))
            },
            Input::TransportEnded => {
                self.phase = Phase::ClosedError;
                Action::Deliver(Err(StreamError::Transport(TransportError::ClosedEarly)))
            },
            Input::Resume => self.advance(),
            Input::Bytes(b) => {
                self.decoder.push(b.as_slice());
                self.advance()
            },
        }
    }

    fn advance(&mut self) -> (r: Action)
        requires
            old(self).wf(),
            !is_closed(old(self)@.phase),
        ensures
            final(self).wf(),
            (final(self)@, r@) == advance(old(self)@),
    {
        let ghost frames = frames_of(self.decoder@.received);
        let ghost start = self.decoder@.taken;
        let ghost goal = drive(self.acc@, frames, start as int);
        let mut moved = false;
        loop
            invariant
                self.wf(),
                !is_closed(self.phase),
                self.phase == old(self).phase,
                self.decoder@.received == old(self).decoder@.received,
                frames == frames_of(self.decoder@.received),
                start == old(self).decoder@.taken,
                start <= self.decoder@.taken,
                moved == (self.decoder@.taken > start),
                drive(self.acc@, frames, self.decoder@.taken as int) == goal,
                goal == drive(old(self).acc@, frames, start as int),
            decreases frames.len() - self.decoder@.taken,
        {
            proof {
                self.decoder.lemma_taken_bound();
            }
            match self.decoder.next_frame() {
                None => {
                    if moved {
                        self.phase = Phase::Open;
                    }
                    return Action::Read;
                },
                Some(Err(fe)) => {
                    self.phase = Phase::ClosedError;
                    return Action::Deliver(Err(StreamError::Frame(fe)));
                },
                Some(Ok(frame)) => {
                    match map_frame(frame.data.as_str()) {
                        Err(e) => {
                            self.phase = Phase::ClosedError;
                            return Action::Deliver(Err(e));
                        },
                        Ok(ev) => {
                            match self.acc.apply(ev) {
                                Err(p) => {
                                    self.phase = Phase::ClosedError;
                                    return Action::Deliver(Err(StreamError::Protocol(p)));
                                },
                                Ok(Some(item)) => {
                                    self.phase = match item {
                                        TextStreamEvent::EOF(_) => Phase::ClosedNormal,
                                        TextStreamEvent::Fragment(_) => Phase::Open,
                                    };
                                    return Action::Deliver(Ok(item));
                                },
                                Ok(None) => {
                                    moved = true;
                                },
                            }
                        },
                    }
                },
            }
        }
    }
}

/// Drives a session over `chunks` as a driver does when its consumer takes
/// every item: it hands over the next chunk on each read, resumes after each
/// delivery, and reports the end of the transport after the last chunk. The
/// items delivered depend on the bytes alone, not on where the chunks are cut:
/// they are `stream_items` of all the bytes together.
pub fn deliver_all(chunks: &Vec<Vec<u8>>) -> (out: Vec<Result<TextStreamEvent, StreamError>>)
    ensures
        out@.map_values(|r: Result<TextStreamEvent, StreamError>| delivered(r)) == stream_items(
            joined(chunks@.map_values(|c: Vec<u8>| c@)),
        ),
{
    let ghost all = chunks@.map_values(|c: Vec<u8>| c@);
    let ghost ff = frames_of(joined(all));
    let ghost target = stream_items(joined(all));
    let mut s = StreamSession::new();
    let mut out: Vec<Result<TextStreamEvent, StreamError>> = Vec::new();
    let mut done = false;
    let mut k: usize = 0;
    proof {
        assert(all.take(0) =~= seq![]);
        assert(out@.map_values(|r: Result<TextStreamEvent, StreamError>| delivered(r)) =~= seq![]);
        assert(seq![] + items_from(empty_message(), ff, 0) =~= target);
    }
    while k < chunks.len() && !done
        invariant
            s.wf(),
            k <= chunks@.len(),
            all == chunks@.map_values(|c: Vec<u8>| c@),
            ff == frames_of(joined(all)),
            target == items_from(empty_message(), ff, 0),
            s@.received == joined(all.take(k as int)),
            done == is_closed(s@.phase),
            !done ==> s@.taken == frames_of(s@.received).len(),
            !done ==> out@.map_values(|r: Result<TextStreamEvent, StreamError>| delivered(r))
                + items_from(s@.message, ff, s@.taken as int) == target,
            done ==> out@.map_values(|r: Result<TextStreamEvent, StreamError>| delivered(r))
                == target,
        decreases chunks@.len() - k,
    {
        let bytes = copy_from(&chunks[k], 0);
        proof {
            assert(bytes@ =~= all[k as int]);
            s.lemma_taken_bound();
            lemma_joined_step(all, k as int);
            lemma_frames_of_prefix(all, k as int + 1);
            frames_extend(s@.received, bytes@);
            lemma_advance_items(SessionModel { received: s@.received + bytes@, ..s@ }, ff);
        }
        let mut action = s.step(Input::Bytes(bytes));
        k += 1;
        loop
            invariant_except_break
                action@ is Read || action@ is Deliver,
                !is_closed(s@.phase) && action@ is Read ==> s@.taken == frames_of(s@.received).len(),
                !is_closed(s@.phase) ==> out@.map_values(
                    |r: Result<TextStreamEvent, StreamError>| delivered(r),
                ) + pending(action@) + items_from(s@.message, ff, s@.taken as int) == target,
                is_closed(s@.phase) ==> out@.map_values(
                    |r: Result<TextStreamEvent, StreamError>| delivered(r),
                ) + pending(action@) == target,
            invariant
                s.wf(),
                all == chunks@.map_values(|c: Vec<u8>| c@),
                ff == frames_of(joined(all)),
                s@.received == joined(all.take(k as int)),
                begins(frames_of(s@.received), ff),
                s@.taken <= frames_of(s@.received).len(),
            ensures
                !is_closed(s@.phase) ==> s@.taken == frames_of(s@.received).len(),
                !is_closed(s@.phase) ==> out@.map_values(
                    |r: Result<TextStreamEvent, StreamError>| delivered(r),
                ) + items_from(s@.message, ff, s@.taken as int) == target,
                is_closed(s@.phase) ==> out@.map_values(
                    |r: Result<TextStreamEvent, StreamError>| delivered(r),
                ) == target,
            decreases 2 * (ff.len() - s@.taken) + if action@ is Deliver {
                1int
            } else {
                0int
            },
        {
            let ghost before = out@.map_values(|r: Result<TextStreamEvent, StreamError>| delivered(r));
            match action {
                Action::Deliver(item) => {
                    let ghost x = delivered(item);
                    out.push(item);
                    assert(out@.map_values(|r: Result<TextStreamEvent, StreamError>| delivered(r))
                        =~= before + seq![x]);
                },
                _ => {
                    assert(pending(action@) =~= seq![]);
                    assert(before + pending(action@) =~= before);
                    break;
                },
            }
            if s.phase() == Phase::ClosedNormal || s.phase() == Phase::ClosedError || s.phase()
                == Phase::ClosedCancelled {
                break;
            }
            proof {
                lemma_advance_items(s@, ff);
            }
            action = s.step(Input::Resume);
        }
        done = s.phase() == Phase::ClosedNormal || s.phase() == Phase::ClosedError || s.phase()
            == Phase::ClosedCancelled;
    }
    if !done {
        proof {
            assert(all.take(k as int) =~= all);
            s.lemma_taken_bound();
            assert(ff.take(ff.len() as int) =~= ff);
        }
        let ghost before = out@.map_values(|r: Result<TextStreamEvent, StreamError>| delivered(r));
        match s.step(Input::TransportEnded) {
            Action::Deliver(item) => {
                out.push(item);
                assert(out@.map_values(|r: Result<TextStreamEvent, StreamError>| delivered(r))
                    =~= before + seq![Err::<ItemModel, ErrorModel>(ErrorModel::ClosedEarly)]);
            },
            _ => {},
        }
    }
    out
}

} // verus!
