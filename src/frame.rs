//! The frame decoder: server-sent-event framing over an arbitrarily chunked byte
//! stream.
//!
//! Lines end in LF, CR, or CR LF (the pair is one line end, also when a chunk
//! boundary falls between the two bytes). A blank line ends a frame.
//! Any other line is a field: its name runs to the first colon, its value is
//! the rest after that colon with one leading space dropped (a line without a
//! colon is a name with an empty value). Lines that start with a colon are
//! comments. `data` lines accumulate, joined by LF; `event` and `id` set those
//! fields; other names are ignored. A blank line yields a frame only where a
//! `data` line came since the last frame; either way it clears the fields.
//!
//! The frames are a function of the bytes received, not of how they were cut
//! into chunks: `frames_of` is defined over the whole byte sequence, and the
//! decoder hands out exactly its frames, in order.

use vstd::prelude::*;
use vstd::utf8::{decode_utf8, valid_utf8};
use std::collections::VecDeque;

verus! {

pub const LF: u8 = 10;

pub const CR: u8 = 13;

pub const COLON: u8 = 58;

pub const SPACE: u8 = 32;

/// A frame as bytes.
pub struct RawFrame {
    pub event: Option<Seq<u8>>,
    pub data: Seq<u8>,
    pub id: Option<Seq<u8>>,
}

/// The fields seen since the last frame.
pub struct PendingFields {
    pub event: Option<Seq<u8>>,
    pub data: Option<Seq<u8>>,
    pub id: Option<Seq<u8>>,
}

/// Where a scan of the bytes stands: the fields of the frame being built, the
/// unfinished line, whether the last byte was a CR (so that an LF right after
/// it ends no further line), and the frames completed so far.
pub struct ScanState {
    pub pending: PendingFields,
    pub line: Seq<u8>,
    pub after_cr: bool,
    pub frames: Seq<RawFrame>,
}

/// No field seen.
pub open spec fn no_fields() -> PendingFields {
    PendingFields { event: None, data: None, id: None }
}

/// The scan of no bytes.
pub open spec fn scan_start() -> ScanState {
    ScanState { pending: no_fields(), line: seq![], after_cr: false, frames: seq![] }
}

/// The field name `data`.
pub open spec fn data_name() -> Seq<u8> {
    seq![100u8, 97u8, 116u8, 97u8]
}

/// The field name `event`.
pub open spec fn event_name() -> Seq<u8> {
    seq![101u8, 118u8, 101u8, 110u8, 116u8]
}

/// The field name `id`.
pub open spec fn id_name() -> Seq<u8> {
    seq![105u8, 100u8]
}

/// The position of the first colon in `line` at or after `i`, or its length.
pub open spec fn colon_from(line: Seq<u8>, i: int) -> int
    decreases line.len() - i,
{
    if i >= line.len() {
        line.len() as int
    } else if line[i] == COLON {
        i
    } else {
        colon_from(line, i + 1)
    }
}

/// The value of a field line whose name ends at `k`.
pub open spec fn value_at(line: Seq<u8>, k: int) -> Seq<u8> {
    if k >= line.len() {
        seq![]
    } else {
        let v = line.skip(k + 1);
        if v.len() > 0 && v[0] == SPACE {
            v.skip(1)
        } else {
            v
        }
    }
}

/// The effect of one complete line (without its terminator) on the fields: the
/// new fields and the frame it completes, if any.
pub open spec fn apply_line(p: PendingFields, line: Seq<u8>) -> (PendingFields, Option<RawFrame>) {
    if line.len() == 0 {
        match p.data {
            Some(d) => (no_fields(), Some(RawFrame { event: p.event, data: d, id: p.id })),
            None => (no_fields(), None),
        }
    } else if line[0] == COLON {
        (p, None)
    } else {
        let k = colon_from(line, 0);
        let name = line.take(k);
        let value = value_at(line, k);
        if name == data_name() {
            (
                PendingFields {
                    data: Some(
                        match p.data {
                            Some(d) => d.push(LF) + value,
                            None => value,
                        },
                    ),
                    ..p
                },
                None,
            )
        } else if name == event_name() {
            (PendingFields { event: Some(value), ..p }, None)
        } else if name == id_name() {
            (PendingFields { id: Some(value), ..p }, None)
        } else {
            (p, None)
        }
    }
}

/// The scan with its current line ended; `cr` says whether a CR ended it.
pub open spec fn end_of_line(s: ScanState, cr: bool) -> ScanState {
    let (p, f) = apply_line(s.pending, s.line);
    ScanState {
        pending: p,
        line: seq![],
        after_cr: cr,
        frames: match f {
            Some(x) => s.frames.push(x),
            None => s.frames,
        },
    }
}

/// The scan advanced by one byte.
pub open spec fn scan_byte(s: ScanState, b: u8) -> ScanState {
    if b == LF {
        if s.after_cr {
            ScanState { after_cr: false, ..s }
        } else {
            end_of_line(s, false)
        }
    } else if b == CR {
        end_of_line(s, true)
    } else {
        ScanState { line: s.line.push(b), after_cr: false, ..s }
    }
}

/// The scan of a whole byte sequence.
pub open spec fn scan(bytes: Seq<u8>) -> ScanState
    decreases bytes.len(),
{
    if bytes.len() == 0 {
        scan_start()
    } else {
        scan_byte(scan(bytes.drop_last()), bytes.last())
    }
}

/// The frames completed by a byte sequence, in order.
pub open spec fn frames_of(bytes: Seq<u8>) -> Seq<RawFrame> {
    scan(bytes).frames
}

/// The bytes of a sequence of chunks, in order.
pub open spec fn joined(chunks: Seq<Seq<u8>>) -> Seq<u8>
    decreases chunks.len(),
{
    if chunks.len() == 0 {
        seq![]
    } else {
        joined(chunks.drop_last()) + chunks.last()
    }
}

/// The frames that a decoder hands out when it is given `chunks` one at a time
/// and, after each, asked for frames until it has none: after a chunk it hands
/// out the frames of everything received so far that it had not yet handed out.
pub open spec fn drained(chunks: Seq<Seq<u8>>) -> Seq<RawFrame>
    decreases chunks.len(),
{
    if chunks.len() == 0 {
        seq![]
    } else {
        let before = drained(chunks.drop_last());
        before + frames_of(joined(chunks)).skip(before.len() as int)
    }
}

/// Frames, once complete, stay: the frames of a byte sequence begin the frames
/// of any longer sequence that starts with it.
pub proof fn frames_extend(a: Seq<u8>, b: Seq<u8>)
    ensures
        frames_of(a).len() <= frames_of(a + b).len(),
        frames_of(a + b).take(frames_of(a).len() as int) == frames_of(a),
    decreases b.len(),
{
    if b.len() == 0 {
        assert(a + b =~= a);
        assert(frames_of(a).take(frames_of(a).len() as int) =~= frames_of(a));
    } else {
        let ab = a + b;
        assert(ab.drop_last() =~= a + b.drop_last());
        frames_extend(a, b.drop_last());
        let f0 = frames_of(a + b.drop_last());
        let n = frames_of(a).len() as int;
        assert(frames_of(ab).take(n) =~= f0.take(n));
    }
}

/// Decoding does not depend on where the stream is cut into chunks: fed the
/// chunks one at a time and drained after each, a decoder hands out exactly the
/// frames of all the bytes together; so two ways of cutting the same bytes give
/// the same frames.
pub proof fn chunking_is_invisible(chunks: Seq<Seq<u8>>, other: Seq<Seq<u8>>)
    requires
        joined(chunks) == joined(other),
    ensures
        drained(chunks) == frames_of(joined(chunks)),
        drained(chunks) == drained(other),
{
    lemma_drained(chunks);
    lemma_drained(other);
}

proof fn lemma_drained(chunks: Seq<Seq<u8>>)
    ensures
        drained(chunks) == frames_of(joined(chunks)),
    decreases chunks.len(),
{
    if chunks.len() > 0 {
        let init = chunks.drop_last();
        lemma_drained(init);
        frames_extend(joined(init), chunks.last());
        let all = frames_of(joined(chunks));
        let before = frames_of(joined(init));
        assert(before + all.skip(before.len() as int) =~= all) by {
            assert(all.take(before.len() as int) == before);
        }
    }
}

/// A frame as text.
pub struct FrameModel {
    pub event: Option<Seq<char>>,
    pub data: Seq<char>,
    pub id: Option<Seq<char>>,
}

/// Whether an optional field is UTF-8.
pub open spec fn opt_utf8_valid(b: Option<Seq<u8>>) -> bool {
    match b {
        Some(x) => valid_utf8(x),
        None => true,
    }
}

/// An optional field read as UTF-8.
pub open spec fn opt_decode(b: Option<Seq<u8>>) -> Option<Seq<char>> {
    match b {
        Some(x) => Some(decode_utf8(x)),
        None => None,
    }
}

/// A raw frame read as UTF-8 text; `None` where a field is not UTF-8.
pub open spec fn frame_text(f: RawFrame) -> Option<FrameModel> {
    if valid_utf8(f.data) && opt_utf8_valid(f.event) && opt_utf8_valid(f.id) {
        Some(FrameModel { event: opt_decode(f.event), data: decode_utf8(f.data), id: opt_decode(f.id) })
    } else {
        None
    }
}

/// A frame whose fields are not UTF-8 text.
#[derive(Debug, Clone, Copy, PartialEq, Eq, Structural)]
pub enum FrameError {
    InvalidUtf8,
}

/// One decoded frame.
#[derive(Debug, Clone)]
pub struct Frame {
    pub event: Option<String>,
    pub data: String,
    pub id: Option<String>,
}

impl View for Frame {
    type V = FrameModel;

    open spec fn view(&self) -> FrameModel {
        FrameModel {
            event: match self.event {
                Some(e) => Some(e@),
                None => None,
            },
            data: self.data@,
            id: match self.id {
                Some(i) => Some(i@),
                None => None,
            },
        }
    }
}

/// What `next_frame` hands out for the raw frame `f`.
pub open spec fn frame_result_matches(r: Result<Frame, FrameError>, f: RawFrame) -> bool {
    match frame_text(f) {
        Some(m) => r is Ok && r->Ok_0@ == m,
        None => r == Err::<Frame, FrameError>(FrameError::InvalidUtf8),
    }
}

/// Relies on `String::from_utf8` in std: it succeeds exactly on well-formed
/// UTF-8, and the string then holds the characters that the bytes encode.
#[verifier::external_body]
fn utf8_string(bytes: Vec<u8>) -> (r: Option<String>)
    ensures
        match r {
            Some(s) => valid_utf8(bytes@) && s@ == decode_utf8(bytes@),
            None => !valid_utf8(bytes@),
        },
{
    String::from_utf8(bytes).ok()
}

fn opt_utf8_string(bytes: Option<Vec<u8>>) -> (r: Option<Option<String>>)
    ensures
        match bytes {
            Some(b) => match r {
                Some(s) => valid_utf8(b@) && s is Some && s->0@ == decode_utf8(b@),
                None => !valid_utf8(b@),
            },
            None => r == Some(None::<String>),
        },
{
    match bytes {
        Some(b) => match utf8_string(b) {
            Some(s) => Some(Some(s)),
            None => None,
        },
        None => Some(None),
    }
}

struct FrameBytes {
    event: Option<Vec<u8>>,
    data: Vec<u8>,
    id: Option<Vec<u8>>,
}

spec fn opt_bytes(b: Option<Vec<u8>>) -> Option<Seq<u8>> {
    match b {
        Some(x) => Some(x@),
        None => None,
    }
}

impl View for FrameBytes {
    type V = RawFrame;

    closed spec fn view(&self) -> RawFrame {
        RawFrame { event: opt_bytes(self.event), data: self.data@, id: opt_bytes(self.id) }
    }
}

/// What a decoder has been given and handed out.
pub struct DecoderModel {
    /// Every byte received, in order.
    pub received: Seq<u8>,
    /// How many frames have been handed out.
    pub taken: nat,
}

/// An incremental frame decoder.
pub struct FrameDecoder {
    line: Vec<u8>,
    after_cr: bool,
    event: Option<Vec<u8>>,
    data: Option<Vec<u8>>,
    id: Option<Vec<u8>>,
    ready: VecDeque<FrameBytes>,
    received: Ghost<Seq<u8>>,
    taken: Ghost<nat>,
}

impl View for FrameDecoder {
    type V = DecoderModel;

    closed spec fn view(&self) -> DecoderModel {
        DecoderModel { received: self.received@, taken: self.taken@ }
    }
}

fn colon_index(line: &Vec<u8>) -> (k: usize)
    ensures
        k as int == colon_from(line@, 0),
        k <= line@.len(),
{
    let mut i: usize = 0;
    while i < line.len() && line[i] != COLON
        invariant
            i <= line@.len(),
            colon_from(line@, i as int) == colon_from(line@, 0),
        decreases line@.len() - i,
    {
        i += 1;
    }
    i
}

pub(crate) fn copy_from(line: &Vec<u8>, start: usize) -> (r: Vec<u8>)
    requires
        start <= line@.len(),
    ensures
        r@ == line@.skip(start as int),
{
    let mut r: Vec<u8> = Vec::new();
    let mut i: usize = start;
    while i < line.len()
        invariant
            start <= i <= line@.len(),
            r@ == line@.subrange(start as int, i as int),
        decreases line@.len() - i,
    {
        r.push(line[i]);
        i += 1;
    }
    r
}

fn value_of(line: &Vec<u8>, k: usize) -> (r: Vec<u8>)
    requires
        k <= line@.len(),
    ensures
        r@ == value_at(line@, k as int),
{
    if k >= line.len() {
        return Vec::new();
    }
    let mut start = k + 1;
    if start < line.len() && line[start] == SPACE {
        start += 1;
        assert(line@.skip(k + 1).skip(1) =~= line@.skip(start as int));
    }
    copy_from(line, start)
}

enum FieldName {
    Data,
    Event,
    Id,
    Other,
}

fn field_name(line: &Vec<u8>, k: usize) -> (r: FieldName)
    requires
        k <= line@.len(),
    ensures
        r is Data <==> line@.take(k as int) == data_name(),
        r is Event <==> line@.take(k as int) == event_name(),
        r is Id <==> line@.take(k as int) == id_name(),
{
    let ghost name = line@.take(k as int);
    if k == 4 && line[0] == 100 && line[1] == 97 && line[2] == 116 && line[3] == 97 {
        assert(name =~= data_name());
        FieldName::Data
    } else if k == 5 && line[0] == 101 && line[1] == 118 && line[2] == 101 && line[3] == 110
        && line[4] == 116 {
        assert(name =~= event_name());
        FieldName::Event
    } else if k == 2 && line[0] == 105 && line[1] == 100 {
        assert(name =~= id_name());
        FieldName::Id
    } else {
        proof {
            if name == data_name() {
                assert(name.len() == 4 && name[0] == 100 && name[1] == 97 && name[2] == 116
                    && name[3] == 97);
            }
            if name == event_name() {
                assert(name.len() == 5 && name[0] == 101 && name[1] == 118 && name[2] == 101
                    && name[3] == 110 && name[4] == 116);
            }
            if name == id_name() {
                assert(name.len() == 2 && name[0] == 105 && name[1] == 100);
            }
        }
        FieldName::Other
    }
}

impl FrameDecoder {
    /// The decoder's buffers agree with the scan of the bytes received, and the
    /// frames not yet handed out wait, in order, in `ready`.
    pub closed spec fn wf(&self) -> bool {
        let s = scan(self.received@);
        &&& s.line == self.line@
        &&& s.after_cr == self.after_cr
        &&& s.pending == PendingFields {
            event: opt_bytes(self.event),
            data: opt_bytes(self.data),
            id: opt_bytes(self.id),
        }
        &&& s.frames.len() == self.taken@ + self.ready@.len()
        &&& forall|i: int|
            0 <= i < self.ready@.len() ==> s.frames[self.taken@ + i] == (#[trigger] self.ready@[i])@
    }

    /// A well-formed decoder has handed out no more frames than its bytes hold.
    pub proof fn lemma_taken_bound(&self)
        requires
            self.wf(),
        ensures
            self@.taken <= frames_of(self@.received).len(),
    {
    }

    /// A decoder that has received nothing.
    pub fn new() -> (r: FrameDecoder)
        ensures
            r.wf(),
            r@.received == Seq::<u8>::empty(),
            r@.taken == 0,
    {
        FrameDecoder {
            line: Vec::new(),
            after_cr: false,
            event: None,
            data: None,
            id: None,
            ready: VecDeque::new(),
            received: Ghost(Seq::empty()),
            taken: Ghost(0),
        }
    }

    /// Ends the current line: the scan advanced by the line end `b`.
    fn end_line(&mut self, b: u8)
        requires
            old(self).wf(),
            b == CR || (b == LF && !old(self).after_cr),
        ensures
            final(self).wf(),
            final(self)@ == (DecoderModel { received: old(self)@.received.push(b), ..old(self)@ }),
    {
        let ghost s0 = scan(self.received@);
        let ghost new_received = self.received@.push(b);
        assert(new_received.drop_last() =~= self.received@);
        let mut line: Vec<u8> = Vec::new();
        core::mem::swap(&mut line, &mut self.line);
        self.after_cr = b == CR;
        if line.len() == 0 {
            let mut data: Option<Vec<u8>> = None;
            core::mem::swap(&mut data, &mut self.data);
            let mut event: Option<Vec<u8>> = None;
            core::mem::swap(&mut event, &mut self.event);
            let mut id: Option<Vec<u8>> = None;
            core::mem::swap(&mut id, &mut self.id);
            match data {
                Some(d) => {
                    let f = FrameBytes { event, data: d, id };
                    let ghost fv = f@;
                    self.ready.push_back(f);
                    proof {
                        let s1 = scan(new_received);
                        assert(s1.frames == s0.frames.push(fv));
                        assert forall|i: int| 0 <= i < self.ready@.len() implies s1.frames[self.taken@
                            + i] == (#[trigger] self.ready@[i])@ by {
                            if i < self.ready@.len() - 1 {
                                assert(self.ready@[i] == old(self).ready@[i]);
                            }
                        }
                    }
                },
                None => {},
            }
        } else if line[0] == COLON {
        } else {
            let k = colon_index(&line);
            let mut value = value_of(&line, k);
            match field_name(&line, k) {
                FieldName::Data => {
                    let mut joined: Option<Vec<u8>> = None;
                    core::mem::swap(&mut joined, &mut self.data);
                    match joined {
                        Some(d) => {
                            let mut d = d;
                            d.push(LF);
                            let ghost dl = d@;
                            d.append(&mut value);
                            assert(d@ =~= dl + value_at(line@, k as int));
                            self.data = Some(d);
                        },
                        None => {
                            self.data = Some(value);
                        },
                    }
                },
                FieldName::Event => {
                    self.event = Some(value);
                },
                FieldName::Id => {
                    self.id = Some(value);
                },
                FieldName::Other => {},
            }
        }
        self.received = Ghost(new_received);
    }

    /// Takes in a chunk of bytes; frames that it completes wait for `next_frame`.
    pub fn push(&mut self, chunk: &[u8])
        requires
            old(self).wf(),
        ensures
            final(self).wf(),
            final(self)@.received == old(self)@.received + chunk@,
            final(self)@.taken == old(self)@.taken,
    {
        let mut i: usize = 0;
        while i < chunk.len()
            invariant
                self.wf(),
                i <= chunk@.len(),
                self@.received == old(self)@.received + chunk@.take(i as int),
                self@.taken == old(self)@.taken,
            decreases chunk@.len() - i,
        {
            let b = chunk[i];
            let ghost before = self@.received;
            assert(old(self)@.received + chunk@.take(i + 1) =~= before.push(b));
            if b == CR || (b == LF && !self.after_cr) {
                self.end_line(b);
            } else if b == LF {
                self.after_cr = false;
                proof {
                    assert(before.push(b).drop_last() =~= before);
                }
                self.received = Ghost(before.push(b));
            } else {
                self.line.push(b);
                self.after_cr = false;
                proof {
                    let nr = before.push(b);
                    assert(nr.drop_last() =~= before);
                    assert(scan(nr).line =~= self.line@);
                }
                self.received = Ghost(before.push(b));
            }
            i += 1;
        }
        assert(chunk@.take(chunk@.len() as int) =~= chunk@);
    }

    /// Hands out the next complete frame, read as UTF-8 text; `None` where every
    /// complete frame has been handed out.
    pub fn next_frame(&mut self) -> (r: Option<Result<Frame, FrameError>>)
        requires
            old(self).wf(),
        ensures
            final(self).wf(),
            final(self)@.received == old(self)@.received,
            old(self)@.taken < frames_of(old(self)@.received).len() ==> {
                &&& r is Some
                &&& frame_result_matches(r->0, frames_of(old(self)@.received)[old(self)@.taken as int])
                &&& final(self)@.taken == old(self)@.taken + 1
            },
            old(self)@.taken >= frames_of(old(self)@.received).len() ==> {
                &&& r is None
                &&& final(self)@.taken == old(self)@.taken
            },
    {
        match self.ready.pop_front() {
            None => None,
            Some(f) => {
                let ghost fv = f@;
                proof {
                    assert(fv == scan(self.received@).frames[self.taken@ as int]);
                    assert forall|i: int| 0 <= i < self.ready@.len() implies scan(
                        self.received@,
                    ).frames[self.taken@ + 1 + i] == (#[trigger] self.ready@[i])@ by {
                        assert(self.ready@[i] == old(self).ready@[i + 1]);
                    }
                }
                self.taken = Ghost(self.taken@ + 1);
                let FrameBytes { event, data, id } = f;
                let data = match utf8_string(data) {
                    Some(s) => s,
                    None => {
                        return Some(Err(FrameError::InvalidUtf8));
                    },
                };
                let event = match opt_utf8_string(event) {
                    Some(e) => e,
                    None => {
                        return Some(Err(FrameError::InvalidUtf8));
                    },
                };
                let id = match opt_utf8_string(id) {
                    Some(e) => e,
                    None => {
                        return Some(Err(FrameError::InvalidUtf8));
                    },
                };
                Some(Ok(Frame { event, data, id }))
            },
        }
    }
}

} // verus!
