//! Connect-RPC streaming envelopes: 1 byte flags, 4 bytes big-endian length,
//! then the payload.

use vstd::prelude::*;

use crate::error::{AppError, AppErrorView};

verus! {

/// One Connect-RPC envelope read from the envd response stream.
#[derive(Debug, PartialEq, Eq)]
pub struct ConnectFrame {
    /// The flag byte; bit 1 marks the last envelope of a stream.
    pub flags: u8,
    /// What the envelope carries.
    pub payload: Vec<u8>,
}

/// What a [`ConnectFrame`] holds.
pub ghost struct FrameView {
    pub flags: u8,
    pub payload: Seq<u8>,
}

impl View for ConnectFrame {
    type V = FrameView;

    open spec fn view(&self) -> FrameView {
        FrameView { flags: self.flags, payload: self.payload@ }
    }
}

impl FrameView {
    /// Whether the envelope ends its stream.
    pub open spec fn is_end_stream(self) -> bool {
        self.flags & 0b10 != 0
    }
}

impl ConnectFrame {
    /// Whether the envelope ends its stream.
    pub fn is_end_stream(&self) -> (end: bool)
        ensures
            end == self@.is_end_stream(),
    {
        self.flags & 0b10 != 0
    }
}

/// The number that four big-endian bytes write.
pub open spec fn be_value(bytes: Seq<u8>) -> int {
    bytes[0] * 0x100_0000 + bytes[1] * 0x1_0000 + bytes[2] * 0x100 + bytes[3]
}

/// The low 32 bits of `n` as four big-endian bytes.
pub open spec fn be_bytes(n: int) -> Seq<u8> {
    seq![
        (n / 0x100_0000 % 0x100) as u8,
        (n / 0x1_0000 % 0x100) as u8,
        (n / 0x100 % 0x100) as u8,
        (n % 0x100) as u8,
    ]
}

/// The envelope of `payload` under `flags`.
pub open spec fn envelope_of(flags: u8, payload: Seq<u8>) -> Seq<u8> {
    seq![flags] + be_bytes(payload.len() as int) + payload
}

/// The first envelope at the start of `buf` and what stands behind it, once
/// all of the envelope is there.
pub open spec fn decode_frame(buf: Seq<u8>) -> Option<(FrameView, Seq<u8>)> {
    if buf.len() >= 5 && buf.len() >= 5 + be_value(buf.subrange(1, 5)) {
        let end = 5 + be_value(buf.subrange(1, 5));
        Some((FrameView { flags: buf[0], payload: buf.subrange(5, end) }, buf.skip(end)))
    } else {
        None
    }
}

/// Every whole envelope of `buf`, in order, and what is left behind them.
pub open spec fn decode_frames(buf: Seq<u8>) -> (Seq<FrameView>, Seq<u8>)
    decreases buf.len(),
{
    match decode_frame(buf) {
        Some((frame, rest)) => if rest.len() < buf.len() {
            let (frames, left) = decode_frames(rest);
            (seq![frame] + frames, left)
        } else {
            (seq![], buf)
        },
        None => (seq![], buf),
    }
}

/// Wraps a request payload into one envelope.
pub fn connect_envelope(payload: &[u8]) -> (envelope: Vec<u8>)
    ensures
        envelope@ == envelope_of(0, payload@),
{
    let len: usize = payload.len();
    let mut out: Vec<u8> = Vec::new();
    out.push(0);
    out.push((len / 0x100_0000 % 0x100) as u8);
    out.push((len / 0x1_0000 % 0x100) as u8);
    out.push((len / 0x100 % 0x100) as u8);
    out.push((len % 0x100) as u8);
    out.extend_from_slice(payload);
    assert(out@ =~= envelope_of(0, payload@));
    out
}

/// What reading the next envelope came to.
#[derive(Debug, PartialEq, Eq)]
pub enum FrameStep {
    /// The next envelope.
    Frame(ConnectFrame),
    /// The stream is over.
    End,
    /// More of the stream has to be read first.
    NeedChunk,
}

/// What a [`FrameStep`] holds.
pub ghost enum FrameStepView {
    Frame(FrameView),
    End,
    NeedChunk,
}

impl View for FrameStep {
    type V = FrameStepView;

    open spec fn view(&self) -> FrameStepView {
        match self {
            FrameStep::Frame(frame) => FrameStepView::Frame(frame@),
            FrameStep::End => FrameStepView::End,
            FrameStep::NeedChunk => FrameStepView::NeedChunk,
        }
    }
}

/// Incremental reader for Connect-RPC streaming responses.
pub struct ConnectFrameReader {
    buf: Vec<u8>,
    eof: bool,
}

/// What a [`ConnectFrameReader`] has read: the bytes that it has not handed
/// out yet, and whether the stream is over behind them.
pub ghost struct ReaderView {
    pub buf: Seq<u8>,
    pub eof: bool,
}

impl View for ConnectFrameReader {
    type V = ReaderView;

    closed spec fn view(&self) -> ReaderView {
        ReaderView { buf: self.buf@, eof: self.eof }
    }
}

/// A reader at the start of a stream.
pub open spec fn fresh_reader() -> ReaderView {
    ReaderView { buf: seq![], eof: false }
}

impl ReaderView {
    /// The reader with another chunk taken in.
    pub open spec fn with_chunk(self, chunk: Seq<u8>) -> ReaderView {
        ReaderView { buf: self.buf + chunk, eof: self.eof }
    }

    /// The reader with the end of its stream noted.
    pub open spec fn at_end(self) -> ReaderView {
        ReaderView { buf: self.buf, eof: true }
    }
}

/// What the reader hands out next, and how it stands then.
pub open spec fn next_frame_of(reader: ReaderView) -> (
    Result<FrameStepView, AppErrorView>,
    ReaderView,
) {
    match decode_frame(reader.buf) {
        Some((frame, rest)) => (
            Ok(FrameStepView::Frame(frame)),
            ReaderView { buf: rest, eof: reader.eof },
        ),
        None => {
            let step = if !reader.eof {
                Ok(FrameStepView::NeedChunk)
            } else if reader.buf.len() == 0 {
                Ok(FrameStepView::End)
            } else {
                Err(AppErrorView::Internal("truncated envd terminal stream"@))
            };
            (step, reader)
        },
    }
}

/// What the outcome of reading an envelope holds.
pub open spec fn step_result(step: Result<FrameStep, AppError>) -> Result<
    FrameStepView,
    AppErrorView,
> {
    match step {
        Ok(step) => Ok(step@),
        Err(error) => Err(error@),
    }
}

impl ConnectFrameReader {
    /// A reader at the start of a stream.
    pub fn new() -> (reader: ConnectFrameReader)
        ensures
            reader@ == fresh_reader(),
    {
        ConnectFrameReader { buf: Vec::new(), eof: false }
    }

    /// Takes in the next chunk of the stream.
    pub fn push_chunk(&mut self, chunk: &[u8])
        ensures
            final(self)@ == old(self)@.with_chunk(chunk@),
    {
        self.buf.extend_from_slice(chunk);
        assert(self.buf@ =~= old(self)@.buf + chunk@);
    }

    /// Notes that the stream is over.
    pub fn finish(&mut self)
        ensures
            final(self)@ == old(self)@.at_end(),
    {
        self.eof = true;
    }

    /// Hands out the next envelope, or says what has to happen first.
    pub fn next_frame(&mut self) -> (step: Result<FrameStep, AppError>)
        ensures
            (step_result(step), final(self)@) == next_frame_of(old(self)@),
    {
        if self.buf.len() >= 5 {
            let len: u32 = self.buf[1] as u32 * 0x100_0000 + self.buf[2] as u32 * 0x1_0000
                + self.buf[3] as u32 * 0x100 + self.buf[4] as u32;
            assert(len == be_value(self.buf@.subrange(1, 5)));
            if self.buf.len() - 5 >= len as usize {
                let ghost all = self.buf@;
                let end: usize = 5 + len as usize;
                let flags: u8 = self.buf[0];
                let rest = self.buf.split_off(end);
                let payload = self.buf.split_off(5);
                self.buf = rest;
                proof {
                    assert(rest@ =~= all.skip(end as int));
                    assert(payload@ =~= all.subrange(5, end as int));
                }
                return Ok(FrameStep::Frame(ConnectFrame { flags, payload }));
            }
        }
        if self.eof {
            if self.buf.is_empty() {
                return Ok(FrameStep::End);
            }
            return Err(AppError::Internal("truncated envd terminal stream".to_owned()));
        }
        Ok(FrameStep::NeedChunk)
    }
}

/// The error for a stream that cannot be read on.
pub open spec fn stream_error_of(detail: Seq<char>) -> AppErrorView {
    AppErrorView::Internal("failed reading envd terminal stream: "@ + detail)
}

/// The error for a stream that cannot be read on.
pub fn stream_error(detail: &str) -> (error: AppError)
    ensures
        error@ == stream_error_of(detail@),
{
    let mut text = "failed reading envd terminal stream: ".to_owned();
    text.append(detail);
    AppError::Internal(text)
}

// ── Laws ────────────────────────────────────────────────────────────────

proof fn lemma_be_round_trip(n: int)
    requires
        0 <= n <= u32::MAX,
    ensures
        be_value(be_bytes(n)) == n,
{
}

/// An envelope reads back as its flags and its payload, whatever follows it
/// in the stream.
pub proof fn law_envelope_round_trip(flags: u8, payload: Seq<u8>, rest: Seq<u8>)
    requires
        payload.len() <= u32::MAX,
    ensures
        decode_frame(envelope_of(flags, payload) + rest) == Some(
            (FrameView { flags, payload }, rest),
        ),
{
    let buf = envelope_of(flags, payload) + rest;
    lemma_be_round_trip(payload.len() as int);
    assert(buf.subrange(1, 5) =~= be_bytes(payload.len() as int));
    assert(buf.subrange(5, 5 + payload.len() as int) =~= payload);
    assert(buf.skip((5 + payload.len()) as int) =~= rest);
}

/// No envelope is handed out before all of it has arrived.
pub proof fn law_no_frame_before_its_end(flags: u8, payload: Seq<u8>, n: int)
    requires
        payload.len() <= u32::MAX,
        0 <= n < envelope_of(flags, payload).len(),
    ensures
        decode_frame(envelope_of(flags, payload).take(n)) is None,
{
    let buf = envelope_of(flags, payload);
    lemma_be_round_trip(payload.len() as int);
    if n >= 5 {
        assert(buf.take(n).subrange(1, 5) =~= be_bytes(payload.len() as int));
    }
}

/// A stream that stops inside an envelope ends in an error, not in a frame
/// and not silently.
pub proof fn law_truncated_stream_is_an_error(flags: u8, payload: Seq<u8>, n: int)
    requires
        payload.len() <= u32::MAX,
        0 < n < envelope_of(flags, payload).len(),
    ensures
        next_frame_of(ReaderView { buf: envelope_of(flags, payload).take(n), eof: true }).0
            == Err::<FrameStepView, AppErrorView>(
            AppErrorView::Internal("truncated envd terminal stream"@),
        ),
{
    law_no_frame_before_its_end(flags, payload, n);
}

/// Bytes that arrive later leave the envelopes that were whole already as
/// they are, and continue behind them: how a stream is cut into chunks does
/// not matter.
pub proof fn law_chunking_is_irrelevant(first: Seq<u8>, second: Seq<u8>)
    ensures
        ({
            let (frames, left) = decode_frames(first);
            let (more, end) = decode_frames(left + second);
            decode_frames(first + second) == (frames + more, end)
        }),
    decreases first.len(),
{
    let all = first + second;
    match decode_frame(first) {
        Some((frame, rest)) => {
            assert(all.subrange(1, 5) =~= first.subrange(1, 5));
            let end = 5 + be_value(first.subrange(1, 5));
            assert(all.subrange(5, end) =~= first.subrange(5, end));
            assert(all.skip(end) =~= rest + second);
            law_chunking_is_irrelevant(rest, second);
            let (frames, left) = decode_frames(rest);
            let (more, last) = decode_frames(left + second);
            assert(seq![frame] + (frames + more) =~= (seq![frame] + frames) + more);
        },
        None => {
            let (more, last) = decode_frames(first + second);
            assert(Seq::<FrameView>::empty() + more =~= more);
        },
    }
}

/// The envelopes of `payloads`, one after the other.
pub open spec fn envelopes_of(payloads: Seq<Seq<u8>>) -> Seq<u8>
    decreases payloads.len(),
{
    if payloads.len() == 0 {
        seq![]
    } else {
        envelope_of(0, payloads[0]) + envelopes_of(payloads.skip(1))
    }
}

/// A stream of envelopes reads back as exactly the payloads that were sent,
/// in order, with nothing left.
pub proof fn law_stream_round_trip(payloads: Seq<Seq<u8>>)
    requires
        forall|i: int| 0 <= i < payloads.len() ==> (#[trigger] payloads[i]).len() <= u32::MAX,
    ensures
        decode_frames(envelopes_of(payloads)) == (
            payloads.map_values(|payload: Seq<u8>| FrameView { flags: 0, payload }),
            Seq::<u8>::empty(),
        ),
    decreases payloads.len(),
{
    let frames = payloads.map_values(|payload: Seq<u8>| FrameView { flags: 0, payload });
    if payloads.len() == 0 {
        assert(frames =~= Seq::<FrameView>::empty());
    } else {
        let rest = payloads.skip(1);
        assert forall|i: int| 0 <= i < rest.len() implies (#[trigger] rest[i]).len()
            <= u32::MAX by {
            assert(rest[i] == payloads[i + 1]);
        }
        law_stream_round_trip(rest);
        law_envelope_round_trip(0, payloads[0], envelopes_of(rest));
        assert(frames =~= seq![FrameView { flags: 0, payload: payloads[0] }] + rest.map_values(
            |payload: Seq<u8>| FrameView { flags: 0, payload },
        ));
    }
}

/// What can be done with a reader.
pub ghost enum ReaderUse {
    /// Another chunk of the stream is taken in.
    Chunk(Seq<u8>),
    /// The end of the stream is noted.
    Finish,
    /// The next envelope is asked for.
    Next,
}

/// The bytes that `uses` take in.
pub open spec fn taken_in(uses: Seq<ReaderUse>) -> Seq<u8>
    decreases uses.len(),
{
    if uses.len() == 0 {
        seq![]
    } else {
        match uses.last() {
            ReaderUse::Chunk(bytes) => taken_in(uses.drop_last()) + bytes,
            _ => taken_in(uses.drop_last()),
        }
    }
}

/// The envelopes that a new reader hands out over `uses`, and how it stands
/// then.
pub open spec fn handed_out(uses: Seq<ReaderUse>) -> (Seq<FrameView>, ReaderView)
    decreases uses.len(),
{
    if uses.len() == 0 {
        (seq![], fresh_reader())
    } else {
        let (frames, reader) = handed_out(uses.drop_last());
        match uses.last() {
            ReaderUse::Chunk(bytes) => (frames, reader.with_chunk(bytes)),
            ReaderUse::Finish => (frames, reader.at_end()),
            ReaderUse::Next => match next_frame_of(reader) {
                (Ok(FrameStepView::Frame(frame)), after) => (frames.push(frame), after),
                (_, after) => (frames, after),
            },
        }
    }
}

/// However chunks and reads alternate, the reader hands out the envelopes of
/// the stream in order, each once, and holds exactly what it has not handed
/// out yet.
pub proof fn law_reader_hands_out_the_stream(uses: Seq<ReaderUse>)
    ensures
        ({
            let (frames, reader) = handed_out(uses);
            let (coming, left) = decode_frames(reader.buf);
            decode_frames(taken_in(uses)) == (frames + coming, left)
        }),
    decreases uses.len(),
{
    if uses.len() == 0 {
        let none = Seq::<FrameView>::empty();
        assert(none + none =~= none);
    } else {
        let earlier = uses.drop_last();
        law_reader_hands_out_the_stream(earlier);
        let (frames, reader) = handed_out(earlier);
        let (coming, left) = decode_frames(reader.buf);
        match uses.last() {
            ReaderUse::Chunk(bytes) => {
                law_chunking_is_irrelevant(taken_in(earlier), bytes);
                law_chunking_is_irrelevant(reader.buf, bytes);
                let more = decode_frames(left + bytes).0;
                assert((frames + coming) + more =~= frames + (coming + more));
            },
            ReaderUse::Finish => {},
            ReaderUse::Next => {
                if let Some((frame, rest)) = decode_frame(reader.buf) {
                    let behind = decode_frames(rest).0;
                    assert(frames + (seq![frame] + behind) =~= frames.push(frame) + behind);
                }
            },
        }
    }
}

/// The length that stands in the four bytes behind the flags, big-endian.
pub open spec fn announced_length(buf: Seq<u8>) -> int {
    16777216 * buf[1] + 65536 * buf[2] + 256 * buf[3] + buf[4]
}

/// An envelope is one byte of flags, four bytes with the length of its
/// payload, and the payload, whole.
pub proof fn law_envelope_layout(flags: u8, payload: Seq<u8>)
    requires
        payload.len() <= u32::MAX,
    ensures
        ({
            let envelope = envelope_of(flags, payload);
            &&& envelope.len() == 5 + payload.len()
            &&& envelope[0] == flags
            &&& announced_length(envelope) == payload.len()
            &&& envelope.skip(5) == payload
        }),
{
    let envelope = envelope_of(flags, payload);
    let length = be_bytes(payload.len() as int);
    lemma_be_round_trip(payload.len() as int);
    assert(envelope[1] == length[0]);
    assert(envelope[2] == length[1]);
    assert(envelope[3] == length[2]);
    assert(envelope[4] == length[3]);
    assert(envelope.skip(5) =~= payload);
}

/// A frame is there exactly once its flags, its length and all of its payload
/// are, and what stands behind it is kept.
pub proof fn law_frame_is_read_as_laid_out(buf: Seq<u8>)
    ensures
        match decode_frame(buf) {
            Some((frame, rest)) => {
                &&& 5 + announced_length(buf) <= buf.len()
                &&& frame.flags == buf[0]
                &&& frame.payload.len() == announced_length(buf)
                &&& buf == buf.take(5) + frame.payload + rest
            },
            None => buf.len() < 5 || buf.len() < 5 + announced_length(buf),
        },
{
    if buf.len() >= 5 {
        let length = buf.subrange(1, 5);
        assert(length[0] == buf[1] && length[1] == buf[2] && length[2] == buf[3] && length[3]
            == buf[4]);
        if let Some((frame, rest)) = decode_frame(buf) {
            assert(buf =~= buf.take(5) + frame.payload + rest);
        }
    }
}

/// The second lowest bit of the flags, and no other, marks the last frame.
pub proof fn law_end_stream_flag(flags: u8, payload: Seq<u8>)
    ensures
        (FrameView { flags, payload }).is_end_stream() <==> (flags as int / 2) % 2 == 1,
{
    assert((flags & 0b10 != 0) <==> (flags / 2) % 2 == 1) by (bit_vector);
}

/// A reader hands out a frame as soon as one is whole; else it asks for more
/// while the stream goes on, and at its end is done exactly where nothing is
/// left over.
pub proof fn law_reader_step(reader: ReaderView)
    ensures
        decode_frame(reader.buf) matches Some((frame, rest)) ==> next_frame_of(reader) == (
            Ok::<FrameStepView, AppErrorView>(FrameStepView::Frame(frame)),
            ReaderView { buf: rest, eof: reader.eof },
        ),
        decode_frame(reader.buf) is None ==> {
            &&& next_frame_of(reader).1 == reader
            &&& !reader.eof ==> next_frame_of(reader).0 == Ok::<FrameStepView, AppErrorView>(
                FrameStepView::NeedChunk,
            )
            &&& reader.eof && reader.buf.len() == 0 ==> next_frame_of(reader).0 == Ok::<
                FrameStepView,
                AppErrorView,
            >(FrameStepView::End)
            &&& reader.eof && reader.buf.len() > 0 ==> next_frame_of(reader).0 == Err::<
                FrameStepView,
                AppErrorView,
            >(AppErrorView::Internal("truncated envd terminal stream"@))
        },
{
}

/// The error of a stream that breaks says why, whole.
pub proof fn law_stream_error_says_why(detail: Seq<char>)
    ensures
        stream_error_of(detail) == AppErrorView::Internal(
            "failed reading envd terminal stream: "@ + detail,
        ),
{
}

/// A reader knows that its stream is over exactly once that was noted.
pub proof fn law_reader_knows_the_end(uses: Seq<ReaderUse>)
    ensures
        handed_out(uses).1.eof <==> uses.contains(ReaderUse::Finish),
    decreases uses.len(),
{
    if uses.len() > 0 {
        let earlier = uses.drop_last();
        law_reader_knows_the_end(earlier);
        assert(uses =~= earlier.push(uses.last()));
        if earlier.contains(ReaderUse::Finish) {
            let i = choose|i: int| 0 <= i < earlier.len() && earlier[i] == ReaderUse::Finish;
            assert(uses[i] == ReaderUse::Finish);
        }
        if uses.last() is Finish {
            assert(uses[uses.len() - 1] == ReaderUse::Finish);
        }
        if uses.contains(ReaderUse::Finish) && !(uses.last() is Finish) {
            let i = choose|i: int| 0 <= i < uses.len() && uses[i] == ReaderUse::Finish;
            assert(earlier[i] == ReaderUse::Finish);
        }
    }
}

/// A frame says exactly what it holds.
pub proof fn law_frame_says_what_it_holds(frame: ConnectFrame, error: AppError)
    ensures
        frame@.flags == frame.flags,
        frame@.payload == frame.payload@,
        step_result(Ok(FrameStep::Frame(frame))) == Ok::<FrameStepView, AppErrorView>(
            FrameStepView::Frame(frame@),
        ),
        step_result(Ok(FrameStep::End)) == Ok::<FrameStepView, AppErrorView>(FrameStepView::End),
        step_result(Ok(FrameStep::NeedChunk)) == Ok::<FrameStepView, AppErrorView>(
            FrameStepView::NeedChunk,
        ),
        step_result(Err(error)) == Err::<FrameStepView, AppErrorView>(error@),
{
}

} // verus!
