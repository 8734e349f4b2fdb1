//! Frames, and the scanner that walks a byte stream from frame to frame.
use crate::error::Mp3Error;
use crate::header::{frame_size_spec, parse_frame_header, parse_spec, FrameHeader, HeaderFields};
use smallvec::SmallVec;
use vstd::prelude::*;
use vstd::slice::slice_subrange;

verus! {

/// Length of a frame header in bytes.
pub const HEADER_LEN: usize = 4;

/// The payload of a frame, kept in a `smallvec::SmallVec` that holds up to
/// 256 bytes in place and longer payloads on the heap.
///
/// The verifier does not look inside: what is known of a payload is what
/// the two functions below state of `payload_bytes`.
#[verifier::external_body]
#[derive(Debug)]
pub struct Payload {
    bytes: SmallVec<[u8; 256]>,
}

/// The bytes that a payload holds, in order.
pub uninterp spec fn payload_bytes(payload: Payload) -> Seq<u8>;

/// Calls `SmallVec::from_slice`. Taken on trust from its source: the new
/// vector holds a copy of the elements of the slice, as many and in the
/// same order. It does not panic.
#[verifier::external_body]
fn payload_from_slice(bytes: &[u8]) -> (payload: Payload)
    ensures
        payload_bytes(payload) == bytes@,
{
    Payload { bytes: SmallVec::from_slice(bytes) }
}

/// Calls `SmallVec::as_slice`. Taken on trust from its source: the slice
/// is the whole vector, all its elements in order.
#[verifier::external_body]
fn payload_as_slice(payload: &Payload) -> (bytes: &[u8])
    ensures
        bytes@ == payload_bytes(*payload),
{
    payload.bytes.as_slice()
}

/// One frame: its header and the bytes that follow the header. The bytes
/// are not interpreted.
#[derive(Debug)]
pub struct Frame {
    header: FrameHeader,
    data: Payload,
}

/// A frame as plain data.
pub struct FrameView {
    pub header: HeaderFields,
    pub payload: Seq<u8>,
}

impl View for Frame {
    type V = FrameView;

    closed spec fn view(&self) -> FrameView {
        FrameView { header: self.header@, payload: payload_bytes(self.data) }
    }
}

impl Frame {
    /// Header and payload together are as long as the header says.
    #[verifier::type_invariant]
    spec fn sized_by_header(self) -> bool {
        frame_size_spec(self.header@) == Some(HEADER_LEN + payload_bytes(self.data).len())
    }

    /// The header of the frame.
    pub fn header(&self) -> (header: &FrameHeader)
        ensures
            header@ == self@.header,
    {
        &self.header
    }

    /// The payload of the frame: the bytes behind its header.
    pub fn data(&self) -> (bytes: &[u8])
        ensures
            bytes@ == self@.payload,
            frame_size_spec(self@.header) == Some(HEADER_LEN + bytes@.len()),
    {
        proof {
            use_type_invariant(self);
        }
        payload_as_slice(&self.data)
    }
}

/// Where a scanner stands.
#[derive(Debug, Clone, Copy, PartialEq, Eq, Structural)]
pub enum ScanState {
    /// Frames may follow.
    Scanning,
    /// The stream has ended or failed; no frame follows.
    Exhausted,
}

/// What a byte source gave when it was asked for a number of bytes.
#[derive(Debug, Clone, Copy)]
pub enum Delivery<'a> {
    /// The bytes that it had: as many as were asked for, or fewer, down to
    /// none, if the stream ended first.
    Bytes(&'a [u8]),
    /// The source failed.
    Failed,
}

impl<'a> Delivery<'a> {
    /// The bytes delivered, if the source did not fail.
    pub open spec fn view(&self) -> Option<Seq<u8>> {
        match self {
            Delivery::Bytes(bytes) => Some(bytes@),
            Delivery::Failed => None,
        }
    }
}

/// What follows from the answer to a request for the four bytes of a
/// header: the end of the stream if there was not a single byte, else an
/// error, or the header and the length of the payload to ask for.
pub open spec fn header_step(got: Option<Seq<u8>>) -> Result<Option<(HeaderFields, int)>, Mp3Error> {
    match got {
        None => Err(Mp3Error::Io),
        Some(bytes) => if bytes.len() == 0 {
            Ok(None)
        } else {
            match parse_spec(bytes) {
                Err(e) => Err(e),
                Ok(header) => match frame_size_spec(header) {
                    None => Err(Mp3Error::UnsupportedFreeFormat),
                    Some(size) => Ok(Some((header, size - HEADER_LEN))),
                },
            }
        },
    }
}

/// What follows from the answer to a request for the payload of the frame
/// that `header` starts: the frame, or an error.
pub open spec fn payload_step(header: HeaderFields, got: Option<Seq<u8>>) -> Result<
    FrameView,
    Mp3Error,
> {
    match (got, frame_size_spec(header)) {
        (None, _) => Err(Mp3Error::Io),
        (Some(_), None) => Err(Mp3Error::UnsupportedFreeFormat),
        (Some(bytes), Some(size)) => if bytes.len() < size - HEADER_LEN {
            Err(Mp3Error::Truncated)
        } else {
            Ok(FrameView { header, payload: bytes.take(size - HEADER_LEN) })
        },
    }
}

impl ScanState {
    /// Whether the scanner has reached its final state.
    pub fn is_exhausted(&self) -> (b: bool)
        ensures
            b == (self is Exhausted),
    {
        match self {
            ScanState::Scanning => false,
            ScanState::Exhausted => true,
        }
    }

    /// Takes the answer of the byte source to a request for the four bytes
    /// of the next header.
    ///
    /// While scanning, `Ok(Some(..))` holds the header and the number of
    /// payload bytes to ask the source for next; `Ok(None)` is the clean
    /// end of the stream. Anything but `Ok(Some(..))` exhausts the
    /// scanner, and an exhausted scanner answers `Ok(None)` to everything.
    pub fn header_read(&mut self, got: Delivery<'_>) -> (r: Result<
        Option<(FrameHeader, usize)>,
        Mp3Error,
    >)
        ensures
            match r {
                Ok(Some((header, want))) => *old(self) == ScanState::Scanning && header_step(got@) == Ok::<
                    _,
                    Mp3Error,
                >(Some((header@, want as int))),
                Ok(None) => *old(self) == ScanState::Exhausted || header_step(got@) == Ok::<_, Mp3Error>(
                    None::<(HeaderFields, int)>,
                ),
                Err(e) => *old(self) == ScanState::Scanning && header_step(got@) == Err::<
                    Option<(HeaderFields, int)>,
                    _,
                >(e),
            },
            *final(self) == (if r matches Ok(Some(_)) {
                ScanState::Scanning
            } else {
                ScanState::Exhausted
            }),
    {
        if self.is_exhausted() {
            return Ok(None);
        }
        *self = ScanState::Exhausted;
        let bytes = match got {
            Delivery::Failed => { return Err(Mp3Error::Io); },
            Delivery::Bytes(bytes) => bytes,
        };
        if bytes.len() == 0 {
            return Ok(None);
        }
        let header = match parse_frame_header(bytes) {
            Err(e) => { return Err(e); },
            Ok(header) => header,
        };
        let size = match header.frame_size() {
            None => { return Err(Mp3Error::UnsupportedFreeFormat); },
            Some(size) => size,
        };
        *self = ScanState::Scanning;
        Ok(Some((header, size - HEADER_LEN)))
    }

    /// Takes the answer of the byte source to a request for the payload of
    /// the frame that `header` starts.
    ///
    /// While scanning, the frame is made of `header` and the first bytes
    /// delivered, as many as the header asks for. Anything but a frame
    /// exhausts the scanner, and an exhausted scanner answers `Ok(None)`.
    pub fn payload_read(&mut self, header: FrameHeader, got: Delivery<'_>) -> (r: Result<
        Option<Frame>,
        Mp3Error,
    >)
        ensures
            match r {
                Ok(Some(frame)) => *old(self) == ScanState::Scanning && payload_step(header@, got@) == Ok::<
                    _,
                    Mp3Error,
                >(frame@),
                Ok(None) => *old(self) == ScanState::Exhausted,
                Err(e) => *old(self) == ScanState::Scanning && payload_step(header@, got@) == Err::<
                    FrameView,
                    _,
                >(e),
            },
            *final(self) == (if r matches Ok(Some(_)) {
                ScanState::Scanning
            } else {
                ScanState::Exhausted
            }),
    {
        if self.is_exhausted() {
            return Ok(None);
        }
        *self = ScanState::Exhausted;
        let bytes = match got {
            Delivery::Failed => { return Err(Mp3Error::Io); },
            Delivery::Bytes(bytes) => bytes,
        };
        let size = match header.frame_size() {
            None => { return Err(Mp3Error::UnsupportedFreeFormat); },
            Some(size) => size,
        };
        let want = size - HEADER_LEN;
        if bytes.len() < want {
            return Err(Mp3Error::Truncated);
        }
        let data = payload_from_slice(slice_subrange(bytes, 0, want));
        *self = ScanState::Scanning;
        Ok(Some(Frame { header, data }))
    }
}

/// What a scanning reader makes of the bytes `unread` that it has yet to
/// consume: the clean end if there is none, else the frame at their start,
/// or what is wrong with it.
pub open spec fn scan(unread: Seq<u8>) -> Result<Option<FrameView>, Mp3Error> {
    if unread.len() == 0 {
        Ok(None)
    } else {
        match parse_spec(unread) {
            Err(e) => Err(e),
            Ok(header) => match frame_size_spec(header) {
                None => Err(Mp3Error::UnsupportedFreeFormat),
                Some(size) => if unread.len() < size {
                    Err(Mp3Error::Truncated)
                } else {
                    Ok(Some(FrameView { header, payload: unread.subrange(HEADER_LEN as int, size) }))
                },
            },
        }
    }
}

/// A scanner over a stream held in memory as plain data.
pub struct FrameReaderView {
    pub state: ScanState,
    /// The bytes not yet consumed.
    pub unread: Seq<u8>,
}

/// A scanner at the start of `stream`.
pub open spec fn reader_at(stream: Seq<u8>) -> FrameReaderView {
    FrameReaderView { state: ScanState::Scanning, unread: stream }
}

/// What a call of `next_frame` returns: an exhausted reader has nothing
/// more to give, a scanning one looks at its unread bytes.
pub open spec fn next_frame_spec(reader: FrameReaderView) -> Result<Option<FrameView>, Mp3Error> {
    match reader.state {
        ScanState::Exhausted => Ok(None),
        ScanState::Scanning => scan(reader.unread),
    }
}

/// The reader after a call of `next_frame`: a frame is consumed and the
/// scan goes on; anything else exhausts the reader and consumes nothing.
pub open spec fn after_next_frame(reader: FrameReaderView) -> FrameReaderView {
    match next_frame_spec(reader) {
        Ok(Some(frame)) => FrameReaderView {
            state: ScanState::Scanning,
            unread: reader.unread.skip(HEADER_LEN + frame.payload.len()),
        },
        _ => FrameReaderView { state: ScanState::Exhausted, unread: reader.unread },
    }
}

/// The reader after `calls` calls of `next_frame`.
pub open spec fn after_calls(reader: FrameReaderView, calls: nat) -> FrameReaderView
    decreases calls,
{
    if calls == 0 {
        reader
    } else {
        after_next_frame(after_calls(reader, (calls - 1) as nat))
    }
}

/// Walks a byte stream held in memory from frame to frame.
#[derive(Debug)]
pub struct FrameReader<'a> {
    unread: &'a [u8],
    state: ScanState,
}

impl<'a> View for FrameReader<'a> {
    type V = FrameReaderView;

    closed spec fn view(&self) -> FrameReaderView {
        FrameReaderView { state: self.state, unread: self.unread@ }
    }
}

impl<'a> FrameReader<'a> {
    /// A scanner at the start of `data`.
    pub fn new(data: &'a [u8]) -> (reader: Self)
        ensures
            reader@ == reader_at(data@),
    {
        FrameReader { unread: data, state: ScanState::Scanning }
    }

    /// Whether the scanner has reached its final state.
    pub fn is_exhausted(&self) -> (b: bool)
        ensures
            b == (self@.state == ScanState::Exhausted),
    {
        self.state.is_exhausted()
    }

    /// The bytes not yet consumed.
    pub fn unread(&self) -> (bytes: &'a [u8])
        ensures
            bytes@ == self@.unread,
    {
        self.unread
    }

    /// The next frame of the stream.
    ///
    /// While scanning: `Ok(Some(frame))` consumes the frame and goes on
    /// scanning; `Ok(None)` is the clean end, where no byte is left; an
    /// error tells what is wrong with the bytes at hand. The end and every
    /// error exhaust the scanner and consume nothing. An exhausted scanner
    /// returns `Ok(None)`.
    pub fn next_frame(&mut self) -> (r: Result<Option<Frame>, Mp3Error>)
        ensures
            match r {
                Ok(Some(frame)) => next_frame_spec(old(self)@) == Ok::<_, Mp3Error>(Some(frame@)),
                Ok(None) => next_frame_spec(old(self)@) == Ok::<_, Mp3Error>(None::<FrameView>),
                Err(e) => next_frame_spec(old(self)@) == Err::<Option<FrameView>, _>(e),
            },
            final(self)@ == after_next_frame(old(self)@),
    {
        let unread = self.unread;
        let len = unread.len();
        let head = slice_subrange(
            unread,
            0,
            if len < HEADER_LEN {
                len
            } else {
                HEADER_LEN
            },
        );
        let (header, want) = match self.state.header_read(Delivery::Bytes(head)) {
            Ok(Some(pending)) => pending,
            Ok(None) => { return Ok(None); },
            Err(e) => { return Err(e); },
        };
        let end = if want < len - HEADER_LEN {
            HEADER_LEN + want
        } else {
            len
        };
        let body = slice_subrange(unread, HEADER_LEN, end);
        let r = self.state.payload_read(header, Delivery::Bytes(body));
        if let Ok(Some(_)) = r {
            assert(body@.take(want as int) == unread@.subrange(HEADER_LEN as int, HEADER_LEN + want));
            self.unread = slice_subrange(unread, end, len);
        }
        r
    }
}

/// `bytes` is one whole frame: it starts with a header that decodes, and
/// is as long as that header says.
pub open spec fn is_whole_frame(bytes: Seq<u8>) -> bool {
    parse_spec(bytes) matches Ok(header) && frame_size_spec(header) == Some(bytes.len() as int)
}

/// The frame that the bytes of one whole frame hold.
pub open spec fn frame_of(bytes: Seq<u8>) -> FrameView {
    FrameView { header: parse_spec(bytes)->Ok_0, payload: bytes.skip(HEADER_LEN as int) }
}

/// The sizes that the headers of `frames` give, added up.
pub open spec fn total_size(frames: Seq<Seq<u8>>) -> int
    decreases frames.len(),
{
    if frames.len() == 0 {
        0
    } else {
        frame_size_spec(parse_spec(frames[0])->Ok_0)->0 + total_size(frames.drop_first())
    }
}

/// A scanning reader that has a whole frame before it returns that frame
/// and stands behind it afterwards.
proof fn lemma_scan_whole_frame(frame: Seq<u8>, rest: Seq<u8>)
    requires
        is_whole_frame(frame),
    ensures
        next_frame_spec(reader_at(frame + rest)) == Ok::<_, Mp3Error>(Some(frame_of(frame))),
        after_next_frame(reader_at(frame + rest)) == reader_at(rest),
{
    let stream = frame + rest;
    assert(stream[0] == frame[0] && stream[1] == frame[1] && stream[2] == frame[2] && stream[3]
        == frame[3]);
    assert(stream.subrange(HEADER_LEN as int, frame.len() as int) == frame.skip(HEADER_LEN as int));
    assert(stream.skip(frame.len() as int) == rest);
}

/// After `calls` calls on a stream that starts with whole frames, the
/// reader stands behind the first `calls` of them, still scanning.
proof fn lemma_frames_in_a_row(frames: Seq<Seq<u8>>, tail: Seq<u8>, calls: nat)
    requires
        forall|i: int| 0 <= i < frames.len() ==> is_whole_frame(#[trigger] frames[i]),
        calls <= frames.len(),
    ensures
        after_calls(reader_at(frames.flatten() + tail), calls) == reader_at(
            frames.skip(calls as int).flatten() + tail,
        ),
        frames.flatten().len() == total_size(frames.take(calls as int)) + frames.skip(
            calls as int,
        ).flatten().len(),
    decreases calls,
{
    if calls == 0 {
        assert(frames.skip(0) == frames);
        assert(frames.take(0).len() == 0);
    } else {
        let done = (calls - 1) as nat;
        lemma_frames_in_a_row(frames, tail, done);
        let ahead = frames.skip(done as int);
        let behind = frames.skip(calls as int);
        assert(ahead.first() == frames[done as int]);
        assert(ahead.drop_first() == behind);
        assert(ahead.flatten() + tail == ahead.first() + (behind.flatten() + tail));
        lemma_scan_whole_frame(ahead.first(), behind.flatten() + tail);
        lemma_total_size_push(frames.take(done as int), frames[done as int]);
        assert(frames.take(done as int).push(frames[done as int]) == frames.take(calls as int));
    }
}

/// One more frame adds its size to the total.
proof fn lemma_total_size_push(frames: Seq<Seq<u8>>, frame: Seq<u8>)
    ensures
        total_size(frames.push(frame)) == total_size(frames) + frame_size_spec(
            parse_spec(frame)->Ok_0,
        )->0,
    decreases frames.len(),
{
    let longer = frames.push(frame);
    if frames.len() == 0 {
        assert(longer.drop_first().len() == 0);
        assert(total_size(longer.drop_first()) == 0);
    } else {
        assert(longer.drop_first() == frames.drop_first().push(frame));
        lemma_total_size_push(frames.drop_first(), frame);
    }
}

/// A stream of whole frames in a row and nothing else gives its frames,
/// one per call and in order, and then the clean end. By then the calls
/// have consumed the whole stream, which is as many bytes as the sizes of
/// the frames add up to.
pub proof fn lemma_frames_then_end(frames: Seq<Seq<u8>>)
    requires
        forall|i: int| 0 <= i < frames.len() ==> is_whole_frame(#[trigger] frames[i]),
    ensures
        forall|i: int|
            0 <= i < frames.len() ==> next_frame_spec(
                after_calls(reader_at(frames.flatten()), i as nat),
            ) == Ok::<_, Mp3Error>(Some(frame_of(#[trigger] frames[i]))),
        next_frame_spec(after_calls(reader_at(frames.flatten()), frames.len())) == Ok::<
            _,
            Mp3Error,
        >(None::<FrameView>),
        after_calls(reader_at(frames.flatten()), frames.len()).unread.len() == 0,
        frames.flatten().len() == total_size(frames),
{
    let tail = Seq::<u8>::empty();
    assert(frames.flatten() + tail == frames.flatten());
    lemma_frames_before_tail(frames, tail);
    lemma_frames_in_a_row(frames, tail, frames.len());
    assert(frames.skip(frames.len() as int).flatten() + tail == tail);
    assert(frames.take(frames.len() as int) == frames);
    assert(frames.skip(frames.len() as int).flatten().len() == 0);
}

/// A stream of whole frames in a row with one to three more bytes behind
/// them gives its frames, one per call and in order, and then fails as
/// truncated: bytes that are left over are never passed off as the clean
/// end.
pub proof fn lemma_leftover_is_truncated(frames: Seq<Seq<u8>>, tail: Seq<u8>)
    requires
        forall|i: int| 0 <= i < frames.len() ==> is_whole_frame(#[trigger] frames[i]),
        0 < tail.len() < HEADER_LEN,
    ensures
        forall|i: int|
            0 <= i < frames.len() ==> next_frame_spec(
                after_calls(reader_at(frames.flatten() + tail), i as nat),
            ) == Ok::<_, Mp3Error>(Some(frame_of(#[trigger] frames[i]))),
        next_frame_spec(after_calls(reader_at(frames.flatten() + tail), frames.len())) == Err::<
            Option<FrameView>,
            _,
        >(Mp3Error::Truncated),
{
    lemma_frames_before_tail(frames, tail);
    lemma_frames_in_a_row(frames, tail, frames.len());
    assert(frames.skip(frames.len() as int).flatten() + tail == tail);
}

/// Whatever follows them, whole frames in a row come out one per call and
/// in order.
proof fn lemma_frames_before_tail(frames: Seq<Seq<u8>>, tail: Seq<u8>)
    requires
        forall|i: int| 0 <= i < frames.len() ==> is_whole_frame(#[trigger] frames[i]),
    ensures
        forall|i: int|
            0 <= i < frames.len() ==> next_frame_spec(
                after_calls(reader_at(frames.flatten() + tail), i as nat),
            ) == Ok::<_, Mp3Error>(Some(frame_of(#[trigger] frames[i]))),
{
    assert forall|i: int| 0 <= i < frames.len() implies next_frame_spec(
        after_calls(reader_at(frames.flatten() + tail), i as nat),
    ) == Ok::<_, Mp3Error>(Some(frame_of(#[trigger] frames[i]))) by {
        lemma_frames_in_a_row(frames, tail, i as nat);
        let ahead = frames.skip(i);
        let behind = frames.skip(i + 1);
        assert(ahead.first() == frames[i]);
        assert(ahead.drop_first() == behind);
        assert(ahead.flatten() + tail == ahead.first() + (behind.flatten() + tail));
        lemma_scan_whole_frame(ahead.first(), behind.flatten() + tail);
    }
}

} // verus!
