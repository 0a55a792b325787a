//! The `[type:u8][flags:u8][payload...]` framing carried in every binary
//! WebSocket message, in both directions.
use vstd::prelude::*;

verus! {

/// Frame type of an encoded video access unit (host to tablet).
pub const TYPE_VIDEO: u8 = 0x01;

/// Frame type of an input event (tablet to host).
pub const TYPE_INPUT: u8 = 0x03;

/// Frame type of a round-trip ping (tablet to host); its payload is opaque
/// to the host, an 8-byte timestamp by convention.
pub const TYPE_PING: u8 = 0x04;

/// Frame type of the answer to a ping (host to tablet).
pub const TYPE_PONG: u8 = 0x05;

/// Flags byte with no flag set.
pub const FLAG_NONE: u8 = 0x00;

/// Flag bit 0 of a video frame: the access unit is a keyframe.
pub const FLAG_KEYFRAME: u8 = 0x01;

/// The bytes of a frame: the type byte, the flags byte, then the payload.
pub open spec fn spec_frame(kind: u8, flags: u8, payload: Seq<u8>) -> Seq<u8> {
    seq![kind, flags] + payload
}

/// What an inbound frame means to the input path.
pub enum InboundView {
    /// Fewer than two bytes: not even a header.
    TooShort(nat),
    /// A frame of another type, silently ignored.
    Ignored(u8),
    /// An input frame with its flags and payload.
    Input(u8, Seq<u8>),
    /// A ping, with the pong that answers it.
    Ping(Seq<u8>),
}

/// The pong answering a ping: the same bytes with the type byte rewritten.
pub open spec fn spec_pong(ping: Seq<u8>) -> Seq<u8> {
    ping.update(0, TYPE_PONG)
}

/// How a received frame is read: a ping is recognised by its type byte
/// alone, before anything else; then a frame shorter than its header is an
/// error, a frame of another type than input is ignored, and an input
/// frame yields its flags and payload.
pub open spec fn spec_classify(bytes: Seq<u8>) -> InboundView {
    if bytes.len() >= 1 && bytes[0] == TYPE_PING {
        InboundView::Ping(spec_pong(bytes))
    } else if bytes.len() < 2 {
        InboundView::TooShort(bytes.len())
    } else if bytes[0] != TYPE_INPUT {
        InboundView::Ignored(bytes[0])
    } else {
        InboundView::Input(bytes[1], bytes.subrange(2, bytes.len() as int))
    }
}

/// A received frame that has a complete header.
#[derive(Debug, PartialEq, Eq)]
pub enum InboundFrame {
    /// Not an input frame; the input path leaves it alone.
    Ignored { kind: u8 },
    /// An input frame: its flags and its payload (UTF-8 JSON).
    Input { flags: u8, payload: Vec<u8> },
    /// A ping, with the pong to send back at once.
    Ping { reply: Vec<u8> },
}

/// A received frame that cannot be read.
#[derive(Debug, PartialEq, Eq)]
pub enum FrameError {
    /// The frame holds fewer than the two header bytes.
    TooShort { len: usize },
}

/// The meaning of a classification result.
pub open spec fn inbound_view(r: Result<InboundFrame, FrameError>) -> InboundView {
    match r {
        Err(FrameError::TooShort { len }) => InboundView::TooShort(len as nat),
        Ok(InboundFrame::Ignored { kind }) => InboundView::Ignored(kind),
        Ok(InboundFrame::Input { flags, payload }) => InboundView::Input(flags, payload@),
        Ok(InboundFrame::Ping { reply }) => InboundView::Ping(reply@),
    }
}

/// Builds a frame from its type, flags and payload.
pub fn encode_frame(kind: u8, flags: u8, payload: &[u8]) -> (out: Vec<u8>)
    ensures
        out@ == spec_frame(kind, flags, payload@),
{
    let mut out: Vec<u8> = Vec::new();
    out.push(kind);
    out.push(flags);
    let n = payload.len();
    for i in 0..n
        invariant
            n == payload@.len(),
            out@ == spec_frame(kind, flags, payload@.subrange(0, i as int)),
    {
        out.push(payload[i]);
        assert(payload@.subrange(0, i + 1) == payload@.subrange(0, i as int).push(payload@[i as int]));
    }
    assert(payload@.subrange(0, n as int) == payload@);
    out
}

/// Frames an encoded video access unit; the keyframe flag is set exactly
/// when `is_key` holds.
pub fn video_frame(payload: &[u8], is_key: bool) -> (out: Vec<u8>)
    ensures
        out@ == spec_frame(TYPE_VIDEO, if is_key { FLAG_KEYFRAME } else { FLAG_NONE }, payload@),
        out@.len() == payload@.len() + 2,
        out@[0] == 1,
        out@[1] == (if is_key { 1u8 } else { 0u8 }),
{
    let flags = if is_key { FLAG_KEYFRAME } else { FLAG_NONE };
    encode_frame(TYPE_VIDEO, flags, payload)
}

/// Frames a serialised input message; the flags byte is zero.
pub fn input_frame(json: &[u8]) -> (out: Vec<u8>)
    ensures
        out@ == spec_frame(TYPE_INPUT, FLAG_NONE, json@),
        out@.len() == json@.len() + 2,
        out@[0] == 3,
        out@[1] == 0,
{
    encode_frame(TYPE_INPUT, FLAG_NONE, json)
}

/// The pong answering a ping: the same bytes with the type byte rewritten.
pub fn pong_frame(ping: &[u8]) -> (out: Vec<u8>)
    requires
        ping@.len() >= 1,
    ensures
        out@ == spec_pong(ping@),
{
    let n = ping.len();
    let mut out: Vec<u8> = Vec::new();
    out.push(TYPE_PONG);
    let mut i: usize = 1;
    while i < n
        invariant
            1 <= i <= n,
            n == ping@.len(),
            out@ == spec_pong(ping@).subrange(0, i as int),
        decreases n - i,
    {
        out.push(ping[i]);
        assert(spec_pong(ping@).subrange(0, i + 1) == spec_pong(ping@).subrange(0, i as int).push(
            ping@[i as int],
        ));
        i = i + 1;
    }
    assert(spec_pong(ping@).subrange(0, n as int) == spec_pong(ping@));
    out
}

/// Reads a received frame: a ping yields its pong before anything else is
/// looked at; otherwise a frame shorter than its header is an error, a
/// frame of another type than input is ignored, and an input frame yields
/// its flags and payload.
pub fn classify_inbound(bytes: &[u8]) -> (r: Result<InboundFrame, FrameError>)
    ensures
        inbound_view(r) == spec_classify(bytes@),
{
    let n = bytes.len();
    if n >= 1 && bytes[0] == TYPE_PING {
        return Ok(InboundFrame::Ping { reply: pong_frame(bytes) });
    }
    if n < 2 {
        return Err(FrameError::TooShort { len: n });
    }
    let kind = bytes[0];
    let flags = bytes[1];
    if kind != TYPE_INPUT {
        return Ok(InboundFrame::Ignored { kind });
    }
    let mut payload: Vec<u8> = Vec::new();
    let mut i: usize = 2;
    while i < n
        invariant
            2 <= i <= n,
            n == bytes@.len(),
            payload@ == bytes@.subrange(2, i as int),
        decreases n - i,
    {
        payload.push(bytes[i]);
        assert(bytes@.subrange(2, i + 1) == bytes@.subrange(2, i as int).push(bytes@[i as int]));
        i = i + 1;
    }
    Ok(InboundFrame::Input { flags, payload })
}

/// Law: an input frame built by the sender is read back by the input path
/// as the same flags and payload.
pub proof fn lemma_input_frame_roundtrip(flags: u8, payload: Seq<u8>)
    ensures
        spec_classify(spec_frame(TYPE_INPUT, flags, payload)) == InboundView::Input(flags, payload),
{
    let f = spec_frame(TYPE_INPUT, flags, payload);
    assert(f.subrange(2, f.len() as int) =~= payload);
}

/// Law: on a shared socket, video frames never reach the input path; they
/// are ignored whatever their flags and payload.
pub proof fn lemma_video_frame_ignored(flags: u8, payload: Seq<u8>)
    ensures
        spec_classify(spec_frame(TYPE_VIDEO, flags, payload)) == InboundView::Ignored(TYPE_VIDEO),
{
}

/// Law: a ping is answered by the same bytes with only the type byte
/// rewritten to pong, whatever its length, flags and payload.
pub proof fn lemma_ping_answered(bytes: Seq<u8>)
    requires
        bytes.len() >= 1,
        bytes[0] == TYPE_PING,
    ensures
        spec_classify(bytes) == InboundView::Ping(spec_pong(bytes)),
        spec_pong(bytes).len() == bytes.len(),
        spec_pong(bytes)[0] == TYPE_PONG,
        forall|i: int| 1 <= i < bytes.len() ==> spec_pong(bytes)[i] == bytes[i],
{
}

/// Law: a ping built by the tablet is answered with the pong frame of the
/// same flags and payload, and a pong never reaches the input path.
pub proof fn lemma_ping_roundtrip(flags: u8, payload: Seq<u8>)
    ensures
        spec_classify(spec_frame(TYPE_PING, flags, payload)) == InboundView::Ping(
            spec_frame(TYPE_PONG, flags, payload),
        ),
        spec_classify(spec_frame(TYPE_PONG, flags, payload)) == InboundView::Ignored(TYPE_PONG),
{
    assert(spec_pong(spec_frame(TYPE_PING, flags, payload)) =~= spec_frame(TYPE_PONG, flags, payload));
}

/// Law: a frame is the type byte, the flags byte, then the payload byte
/// for byte.
pub proof fn lemma_frame_len(kind: u8, flags: u8, payload: Seq<u8>)
    ensures
        spec_frame(kind, flags, payload).len() == payload.len() + 2,
        spec_frame(kind, flags, payload)[0] == kind,
        spec_frame(kind, flags, payload)[1] == flags,
        forall|i: int| 0 <= i < payload.len() ==> spec_frame(kind, flags, payload)[i + 2] == payload[i],
{
}

} // verus!
