//! The video pipeline's decisions: the formats requested from the screen
//! producer, when an encoder is opened, how it is configured, and the
//! counters kept while frames go in and packets come out.
use vstd::prelude::*;

verus! {

/// Frames per second the encoder is configured for; its time base is
/// one over this.
pub const FRAME_RATE: i32 = 60;

/// Keyframe interval of the streamed video: a newly connected client
/// waits at most this many frames for a keyframe.
pub const GOP_STREAM: u32 = 30;

/// Keyframe interval of video written to a file.
pub const GOP_FILE: u32 = 60;

/// Streamed packets between two progress lines.
pub const PROGRESS_INTERVAL: u64 = 60;

/// Raw video pixel formats a producer may offer.
#[derive(Clone, Copy, Debug, PartialEq, Eq, Structural)]
pub enum VideoFormat {
    Bgrx,
    Rgbx,
    Bgra,
    Rgba,
    Xbgr,
    Xrgb,
    Abgr,
    Argb,
    /// Any format this host does not name.
    Other,
}

/// A frame size in pixels.
#[derive(Clone, Copy, Debug, PartialEq, Eq, Structural)]
pub struct Size {
    pub width: u32,
    pub height: u32,
}

/// A frame rate as a fraction of frames per second.
#[derive(Clone, Copy, Debug, PartialEq, Eq, Structural)]
pub struct Fraction {
    pub num: u32,
    pub denom: u32,
}

/// The formats offered to the producer when the capture stream connects:
/// raw video in one of `formats` (the first preferred), any size and rate
/// within the ranges, with the given defaults.
#[derive(Debug, PartialEq, Eq)]
pub struct FormatRequest {
    pub default_format: VideoFormat,
    pub formats: Vec<VideoFormat>,
    pub default_size: Size,
    pub min_size: Size,
    pub max_size: Size,
    pub default_rate: Fraction,
    pub min_rate: Fraction,
    pub max_rate: Fraction,
}

/// The size and rate ranges every request carries.
pub open spec fn spec_request_ranges(r: FormatRequest) -> bool {
    &&& r.default_size == (Size { width: 1920, height: 1080 })
    &&& r.min_size == (Size { width: 1, height: 1 })
    &&& r.max_size == (Size { width: 8192, height: 8192 })
    &&& r.default_rate == (Fraction { num: 60, denom: 1 })
    &&& r.min_rate == (Fraction { num: 0, denom: 1 })
    &&& r.max_rate == (Fraction { num: 1000, denom: 1 })
}

fn request_with(formats: Vec<VideoFormat>) -> (r: FormatRequest)
    ensures
        spec_request_ranges(r),
        r.default_format == VideoFormat::Bgrx,
        r.formats@ == formats@,
{
    FormatRequest {
        default_format: VideoFormat::Bgrx,
        formats,
        default_size: Size { width: 1920, height: 1080 },
        min_size: Size { width: 1, height: 1 },
        max_size: Size { width: 8192, height: 8192 },
        default_rate: Fraction { num: 60, denom: 1 },
        min_rate: Fraction { num: 0, denom: 1 },
        max_rate: Fraction { num: 1000, denom: 1 },
    }
}

/// The request of the encoding pipeline: BGRx only, which the encoder
/// takes without colour conversion.
pub fn encode_format_request() -> (r: FormatRequest)
    ensures
        spec_request_ranges(r),
        r.default_format == VideoFormat::Bgrx,
        r.formats@ == seq![VideoFormat::Bgrx],
{
    request_with(vec![VideoFormat::Bgrx])
}

/// The request of the frame-counting probe: any common 32-bit RGB layout,
/// BGRx preferred.
pub fn counting_format_request() -> (r: FormatRequest)
    ensures
        spec_request_ranges(r),
        r.default_format == VideoFormat::Bgrx,
        r.formats@ == seq![
            VideoFormat::Bgrx,
            VideoFormat::Rgbx,
            VideoFormat::Bgra,
            VideoFormat::Rgba,
            VideoFormat::Xbgr,
            VideoFormat::Xrgb,
            VideoFormat::Abgr,
            VideoFormat::Argb,
        ],
{
    request_with(
        vec![
            VideoFormat::Bgrx,
            VideoFormat::Rgbx,
            VideoFormat::Bgra,
            VideoFormat::Rgba,
            VideoFormat::Xbgr,
            VideoFormat::Xrgb,
            VideoFormat::Abgr,
            VideoFormat::Argb,
        ],
    )
}

/// A stream parameter announced by the producer.
#[derive(Clone, Copy, Debug, PartialEq, Eq, Structural)]
pub enum FormatParam {
    /// The parameter was cleared.
    Absent,
    /// A parameter other than the format.
    NotFormat,
    /// A format that does not read as raw video.
    Unparsable,
    /// The negotiated raw video format and frame size.
    Video { format: VideoFormat, width: u32, height: u32 },
}

/// What to do about an announced parameter.
#[derive(Clone, Copy, Debug, PartialEq, Eq, Structural)]
pub enum FormatAction {
    /// Nothing.
    Ignore,
    /// Warn that the producer chose a format the encoder is not fed with.
    RejectFormat { format: VideoFormat },
    /// Open the encoder for frames of this size.
    OpenEncoder { width: u32, height: u32 },
}

/// The action for an announced parameter, given whether an encoder is
/// already open.
pub open spec fn spec_on_format_param(encoder_open: bool, param: FormatParam) -> FormatAction {
    match param {
        FormatParam::Video { format, width, height } => if encoder_open {
            FormatAction::Ignore
        } else if format != VideoFormat::Bgrx {
            FormatAction::RejectFormat { format }
        } else {
            FormatAction::OpenEncoder { width, height }
        },
        _ => FormatAction::Ignore,
    }
}

/// Decides what to do about an announced parameter: the encoder is opened
/// once, for the first BGRx format; later formats are ignored, since the
/// size of a source stays the same.
pub fn on_format_param(encoder_open: bool, param: FormatParam) -> (a: FormatAction)
    ensures
        a == spec_on_format_param(encoder_open, param),
{
    match param {
        FormatParam::Video { format, width, height } => {
            if encoder_open {
                FormatAction::Ignore
            } else if format != VideoFormat::Bgrx {
                FormatAction::RejectFormat { format }
            } else {
                FormatAction::OpenEncoder { width, height }
            }
        },
        _ => FormatAction::Ignore,
    }
}

/// Law: once an encoder is open, no announced parameter opens another.
pub proof fn lemma_encoder_opened_once(param: FormatParam)
    ensures
        !(spec_on_format_param(true, param) is OpenEncoder),
{
}

/// Law: an encoder is only ever opened for BGRx frames, and it is opened
/// with the negotiated size.
pub proof fn lemma_encoder_only_bgrx(encoder_open: bool, param: FormatParam)
    ensures
        spec_on_format_param(encoder_open, param) matches FormatAction::OpenEncoder {
            width,
            height,
        } ==> param == (FormatParam::Video { format: VideoFormat::Bgrx, width, height }),
{
}

/// An announced parameter together with whether opening the encoder
/// would succeed if it were opened then.
pub type ParamEvent = (FormatParam, bool);

/// The size the encoder was opened for after a sequence of announced
/// parameters, if it was opened: each parameter is decided as
/// `on_format_param` does, and an encoder whose opening fails is not kept.
pub open spec fn spec_encoder_after(events: Seq<ParamEvent>) -> Option<(u32, u32)>
    decreases events.len(),
{
    if events.len() == 0 {
        None
    } else {
        let prev = spec_encoder_after(events.drop_last());
        let (param, opens) = events.last();
        match spec_on_format_param(prev is Some, param) {
            FormatAction::OpenEncoder { width, height } => if opens {
                Some((width, height))
            } else {
                prev
            },
            _ => prev,
        }
    }
}

/// Whether the event is a BGRx video format whose encoder opens.
pub open spec fn spec_opens(e: ParamEvent) -> bool {
    &&& e.0 matches FormatParam::Video { format, .. } && format == VideoFormat::Bgrx
    &&& e.1
}

/// The size a video parameter announces.
pub open spec fn spec_param_size(p: FormatParam) -> (u32, u32) {
    match p {
        FormatParam::Video { width, height, .. } => (width, height),
        _ => (0, 0),
    }
}

/// Law: over any sequence of announced parameters, the encoder is opened
/// exactly once, for the first BGRx video format whose opening succeeds,
/// with that format's size; later parameters of any format or size never
/// replace it, and without such a parameter no encoder is open.
pub proof fn lemma_encoder_opened_at_first_bgrx(events: Seq<ParamEvent>)
    ensures
        (forall|i: int| 0 <= i < events.len() ==> !spec_opens(#[trigger] events[i]))
            ==> spec_encoder_after(events) is None,
        forall|j: int|
            0 <= j < events.len() && spec_opens(#[trigger] events[j]) && (forall|i: int|
                0 <= i < j ==> !spec_opens(events[i])) ==> spec_encoder_after(events) == Some(
                spec_param_size(events[j].0),
            ),
    decreases events.len(),
{
    if events.len() > 0 {
        let prev = events.drop_last();
        let last = events.len() - 1;
        lemma_encoder_opened_at_first_bgrx(prev);
        assert forall|i: int| 0 <= i < prev.len() implies prev[i] == events[i] by {}
        assert forall|j: int|
            0 <= j < events.len() && spec_opens(#[trigger] events[j]) && (forall|i: int|
                0 <= i < j ==> !spec_opens(events[i])) implies spec_encoder_after(events) == Some(
            spec_param_size(events[j].0),
        ) by {
            if j < last {
                assert(prev[j] == events[j]);
                assert(forall|i: int| 0 <= i < j ==> !spec_opens(#[trigger] prev[i]));
            } else {
                assert(forall|i: int| 0 <= i < prev.len() ==> !spec_opens(#[trigger] prev[i]));
            }
        }
        if forall|i: int| 0 <= i < events.len() ==> !spec_opens(#[trigger] events[i]) {
            assert(forall|i: int| 0 <= i < prev.len() ==> !spec_opens(#[trigger] prev[i]));
            assert(!spec_opens(events[last]));
        }
    }
}

/// How the H.264 encoder is configured.
#[derive(Debug, PartialEq, Eq)]
pub struct EncoderSettings {
    /// Name of the encoder.
    pub codec: &'static str,
    pub width: u32,
    pub height: u32,
    /// Time base as (numerator, denominator).
    pub time_base: (i32, i32),
    /// Frame rate as (numerator, denominator).
    pub frame_rate: (i32, i32),
    pub bit_rate: usize,
    pub max_bit_rate: usize,
    /// Frames between keyframes.
    pub gop: u32,
    pub max_b_frames: usize,
    /// Encoder-private options, as (key, value).
    pub options: Vec<(&'static str, &'static str)>,
}

/// Configures the low-latency constant-bitrate encoder for BGRx frames of
/// the given size, with the given bitrate as both target and maximum and
/// a keyframe every `gop` frames.
pub fn encoder_settings(width: u32, height: u32, bitrate: usize, gop: u32) -> (s: EncoderSettings)
    ensures
        s.codec@ == "h264_nvenc"@,
        s.width == width,
        s.height == height,
        s.time_base == (1i32, FRAME_RATE),
        s.frame_rate == (FRAME_RATE, 1i32),
        s.bit_rate == bitrate,
        s.max_bit_rate == bitrate,
        s.gop == gop,
        s.max_b_frames == 0,
        s.options@.len() == 4,
        s.options@[0].0@ == "preset"@ && s.options@[0].1@ == "p1"@,
        s.options@[1].0@ == "tune"@ && s.options@[1].1@ == "ull"@,
        s.options@[2].0@ == "rc"@ && s.options@[2].1@ == "cbr"@,
        s.options@[3].0@ == "zerolatency"@ && s.options@[3].1@ == "1"@,
{
    EncoderSettings {
        codec: "h264_nvenc",
        width,
        height,
        time_base: (1, FRAME_RATE),
        frame_rate: (FRAME_RATE, 1),
        bit_rate: bitrate,
        max_bit_rate: bitrate,
        gop,
        max_b_frames: 0,
        options: vec![("preset", "p1"), ("tune", "ull"), ("rc", "cbr"), ("zerolatency", "1")],
    }
}

/// One frame counted by `next_pts`: the timestamp is the count of frames
/// before it, the frame count goes up by one, and the packet counters stay.
pub open spec fn spec_pts_step(before: EncodeStats, after: EncodeStats, pts: i64) -> bool {
    &&& pts == before.frames_in as i64
    &&& after.frames_in == before.frames_in + 1
    &&& after.packets_out == before.packets_out
    &&& after.bytes_out == before.bytes_out
}

/// Law: from fresh counters, `k` frames counted one after the other get
/// the timestamps 0, 1, ..., k - 1 in order, and the frame count is then
/// `k`; `states[i]` are the counters before frame `i`.
pub proof fn lemma_pts_count_frames(states: Seq<EncodeStats>, pts: Seq<i64>)
    requires
        states.len() == pts.len() + 1,
        states[0].frames_in == 0,
        pts.len() <= i64::MAX,
        forall|i: int| 0 <= i < pts.len() ==> spec_pts_step(states[i], #[trigger] states[i + 1], pts[i]),
    ensures
        forall|i: int| 0 <= i < pts.len() ==> #[trigger] pts[i] == i,
        states.last().frames_in == pts.len(),
    decreases pts.len(),
{
    if pts.len() > 0 {
        let k = pts.len() - 1;
        let s2 = states.drop_last();
        let p2 = pts.drop_last();
        assert forall|i: int| 0 <= i < p2.len() implies spec_pts_step(s2[i], #[trigger] s2[i + 1], p2[i]) by {
            assert(spec_pts_step(states[i], states[i + 1], pts[i]));
        }
        lemma_pts_count_frames(s2, p2);
        assert(s2.last() == states[k]);
        assert(spec_pts_step(states[k], states[k + 1], pts[k]));
        assert forall|i: int| 0 <= i < pts.len() implies #[trigger] pts[i] == i by {
            if i < k {
                assert(p2[i] == pts[i]);
            }
        }
    }
}

/// Counters of a running encoder.
#[derive(Clone, Copy, Debug, PartialEq, Eq, Structural)]
pub struct EncodeStats {
    /// Frames sent to the encoder.
    pub frames_in: u64,
    /// Packets taken from the encoder.
    pub packets_out: u64,
    /// Payload bytes of those packets.
    pub bytes_out: u64,
}

impl EncodeStats {
    /// All counters at zero.
    pub fn new() -> (s: EncodeStats)
        ensures
            s == (EncodeStats { frames_in: 0, packets_out: 0, bytes_out: 0 }),
    {
        EncodeStats { frames_in: 0, packets_out: 0, bytes_out: 0 }
    }

    /// Counts a frame going into the encoder and returns its presentation
    /// timestamp, in units of the time base: the number of frames before it.
    pub fn next_pts(&mut self) -> (pts: i64)
        requires
            old(self).frames_in < u64::MAX,
        ensures
            spec_pts_step(*old(self), *final(self), pts),
    {
        let pts = self.frames_in as i64;
        self.frames_in = self.frames_in + 1;
        pts
    }

    /// Counts a packet sent to the stream; returns whether a progress line
    /// is due, which is every `PROGRESS_INTERVAL` packets.
    pub fn record_streamed_packet(&mut self) -> (progress: bool)
        requires
            old(self).packets_out < u64::MAX,
        ensures
            final(self).packets_out == old(self).packets_out + 1,
            final(self).frames_in == old(self).frames_in,
            final(self).bytes_out == old(self).bytes_out,
            progress == (final(self).packets_out % PROGRESS_INTERVAL == 0),
    {
        self.packets_out = self.packets_out + 1;
        self.packets_out % PROGRESS_INTERVAL == 0
    }

    /// Counts a packet of `len` bytes written to the output file.
    pub fn record_written_packet(&mut self, len: usize)
        requires
            old(self).packets_out < u64::MAX,
            old(self).bytes_out + len <= u64::MAX,
        ensures
            final(self).packets_out == old(self).packets_out + 1,
            final(self).bytes_out == old(self).bytes_out + len,
            final(self).frames_in == old(self).frames_in,
    {
        self.packets_out = self.packets_out + 1;
        self.bytes_out = self.bytes_out + len as u64;
    }
}

} // verus!
