use vstd::prelude::*;

verus! {

/// The kind of elementary stream a sample belongs to.
#[derive(Clone, Copy, Debug, PartialEq, Eq, Structural)]
pub enum MediaKind {
    Video,
    Audio,
}

/// The state of a render pipeline.
#[derive(Clone, Copy, Debug, PartialEq, Eq, Structural)]
pub enum PipelineState {
    Null,
    Playing,
    Paused,
}

/// One encoded media unit together with the kind of stream it belongs to.
#[derive(Debug)]
pub struct SampleBuffer {
    pub kind: MediaKind,
    pub data: Vec<u8>,
}

/// Number of samples a bridge buffers unless told otherwise.
pub const DEFAULT_BRIDGE_CAPACITY: usize = 100;

/// Number of commands the control queue buffers.
pub const COMMAND_QUEUE_CAPACITY: usize = 100;

/// Encoder deadline, in microseconds per frame, of the video chain.
pub const VIDEO_DEADLINE: i64 = 1;

/// Target bitrate, in bits per second, of the video chain.
pub const VIDEO_TARGET_BITRATE: i32 = 102_400_000;

/// The elements that turn raw frames of one kind into packetized samples.
#[derive(Debug)]
pub struct SinkPlan {
    pub kind: MediaKind,
    /// Factory name of the encoder element.
    pub encoder: &'static str,
    /// Factory name of the payloader element.
    pub payloader: &'static str,
    /// Value of the encoder's `deadline` property, where it has one.
    pub deadline: Option<i64>,
    /// Value of the encoder's `target-bitrate` property, where it has one.
    pub target_bitrate: Option<i32>,
}

/// The identity of one outbound track.
#[derive(Debug)]
pub struct TrackPlan {
    pub kind: MediaKind,
    pub mime_type: &'static str,
    pub id: &'static str,
    pub stream_id: &'static str,
}

pub open spec fn encoder_name(kind: MediaKind) -> Seq<char> {
    match kind {
        MediaKind::Video => "vp8enc"@,
        MediaKind::Audio => "opusenc"@,
    }
}

pub open spec fn payloader_name(kind: MediaKind) -> Seq<char> {
    match kind {
        MediaKind::Video => "rtpvp8pay"@,
        MediaKind::Audio => "rtpopuspay"@,
    }
}

pub open spec fn mime_type_of(kind: MediaKind) -> Seq<char> {
    match kind {
        MediaKind::Video => "video/VP8"@,
        MediaKind::Audio => "audio/opus"@,
    }
}

pub open spec fn track_id_of(kind: MediaKind) -> Seq<char> {
    match kind {
        MediaKind::Video => "video"@,
        MediaKind::Audio => "audio"@,
    }
}

/// The encode chain for `kind`: VP8 with a one-microsecond deadline and a
/// fixed target bitrate for video, Opus with its defaults for audio.
pub fn sink_plan(kind: MediaKind) -> (plan: SinkPlan)
    ensures
        plan.kind == kind,
        plan.encoder@ == encoder_name(kind),
        plan.payloader@ == payloader_name(kind),
        plan.deadline == (if kind == MediaKind::Video { Some(VIDEO_DEADLINE) } else { None }),
        plan.target_bitrate == (if kind == MediaKind::Video {
            Some(VIDEO_TARGET_BITRATE)
        } else {
            None
        }),
{
    match kind {
        MediaKind::Video => SinkPlan {
            kind,
            encoder: "vp8enc",
            payloader: "rtpvp8pay",
            deadline: Some(VIDEO_DEADLINE),
            target_bitrate: Some(VIDEO_TARGET_BITRATE),
        },
        MediaKind::Audio => SinkPlan {
            kind,
            encoder: "opusenc",
            payloader: "rtpopuspay",
            deadline: None,
            target_bitrate: None,
        },
    }
}

/// The outbound track for `kind`. Both tracks belong to one stream.
pub fn track_plan(kind: MediaKind) -> (plan: TrackPlan)
    ensures
        plan.kind == kind,
        plan.mime_type@ == mime_type_of(kind),
        plan.id@ == track_id_of(kind),
        plan.stream_id@ == "webrtc-rs"@,
{
    match kind {
        MediaKind::Video => TrackPlan {
            kind,
            mime_type: "video/VP8",
            id: "video",
            stream_id: "webrtc-rs",
        },
        MediaKind::Audio => TrackPlan {
            kind,
            mime_type: "audio/opus",
            id: "audio",
            stream_id: "webrtc-rs",
        },
    }
}

/// The STUN server every session offers for candidate gathering.
pub fn ice_server_url() -> (url: &'static str)
    ensures
        url@ == "stun:stun.l.google.com:19302"@,
{
    "stun:stun.l.google.com:19302"
}

} // verus!
