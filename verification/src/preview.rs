use vstd::prelude::*;

use crate::media::{encoder_name, payloader_name, MediaKind, SinkPlan, VIDEO_DEADLINE};

verus! {

/// Target bitrate, in bits per second, of a preview's video chain.
pub const PREVIEW_TARGET_BITRATE: i32 = 10_240_000;

/// The encode chain of a preview: the video chain of a render slot at a
/// tenth of its bitrate.
pub fn preview_sink_plan() -> (plan: SinkPlan)
    ensures
        plan.kind == MediaKind::Video,
        plan.encoder@ == encoder_name(MediaKind::Video),
        plan.payloader@ == payloader_name(MediaKind::Video),
        plan.deadline == Some(VIDEO_DEADLINE),
        plan.target_bitrate == Some(PREVIEW_TARGET_BITRATE),
{
    SinkPlan {
        kind: MediaKind::Video,
        encoder: "vp8enc",
        payloader: "rtpvp8pay",
        deadline: Some(VIDEO_DEADLINE),
        target_bitrate: Some(PREVIEW_TARGET_BITRATE),
    }
}

/// What the bus of a playing pipeline reports.
#[derive(Clone, Copy, Debug, PartialEq, Eq, Structural)]
pub enum BusMessage {
    /// The end of the stream was reached.
    Eos,
    /// An element failed.
    Error,
    /// Anything else.
    Other,
}

/// Whether a preview stops watching the bus after `message`: it does at the
/// end of the stream and at the first error.
pub fn ends_playback(message: BusMessage) -> (ends: bool)
    ensures
        ends == (message == BusMessage::Eos || message == BusMessage::Error),
{
    match message {
        BusMessage::Eos | BusMessage::Error => true,
        BusMessage::Other => false,
    }
}

/// Runs `main` on the calling thread and hands back what it returns.
pub fn run<T, F: FnOnce() -> T + Send + 'static>(main: F) -> (result: T) where T: Send + 'static
    requires
        main.requires(()),
    ensures
        main.ensures((), result),
{
    main()
}

} // verus!
