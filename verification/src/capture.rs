//! The capture side: what is done with each buffer that the camera hands
//! out. A frame is built from it and offered to the channel; the capture
//! side never waits for the render loop, and stops when the loop is gone.

use crate::channel::{ChannelState, FrameChannel, TrySendError};
use crate::frame::{captured_frame, CaptureMetadata, VideoFrame};
use vstd::prelude::*;

verus! {

/// What became of a frame, and with it what the capture side does next.
#[derive(Clone, Copy, Debug, PartialEq, Eq, Structural)]
pub enum CaptureStep {
    /// The frame is in the channel. Go on.
    Sent,
    /// The channel was full and the frame is gone. Report it and go on.
    Dropped,
    /// The channel is disconnected. Stop capturing.
    Stop,
}

impl CaptureStep {
    /// Whether the capture side goes on to the next frame.
    pub open spec fn continues(self) -> bool {
        self != CaptureStep::Stop
    }

    pub fn keeps_running(&self) -> (b: bool)
        ensures
            b == self.continues(),
    {
        match self {
            CaptureStep::Stop => false,
            _ => true,
        }
    }
}

/// What offering a frame to `channel` comes to. It does not depend on the
/// frame.
pub open spec fn step_for(channel: ChannelState) -> CaptureStep {
    if !channel.connected() {
        CaptureStep::Stop
    } else if channel.is_full() {
        CaptureStep::Dropped
    } else {
        CaptureStep::Sent
    }
}

/// Offers `frame` to the channel without waiting. A frame that the channel
/// does not accept is dropped: the camera is never held back.
pub fn forward(channel: &mut FrameChannel, frame: VideoFrame) -> (step: CaptureStep)
    ensures
        step == step_for(old(channel)@),
        final(channel)@ == old(channel)@.after_send(frame),
{
    match channel.try_send(frame) {
        Ok(()) => CaptureStep::Sent,
        Err(TrySendError::Full(_)) => CaptureStep::Dropped,
        Err(TrySendError::Disconnected(_)) => CaptureStep::Stop,
    }
}

/// One turn of the capture loop, for a buffer that the stream has handed
/// out: copies the bytes into a frame of its own, stamps it with the
/// metadata and offers it to the channel. An accepted frame is the newest
/// in flight; a frame that is not accepted leaves the channel as it was.
pub fn capture_step(channel: &mut FrameChannel, raw: &[u8], metadata: &CaptureMetadata) -> (step:
    CaptureStep)
    ensures
        step == step_for(old(channel)@),
        step != CaptureStep::Sent ==> final(channel)@ == old(channel)@,
        step == CaptureStep::Sent ==> {
            &&& final(channel)@.queue.len() == old(channel)@.queue.len() + 1
            &&& final(channel)@.queue.last()@ == captured_frame(raw@, *metadata)
            &&& final(channel)@ == old(channel)@.after_send(final(channel)@.queue.last())
        },
{
    let frame = VideoFrame::from_capture(raw, metadata);
    forward(channel, frame)
}

} // verus!
