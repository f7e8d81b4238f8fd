//! Frames, the metadata that travels with them, and the negotiated device
//! configuration.

use vstd::prelude::*;
use vstd::slice::slice_to_vec;

verus! {

/// Number of microseconds in one second.
pub const MICROS_PER_SECOND: i128 = 1_000_000;

/// The capture time of a frame, as the driver reports it: whole seconds and
/// a microsecond part.
#[derive(Clone, Copy, Debug, PartialEq, Eq, Structural)]
pub struct Timestamp {
    pub sec: i64,
    pub usec: i64,
}

impl Timestamp {
    /// The instant in microseconds: `sec * 1_000_000 + usec`.
    pub open spec fn micros(self) -> int {
        self.sec * 1_000_000 + self.usec
    }

    pub fn new(sec: i64, usec: i64) -> (t: Timestamp)
        ensures
            t.sec == sec,
            t.usec == usec,
    {
        Timestamp { sec, usec }
    }

    /// The instant in microseconds. Seconds are this value divided by one
    /// million; the wide result type leaves no input out.
    pub fn total_micros(&self) -> (m: i128)
        ensures
            m == self.micros(),
    {
        let sec: i128 = self.sec as i128;
        let usec: i128 = self.usec as i128;
        sec * MICROS_PER_SECOND + usec
    }
}

/// What the capture stream reports beside the bytes of a frame.
#[derive(Clone, Copy, Debug, PartialEq, Eq, Structural)]
pub struct CaptureMetadata {
    /// The driver's frame counter.
    pub sequence: u32,
    /// Time of capture.
    pub timestamp: Timestamp,
}

/// One captured image: an owned copy of the driver's buffer with its
/// sequence number and capture time. One byte per pixel.
#[derive(Clone, Debug, PartialEq, Eq)]
pub struct VideoFrame {
    pub sequence: u32,
    pub timestamp: Timestamp,
    pub data: Vec<u8>,
}

/// The mathematical content of a [`VideoFrame`].
pub struct FrameView {
    pub sequence: u32,
    pub timestamp: Timestamp,
    pub data: Seq<u8>,
}

impl View for VideoFrame {
    type V = FrameView;

    open spec fn view(&self) -> FrameView {
        FrameView { sequence: self.sequence, timestamp: self.timestamp, data: self.data@ }
    }
}

/// What a frame made of the bytes `raw` and of `metadata` holds.
pub open spec fn captured_frame(raw: Seq<u8>, metadata: CaptureMetadata) -> FrameView {
    FrameView { sequence: metadata.sequence, timestamp: metadata.timestamp, data: raw }
}

impl VideoFrame {
    /// Builds a frame from a raw buffer and its metadata. The bytes are
    /// copied: the buffer belongs to the driver, which reuses it.
    pub fn from_capture(raw: &[u8], metadata: &CaptureMetadata) -> (frame: VideoFrame)
        ensures
            frame@ == captured_frame(raw@, *metadata),
    {
        VideoFrame {
            sequence: metadata.sequence,
            timestamp: metadata.timestamp,
            data: slice_to_vec(raw),
        }
    }

    /// Whether the frame holds exactly one byte for each pixel of `size`.
    pub fn covers(&self, size: &Extent) -> (b: bool)
        ensures
            b == (self.data@.len() == size.area()),
    {
        self.data.len() as u128 == size.pixel_count() as u128
    }
}

/// A width and a height in pixels.
#[derive(Clone, Copy, Debug, PartialEq, Eq, Structural)]
pub struct Extent {
    pub width: u32,
    pub height: u32,
}

impl Extent {
    /// The number of pixels: `width * height`.
    pub open spec fn area(self) -> nat {
        (self.width * self.height) as nat
    }

    pub fn new(width: u32, height: u32) -> (e: Extent)
        ensures
            e.width == width,
            e.height == height,
    {
        Extent { width, height }
    }

    /// The number of pixels, which is also the number of bytes of a frame
    /// of this size.
    pub fn pixel_count(&self) -> (n: u64)
        ensures
            n == self.area(),
    {
        assert(self.width * self.height <= 0xffff_ffff * 0xffff_ffff) by (nonlinear_arith)
            requires
                0 <= self.width <= 0xffff_ffff,
                0 <= self.height <= 0xffff_ffff,
        ;
        self.width as u64 * self.height as u64
    }
}

/// A rational number of seconds, such as 1/120.
#[derive(Clone, Copy, Debug, PartialEq, Eq, Structural)]
pub struct Fraction {
    pub numerator: u32,
    pub denominator: u32,
}

/// What was negotiated with the camera before capture starts. It does not
/// change while the capture side runs.
#[derive(Clone, Copy, Debug, PartialEq, Eq, Structural)]
pub struct DeviceConfig {
    /// Desired time per frame.
    pub interval: Fraction,
    /// Capability flags, as the driver encodes them.
    pub capabilities: u32,
    /// Negotiated frame size.
    pub frame_size: Extent,
}

} // verus!
