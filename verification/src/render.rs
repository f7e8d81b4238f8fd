//! The render loop as a state machine. It decides; whoever owns the window
//! and the graphics device carries out what it decides and reports back.
//!
//! Uploading a frame and presenting are both allowed in one state only,
//! `Rendering`, so that nothing is written or presented while the surface
//! is being reconfigured.

use crate::channel::{ChannelState, FrameChannel, TryRecvError};
use crate::frame::{Extent, VideoFrame};
use vstd::prelude::*;

verus! {

#[derive(Clone, Copy, Debug, PartialEq, Eq, Structural)]
pub enum RenderState {
    /// Not ready to draw: the surface has been reconfigured and no redraw
    /// has confirmed it yet.
    Idle,
    /// The surface is configured: frames are uploaded and presented.
    Rendering,
    /// The next presentable texture could not be acquired. Drawing is
    /// suspended as in `Idle`.
    SurfaceLost,
    /// The loop has ended. No event changes this.
    Terminated,
}

/// What the loop reacts to.
#[derive(Clone, Copy, Debug, PartialEq, Eq, Structural)]
pub enum Event {
    /// The window has a new size in pixels.
    Resize(Extent),
    /// The user asked to close the window.
    CloseRequest,
    /// The window system is ready for a redraw.
    RedrawReady,
    /// The periodic tick of the event source.
    PollTick,
    /// Answer to a `present` directive: the next presentable texture could
    /// not be acquired.
    AcquireFailed,
}

/// A frame to be written into the video texture, with the layout of the
/// write: the whole texture, one row of the frame per row of the texture.
#[derive(Debug, PartialEq, Eq)]
pub struct Upload {
    pub frame: VideoFrame,
    /// The region written: the full texture.
    pub region: Extent,
    /// Bytes from the start of one row to the start of the next.
    pub bytes_per_row: u32,
    /// Number of rows.
    pub rows: u32,
}

/// What is to be done after an event, in the order of the fields.
#[derive(Debug, PartialEq, Eq)]
pub struct Actions {
    /// Reconfigure the surface to this size and request a redraw.
    pub reconfigure: Option<Extent>,
    /// Write this frame into the video texture.
    pub upload: Option<Upload>,
    /// Acquire the next presentable texture of the surface, which has this
    /// size, draw into it and present it. If it cannot be acquired, answer
    /// with `Event::AcquireFailed`.
    pub present: Option<Extent>,
    /// Leave the event loop and release the graphics resources.
    pub exit: bool,
}

impl Actions {
    /// Nothing to do.
    pub open spec fn none() -> Actions {
        Actions { reconfigure: None, upload: None, present: None, exit: false }
    }

    /// Neither an upload nor a present.
    pub open spec fn is_quiet(self) -> bool {
        self.upload is None && self.present is None
    }
}

/// The loop as a mathematical value.
pub struct RenderModel {
    pub state: RenderState,
    /// Size of the surface as last configured.
    pub surface: Extent,
    /// Size of the video texture, which is the negotiated frame size.
    pub video: Extent,
}

/// The loop, the channel and the directive after one event.
pub struct Outcome {
    pub render: RenderModel,
    pub channel: ChannelState,
    pub actions: Actions,
}

impl RenderModel {
    /// A loop whose surface has just been configured.
    pub open spec fn new(surface: Extent, video: Extent) -> RenderModel {
        RenderModel { state: RenderState::Rendering, surface, video }
    }

    pub open spec fn is_rendering(self) -> bool {
        self.state == RenderState::Rendering
    }

    pub open spec fn with_state(self, state: RenderState) -> RenderModel {
        RenderModel { state, ..self }
    }

    /// The upload of `frame`: the full texture, a row of the frame per row.
    pub open spec fn upload_of(self, frame: VideoFrame) -> Upload {
        Upload {
            frame,
            region: self.video,
            bytes_per_row: self.video.width,
            rows: self.video.height,
        }
    }

    /// The directive of a tick on which `frame` was received, if any: upload
    /// it, then present, while rendering; nothing otherwise.
    pub open spec fn draw(self, frame: Option<VideoFrame>) -> Actions {
        if self.is_rendering() {
            Actions {
                reconfigure: None,
                upload: match frame {
                    Some(f) => Some(self.upload_of(f)),
                    None => None,
                },
                present: Some(self.surface),
                exit: false,
            }
        } else {
            Actions::none()
        }
    }

    /// The end of the loop: the receiving end of the channel is closed with
    /// it.
    pub open spec fn terminate(self, channel: ChannelState) -> Outcome {
        Outcome {
            render: self.with_state(RenderState::Terminated),
            channel: channel.close_receiver(),
            actions: Actions { reconfigure: None, upload: None, present: None, exit: true },
        }
    }

    /// One tick: at most one frame is taken from the channel. A frame that
    /// arrives while the loop is not rendering is discarded. A disconnected
    /// channel ends the loop.
    pub open spec fn poll(self, channel: ChannelState) -> Outcome {
        match channel.recv_result() {
            Ok(frame) => Outcome {
                render: self,
                channel: channel.after_recv(),
                actions: self.draw(Some(frame)),
            },
            Err(TryRecvError::Empty) => Outcome {
                render: self,
                channel,
                actions: self.draw(None),
            },
            Err(TryRecvError::Disconnected) => self.terminate(channel),
        }
    }

    /// The transition function.
    pub open spec fn handle(self, channel: ChannelState, event: Event) -> Outcome {
        if self.state == RenderState::Terminated {
            Outcome { render: self, channel, actions: Actions::none() }
        } else {
            match event {
                Event::Resize(size) => Outcome {
                    render: RenderModel { state: RenderState::Idle, surface: size, ..self },
                    channel,
                    actions: Actions {
                        reconfigure: Some(size),
                        upload: None,
                        present: None,
                        exit: false,
                    },
                },
                Event::CloseRequest => self.terminate(channel),
                Event::RedrawReady => Outcome {
                    render: self.with_state(RenderState::Rendering),
                    channel,
                    actions: Actions::none(),
                },
                Event::PollTick => self.poll(channel),
                Event::AcquireFailed => Outcome {
                    render: if self.is_rendering() {
                        self.with_state(RenderState::SurfaceLost)
                    } else {
                        self
                    },
                    channel,
                    actions: Actions::none(),
                },
            }
        }
    }
}

/// The render loop: its state, the size of the surface and the size of the
/// video texture.
pub struct RenderLoop {
    state: RenderState,
    surface: Extent,
    video: Extent,
}

impl View for RenderLoop {
    type V = RenderModel;

    closed spec fn view(&self) -> RenderModel {
        RenderModel { state: self.state, surface: self.surface, video: self.video }
    }
}

impl RenderLoop {
    /// A loop for a surface that has just been configured with size
    /// `surface`, and a video texture of size `video`. It starts out
    /// rendering.
    pub fn new(surface: Extent, video: Extent) -> (render: RenderLoop)
        ensures
            render@ == RenderModel::new(surface, video),
    {
        RenderLoop { state: RenderState::Rendering, surface, video }
    }

    pub fn state(&self) -> (state: RenderState)
        ensures
            state == self@.state,
    {
        self.state
    }

    /// Size of the surface as last configured.
    pub fn surface(&self) -> (size: Extent)
        ensures
            size == self@.surface,
    {
        self.surface
    }

    /// Size of the video texture.
    pub fn video(&self) -> (size: Extent)
        ensures
            size == self@.video,
    {
        self.video
    }

    /// Whether uploads and presents are allowed.
    pub fn is_rendering(&self) -> (b: bool)
        ensures
            b == self@.is_rendering(),
    {
        match self.state {
            RenderState::Rendering => true,
            _ => false,
        }
    }

    fn no_actions() -> (actions: Actions)
        ensures
            actions == Actions::none(),
    {
        Actions { reconfigure: None, upload: None, present: None, exit: false }
    }

    fn draw(&self, frame: Option<VideoFrame>) -> (actions: Actions)
        ensures
            actions == self@.draw(frame),
    {
        if self.is_rendering() {
            let upload = match frame {
                Some(f) => Some(
                    Upload {
                        frame: f,
                        region: self.video,
                        bytes_per_row: self.video.width,
                        rows: self.video.height,
                    },
                ),
                None => None,
            };
            Actions { reconfigure: None, upload, present: Some(self.surface), exit: false }
        } else {
            Self::no_actions()
        }
    }

    fn terminate(&mut self, channel: &mut FrameChannel) -> (actions: Actions)
        ensures
            (Outcome { render: final(self)@, channel: final(channel)@, actions }) == old(
                self,
            )@.terminate(old(channel)@),
    {
        self.state = RenderState::Terminated;
        channel.close_receiver();
        Actions { reconfigure: None, upload: None, present: None, exit: true }
    }

    fn poll(&mut self, channel: &mut FrameChannel) -> (actions: Actions)
        ensures
            (Outcome { render: final(self)@, channel: final(channel)@, actions }) == old(
                self,
            )@.poll(old(channel)@),
    {
        match channel.try_recv() {
            Ok(frame) => self.draw(Some(frame)),
            Err(TryRecvError::Empty) => self.draw(None),
            Err(TryRecvError::Disconnected) => self.terminate(channel),
        }
    }

    /// Reacts to one event. On a tick the loop takes at most one frame from
    /// `channel`; when it ends it closes the receiving end.
    pub fn handle(&mut self, event: Event, channel: &mut FrameChannel) -> (actions: Actions)
        ensures
            (Outcome { render: final(self)@, channel: final(channel)@, actions }) == old(
                self,
            )@.handle(old(channel)@, event),
    {
        if let RenderState::Terminated = self.state {
            return Self::no_actions();
        }
        match event {
            Event::Resize(size) => {
                self.state = RenderState::Idle;
                self.surface = size;
                Actions { reconfigure: Some(size), upload: None, present: None, exit: false }
            },
            Event::CloseRequest => self.terminate(channel),
            Event::RedrawReady => {
                self.state = RenderState::Rendering;
                Self::no_actions()
            },
            Event::PollTick => self.poll(channel),
            Event::AcquireFailed => {
                if self.is_rendering() {
                    self.state = RenderState::SurfaceLost;
                }
                Self::no_actions()
            },
        }
    }
}

} // verus!
