//! A real-time frame pipeline: a capture side that stamps and forwards camera
//! frames, a bounded hand-off channel that drops rather than blocks, and the
//! render-loop state machine that decides when a frame may be uploaded and
//! presented.

pub mod capture;
pub mod channel;
pub mod frame;
pub mod history;
pub mod order;
pub mod pipeline;
pub mod render;
