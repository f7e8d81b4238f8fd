//! The bounded hand-off channel between the capture side and the render
//! loop. Neither end ever waits: a send into a full channel gives the frame
//! back, a receive from an empty one reports that at once. Frames leave in
//! the order in which they were accepted.

use crate::frame::VideoFrame;
use std::collections::VecDeque;
use vstd::prelude::*;

verus! {

/// Why a frame was not accepted. The frame is handed back in either case.
#[derive(Debug, PartialEq, Eq)]
pub enum TrySendError {
    /// The channel holds as many frames as its capacity allows.
    Full(VideoFrame),
    /// One of the two ends has been closed.
    Disconnected(VideoFrame),
}

/// Why no frame was received.
#[derive(Clone, Copy, Debug, PartialEq, Eq, Structural)]
pub enum TryRecvError {
    /// Nothing is queued, and the producer may still send.
    Empty,
    /// Nothing is queued and nothing will be: an end has been closed.
    Disconnected,
}

/// The channel as a mathematical value: the frames in flight, oldest first,
/// the bound on their number, and which ends are still open.
pub struct ChannelState {
    pub queue: Seq<VideoFrame>,
    pub capacity: nat,
    pub sender_connected: bool,
    pub receiver_connected: bool,
}

impl ChannelState {
    /// An empty channel with both ends open.
    pub open spec fn new(capacity: nat) -> ChannelState {
        ChannelState {
            queue: Seq::empty(),
            capacity,
            sender_connected: true,
            receiver_connected: true,
        }
    }

    /// Never more frames in flight than the capacity, and none once the
    /// receiving end is closed.
    pub open spec fn wf(self) -> bool {
        &&& self.queue.len() <= self.capacity
        &&& !self.receiver_connected ==> self.queue.len() == 0
    }

    pub open spec fn connected(self) -> bool {
        self.sender_connected && self.receiver_connected
    }

    pub open spec fn is_full(self) -> bool {
        self.queue.len() >= self.capacity
    }

    /// Whether a send would be accepted.
    pub open spec fn accepts(self) -> bool {
        self.connected() && !self.is_full()
    }

    /// What a send of `frame` reports.
    pub open spec fn send_result(self, frame: VideoFrame) -> Result<(), TrySendError> {
        if !self.connected() {
            Err(TrySendError::Disconnected(frame))
        } else if self.is_full() {
            Err(TrySendError::Full(frame))
        } else {
            Ok(())
        }
    }

    /// The channel after a send of `frame`: the frame is appended when it is
    /// accepted, and nothing changes when it is not.
    pub open spec fn after_send(self, frame: VideoFrame) -> ChannelState {
        if self.accepts() {
            ChannelState { queue: self.queue.push(frame), ..self }
        } else {
            self
        }
    }

    /// Whether a receive would hand out a frame.
    pub open spec fn delivers(self) -> bool {
        self.receiver_connected && self.queue.len() > 0
    }

    /// What a receive reports: the oldest frame in flight if there is one;
    /// otherwise `Disconnected` if an end is closed, and `Empty` if not.
    pub open spec fn recv_result(self) -> Result<VideoFrame, TryRecvError> {
        if self.delivers() {
            Ok(self.queue[0])
        } else if !self.connected() {
            Err(TryRecvError::Disconnected)
        } else {
            Err(TryRecvError::Empty)
        }
    }

    /// The channel after a receive: without its oldest frame if one was
    /// handed out.
    pub open spec fn after_recv(self) -> ChannelState {
        if self.delivers() {
            ChannelState { queue: self.queue.drop_first(), ..self }
        } else {
            self
        }
    }

    /// The channel after the producer has gone. Frames in flight stay.
    pub open spec fn close_sender(self) -> ChannelState {
        ChannelState { sender_connected: false, ..self }
    }

    /// The channel after the consumer has gone. Frames in flight are
    /// discarded: nobody is left to receive them.
    pub open spec fn close_receiver(self) -> ChannelState {
        ChannelState { queue: Seq::empty(), receiver_connected: false, ..self }
    }
}

/// A bounded first-in first-out queue of frames with a sending and a
/// receiving end, each of which can be closed.
pub struct FrameChannel {
    queue: VecDeque<VideoFrame>,
    capacity: usize,
    sender_connected: bool,
    receiver_connected: bool,
}

impl View for FrameChannel {
    type V = ChannelState;

    closed spec fn view(&self) -> ChannelState {
        ChannelState {
            queue: self.queue@,
            capacity: self.capacity as nat,
            sender_connected: self.sender_connected,
            receiver_connected: self.receiver_connected,
        }
    }
}

impl FrameChannel {
    #[verifier::type_invariant]
    spec fn inv(&self) -> bool {
        self@.wf()
    }

    /// Moves the queue out and leaves an empty one, so that it can be
    /// changed while the channel itself stays well formed.
    fn take_queue(&mut self) -> (queue: VecDeque<VideoFrame>)
        ensures
            queue@ == old(self)@.queue,
            final(self)@ == (ChannelState { queue: Seq::empty(), ..old(self)@ }),
    {
        let mut queue = VecDeque::new();
        std::mem::swap(&mut queue, &mut self.queue);
        queue
    }

    /// An empty channel that holds at most `capacity` frames.
    pub fn new(capacity: usize) -> (channel: FrameChannel)
        ensures
            channel@ == ChannelState::new(capacity as nat),
    {
        FrameChannel {
            queue: VecDeque::new(),
            capacity,
            sender_connected: true,
            receiver_connected: true,
        }
    }

    /// Offers `frame` to the channel without waiting. A full or
    /// disconnected channel hands the frame back and keeps what it held, in
    /// order.
    pub fn try_send(&mut self, frame: VideoFrame) -> (result: Result<(), TrySendError>)
        ensures
            result == old(self)@.send_result(frame),
            final(self)@ == old(self)@.after_send(frame),
    {
        proof {
            use_type_invariant(&*self);
        }
        if !self.sender_connected || !self.receiver_connected {
            Err(TrySendError::Disconnected(frame))
        } else if self.queue.len() >= self.capacity {
            Err(TrySendError::Full(frame))
        } else {
            let mut queue = self.take_queue();
            queue.push_back(frame);
            self.queue = queue;
            Ok(())
        }
    }

    /// Takes the oldest frame in flight without waiting.
    pub fn try_recv(&mut self) -> (result: Result<VideoFrame, TryRecvError>)
        ensures
            result == old(self)@.recv_result(),
            final(self)@ == old(self)@.after_recv(),
    {
        proof {
            use_type_invariant(&*self);
        }
        let mut queue = self.take_queue();
        let oldest = queue.pop_front();
        self.queue = queue;
        match oldest {
            Some(frame) => Ok(frame),
            None => {
                if self.sender_connected && self.receiver_connected {
                    Err(TryRecvError::Empty)
                } else {
                    Err(TryRecvError::Disconnected)
                }
            },
        }
    }

    /// Closes the sending end: once the frames in flight are received, the
    /// consumer is told that the channel is disconnected.
    pub fn close_sender(&mut self)
        ensures
            final(self)@ == old(self)@.close_sender(),
    {
        proof {
            use_type_invariant(&*self);
        }
        self.sender_connected = false;
    }

    /// Closes the receiving end and discards the frames in flight: every
    /// later send reports that the channel is disconnected.
    pub fn close_receiver(&mut self)
        ensures
            final(self)@ == old(self)@.close_receiver(),
    {
        self.queue = VecDeque::new();
        self.receiver_connected = false;
    }

    /// The number of frames in flight, which never exceeds the capacity.
    pub fn len(&self) -> (n: usize)
        ensures
            n == self@.queue.len(),
            n <= self@.capacity,
    {
        proof {
            use_type_invariant(self);
        }
        self.queue.len()
    }

    pub fn capacity(&self) -> (k: usize)
        ensures
            k == self@.capacity,
    {
        self.capacity
    }
}

} // verus!
