//! What holds of a channel over any sequence of operations on it: the bound
//! on the frames in flight, the order of delivery, what a burst loses, and
//! what closing an end does.

use crate::channel::{ChannelState, TryRecvError, TrySendError};
use crate::frame::VideoFrame;
use crate::order::{
    embeds,
    is_subsequence,
    lemma_embeds_longer,
    lemma_embeds_nothing,
    lemma_embeds_push,
    lemma_embeds_take,
    lemma_selection_keeps_order,
    non_decreasing,
    strictly_increasing,
};
use vstd::prelude::*;

verus! {

/// One operation on a channel.
pub enum ChannelOp {
    /// The producer offers a frame.
    Send(VideoFrame),
    /// The consumer asks for a frame.
    Recv,
    /// The producer goes away.
    CloseSender,
    /// The consumer goes away.
    CloseReceiver,
}

/// A channel together with a record of what has passed through it.
pub struct History {
    pub channel: ChannelState,
    /// Every frame that was offered, in the order of the offers.
    pub offered: Seq<VideoFrame>,
    /// The frames that were refused because the channel was full.
    pub dropped: Seq<VideoFrame>,
    /// The frames that were handed to the consumer, in the order received.
    pub delivered: Seq<VideoFrame>,
}

impl History {
    /// A new channel, through which nothing has passed.
    pub open spec fn start(capacity: nat) -> History {
        History {
            channel: ChannelState::new(capacity),
            offered: Seq::empty(),
            dropped: Seq::empty(),
            delivered: Seq::empty(),
        }
    }

    pub open spec fn step(self, op: ChannelOp) -> History {
        match op {
            ChannelOp::Send(frame) => History {
                channel: self.channel.after_send(frame),
                offered: self.offered.push(frame),
                dropped: if self.channel.connected() && self.channel.is_full() {
                    self.dropped.push(frame)
                } else {
                    self.dropped
                },
                delivered: self.delivered,
            },
            ChannelOp::Recv => History {
                channel: self.channel.after_recv(),
                delivered: if self.channel.delivers() {
                    self.delivered.push(self.channel.queue[0])
                } else {
                    self.delivered
                },
                ..self
            },
            ChannelOp::CloseSender => History { channel: self.channel.close_sender(), ..self },
            ChannelOp::CloseReceiver => History { channel: self.channel.close_receiver(), ..self },
        }
    }

    /// The history after the operations `ops`, first to last.
    pub open spec fn run(self, ops: Seq<ChannelOp>) -> History
        decreases ops.len(),
    {
        if ops.len() == 0 {
            self
        } else {
            self.run(ops.drop_last()).step(ops.last())
        }
    }

    /// The channel is well formed, and what was delivered, followed by what
    /// is in flight, is picked in order out of what was offered.
    pub open spec fn consistent(self) -> bool {
        &&& self.channel.wf()
        &&& is_subsequence(self.delivered + self.channel.queue, self.offered)
    }
}

/// The producer offers each of `frames` in turn.
pub open spec fn sends(frames: Seq<VideoFrame>) -> Seq<ChannelOp> {
    Seq::new(frames.len(), |i: int| ChannelOp::Send(frames[i]))
}

/// The consumer asks `n` times.
pub open spec fn recvs(n: nat) -> Seq<ChannelOp> {
    Seq::new(n, |i: int| ChannelOp::Recv)
}

/// Every operation keeps a history consistent.
pub proof fn lemma_step_consistent(h: History, op: ChannelOp)
    requires
        h.consistent(),
    ensures
        h.step(op).consistent(),
        h.step(op).channel.capacity == h.channel.capacity,
{
    let before = h.delivered + h.channel.queue;
    let at = choose|at: Seq<int>| embeds(before, h.offered, at);
    let h2 = h.step(op);
    let after = h2.delivered + h2.channel.queue;
    match op {
        ChannelOp::Send(frame) => {
            if h.channel.accepts() {
                lemma_embeds_push(before, h.offered, at, frame);
                assert(after =~= before.push(frame));
            } else {
                lemma_embeds_longer(before, h.offered, at, frame);
                assert(after =~= before);
            }
        },
        ChannelOp::Recv => {
            assert(after =~= before);
        },
        ChannelOp::CloseSender => {
            assert(after =~= before);
        },
        ChannelOp::CloseReceiver => {
            lemma_embeds_take(before, h.offered, at, h.delivered.len() as int);
            assert(after =~= before.take(h.delivered.len() as int));
        },
    }
}

/// Any sequence of operations keeps a history consistent, and leaves the
/// capacity as it was.
pub proof fn lemma_run_consistent(h: History, ops: Seq<ChannelOp>)
    requires
        h.consistent(),
    ensures
        h.run(ops).consistent(),
        h.run(ops).channel.capacity == h.channel.capacity,
    decreases ops.len(),
{
    if ops.len() > 0 {
        lemma_run_consistent(h, ops.drop_last());
        lemma_step_consistent(h.run(ops.drop_last()), ops.last());
    }
}

/// Running one sequence of operations after another is running both as
/// one.
pub proof fn lemma_run_concat(h: History, first: Seq<ChannelOp>, second: Seq<ChannelOp>)
    ensures
        h.run(first + second) == h.run(first).run(second),
    decreases second.len(),
{
    if second.len() == 0 {
        assert(first + second =~= first);
    } else {
        lemma_run_concat(h, first, second.drop_last());
        assert((first + second).drop_last() =~= first + second.drop_last());
        assert((first + second).last() == second.last());
    }
}

/// Whatever is done to a channel of capacity `capacity`, in whatever order,
/// never more than `capacity` frames are in flight.
pub proof fn theorem_in_flight_bound(capacity: nat, ops: Seq<ChannelOp>)
    ensures
        History::start(capacity).run(ops).channel.queue.len() <= capacity,
        History::start(capacity).run(ops).channel.wf(),
{
    lemma_start_consistent(capacity);
    lemma_run_consistent(History::start(capacity), ops);
}

/// A new history is consistent.
pub proof fn lemma_start_consistent(capacity: nat)
    ensures
        History::start(capacity).consistent(),
{
    let h = History::start(capacity);
    lemma_embeds_nothing(h.offered);
    assert(h.delivered + h.channel.queue =~= Seq::<VideoFrame>::empty());
}

/// Whatever is done to a channel, the frames that the consumer receives are
/// frames that were offered, each at most once and in the order of the
/// offers. So their sequence numbers never go back if those of the offered
/// frames do not, and none repeats if none of those does; frames that were
/// dropped show as gaps only.
pub proof fn theorem_delivery_in_order(capacity: nat, ops: Seq<ChannelOp>)
    ensures
        is_subsequence(
            History::start(capacity).run(ops).delivered,
            History::start(capacity).run(ops).offered,
        ),
        non_decreasing(History::start(capacity).run(ops).offered) ==> non_decreasing(
            History::start(capacity).run(ops).delivered,
        ),
        strictly_increasing(History::start(capacity).run(ops).offered) ==> strictly_increasing(
            History::start(capacity).run(ops).delivered,
        ),
{
    let h = History::start(capacity).run(ops);
    lemma_start_consistent(capacity);
    lemma_run_consistent(History::start(capacity), ops);
    let all = h.delivered + h.channel.queue;
    let at = choose|at: Seq<int>| embeds(all, h.offered, at);
    lemma_embeds_take(all, h.offered, at, h.delivered.len() as int);
    assert(all.take(h.delivered.len() as int) =~= h.delivered);
    lemma_selection_keeps_order(h.delivered, h.offered);
}

/// A burst of sends into a new channel, with nobody receiving: the channel
/// keeps the first frames, as many as its capacity allows, in order, and
/// every later frame is dropped.
pub proof fn lemma_burst(capacity: nat, frames: Seq<VideoFrame>)
    ensures
        ({
            let h = History::start(capacity).run(sends(frames));
            let kept = if frames.len() <= capacity {
                frames.len() as int
            } else {
                capacity as int
            };
            &&& h.channel == (ChannelState {
                queue: frames.take(kept),
                ..ChannelState::new(capacity)
            })
            &&& h.offered == frames
            &&& h.dropped == frames.skip(kept)
            &&& h.delivered == Seq::<VideoFrame>::empty()
        }),
    decreases frames.len(),
{
    let h = History::start(capacity).run(sends(frames));
    if frames.len() == 0 {
        assert(h.channel.queue =~= frames.take(0));
        assert(h.offered =~= frames);
        assert(h.dropped =~= frames.skip(0));
    } else {
        let shorter = frames.drop_last();
        lemma_burst(capacity, shorter);
        assert(sends(frames).drop_last() =~= sends(shorter));
        assert(sends(frames).last() == ChannelOp::Send(frames.last()));
        let before = History::start(capacity).run(sends(shorter));
        assert(h == before.step(ChannelOp::Send(frames.last())));
        assert(h.offered =~= frames);
        if frames.len() <= capacity {
            assert(h.channel.queue =~= frames.take(frames.len() as int));
            assert(h.dropped =~= frames.skip(frames.len() as int));
        } else {
            assert(h.channel.queue =~= frames.take(capacity as int));
            assert(h.dropped =~= frames.skip(capacity as int));
        }
    }
}

/// Receiving `n` times from a channel that holds at least `n` frames hands
/// out its `n` oldest frames, oldest first.
pub proof fn lemma_drain(h: History, n: nat)
    requires
        h.channel.receiver_connected,
        n <= h.channel.queue.len(),
    ensures
        h.run(recvs(n)) == (History {
            channel: ChannelState { queue: h.channel.queue.skip(n as int), ..h.channel },
            delivered: h.delivered + h.channel.queue.take(n as int),
            ..h
        }),
    decreases n,
{
    let after = h.run(recvs(n));
    if n == 0 {
        assert(h.channel.queue.skip(0) =~= h.channel.queue);
        assert(h.delivered + h.channel.queue.take(0) =~= h.delivered);
    } else {
        let m = (n - 1) as nat;
        lemma_drain(h, m);
        assert(recvs(n).drop_last() =~= recvs(m));
        assert(recvs(n).last() == ChannelOp::Recv);
        let before = h.run(recvs(m));
        assert(after == before.step(ChannelOp::Recv));
        assert(before.channel.queue[0] == h.channel.queue[m as int]);
        assert(after.channel.queue =~= h.channel.queue.skip(n as int));
        assert(after.delivered =~= h.delivered + h.channel.queue.take(n as int));
    }
}

/// One frame more than the channel holds, sent in a burst with nobody
/// receiving: exactly one frame is dropped, the last one, and the consumer
/// then receives all the others in the order in which they were produced.
pub proof fn theorem_burst_overflow(capacity: nat, frames: Seq<VideoFrame>)
    requires
        frames.len() == capacity + 1,
    ensures
        ({
            let h = History::start(capacity).run(sends(frames) + recvs(capacity));
            &&& h.dropped == seq![frames.last()]
            &&& h.delivered == frames.drop_last()
            &&& h.channel.queue.len() == 0
        }),
{
    let start = History::start(capacity);
    let sent = start.run(sends(frames));
    lemma_burst(capacity, frames);
    lemma_drain(sent, capacity);
    lemma_run_concat(start, sends(frames), recvs(capacity));
    let h = start.run(sends(frames) + recvs(capacity));
    assert(h.dropped =~= seq![frames.last()]);
    assert(h.delivered =~= frames.drop_last());
}

/// Once the consumer is gone, a send reports `Disconnected`, hands the
/// frame back and leaves the channel as it is, whatever the channel held
/// and however full it was.
pub proof fn theorem_send_after_receiver_gone(channel: ChannelState, frame: VideoFrame)
    ensures
        channel.close_receiver().send_result(frame) == Err::<(), TrySendError>(
            TrySendError::Disconnected(frame),
        ),
        channel.close_receiver().after_send(frame) == channel.close_receiver(),
{
}

/// Once the producer is gone, a receive never reports `Empty`: it hands out
/// a frame that was still in flight, or, when there is none, reports
/// `Disconnected`.
pub proof fn theorem_recv_after_sender_gone(channel: ChannelState)
    ensures
        channel.close_sender().recv_result() != Err::<VideoFrame, TryRecvError>(
            TryRecvError::Empty,
        ),
        channel.queue.len() == 0 ==> channel.close_sender().recv_result() == Err::<
            VideoFrame,
            TryRecvError,
        >(TryRecvError::Disconnected),
{
}

/// A closed end stays closed: no operation reconnects a channel.
pub proof fn theorem_disconnection_is_final(h: History, ops: Seq<ChannelOp>)
    ensures
        !h.channel.sender_connected ==> !h.run(ops).channel.sender_connected,
        !h.channel.receiver_connected ==> !h.run(ops).channel.receiver_connected,
    decreases ops.len(),
{
    if ops.len() > 0 {
        theorem_disconnection_is_final(h, ops.drop_last());
    }
}

} // verus!
