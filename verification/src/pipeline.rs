//! The whole pipeline as one transition system: the capture side, the
//! channel and the render loop, driven by what the camera and the window
//! system deliver, in any interleaving. The theorems here say what holds of
//! every run.

use crate::capture::{step_for, CaptureStep};
use crate::channel::{ChannelState, TryRecvError};
use crate::frame::{Extent, VideoFrame};
use crate::order::{
    embeds,
    is_subsequence,
    lemma_embeds_longer,
    lemma_embeds_nothing,
    lemma_embeds_push,
    lemma_embeds_remove,
    lemma_embeds_take,
    lemma_selection_keeps_order,
    non_decreasing,
    strictly_increasing,
};
use crate::render::{Actions, Event, RenderModel, RenderState};
use vstd::prelude::*;

verus! {

/// What happens to the pipeline from outside.
pub enum Input {
    /// The camera handed out a buffer, and the capture side made this frame
    /// of it.
    Captured(VideoFrame),
    /// The capture side has ended, for whatever reason, and its end of the
    /// channel is closed.
    CaptureEnded,
    /// The window system delivered an event, or a present was answered.
    Window(Event),
}

/// The capture side, the channel and the render loop at one moment.
pub struct Pipeline {
    /// Whether the capture side is still running.
    pub capturing: bool,
    pub channel: ChannelState,
    pub render: RenderModel,
}

impl Pipeline {
    /// The pipeline as it is set up: an empty channel, the capture side
    /// running, the surface configured.
    pub open spec fn start(capacity: nat, surface: Extent, video: Extent) -> Pipeline {
        Pipeline {
            capturing: true,
            channel: ChannelState::new(capacity),
            render: RenderModel::new(surface, video),
        }
    }

    pub open spec fn paused(self) -> bool {
        !self.render.is_rendering()
    }

    /// The capture side offers a frame. When the channel is disconnected it
    /// stops, and its end of the channel closes with it.
    pub open spec fn offer(self, frame: VideoFrame) -> Pipeline {
        if step_for(self.channel) == CaptureStep::Stop {
            Pipeline { capturing: false, channel: self.channel.close_sender(), ..self }
        } else {
            Pipeline { channel: self.channel.after_send(frame), ..self }
        }
    }

    /// The pipeline after one input. A frame from a capture side that has
    /// ended changes nothing.
    pub open spec fn step(self, input: Input) -> Pipeline {
        match input {
            Input::Captured(frame) => if self.capturing {
                self.offer(frame)
            } else {
                self
            },
            Input::CaptureEnded => Pipeline {
                capturing: false,
                channel: self.channel.close_sender(),
                ..self
            },
            Input::Window(event) => {
                let outcome = self.render.handle(self.channel, event);
                Pipeline { channel: outcome.channel, render: outcome.render, ..self }
            },
        }
    }

    /// What the render loop directs on one input.
    pub open spec fn directive(self, input: Input) -> Actions {
        match input {
            Input::Window(event) => self.render.handle(self.channel, event).actions,
            _ => Actions::none(),
        }
    }

    /// The pipeline after the inputs `inputs`, first to last.
    pub open spec fn run(self, inputs: Seq<Input>) -> Pipeline
        decreases inputs.len(),
    {
        if inputs.len() == 0 {
            self
        } else {
            self.run(inputs.drop_last()).step(inputs.last())
        }
    }

    /// What the render loop directs on the input at position `at` of
    /// `inputs`.
    pub open spec fn directive_at(self, inputs: Seq<Input>, at: int) -> Actions {
        self.run(inputs.take(at)).directive(inputs[at])
    }

    /// The frames that the capture side offered during `inputs`, in order.
    pub open spec fn captured(self, inputs: Seq<Input>) -> Seq<VideoFrame>
        decreases inputs.len(),
    {
        if inputs.len() == 0 {
            Seq::empty()
        } else {
            let earlier = self.captured(inputs.drop_last());
            match inputs.last() {
                Input::Captured(frame) => if self.run(inputs.drop_last()).capturing {
                    earlier.push(frame)
                } else {
                    earlier
                },
                _ => earlier,
            }
        }
    }

    /// The frames that the render loop directed to upload during `inputs`,
    /// in order.
    pub open spec fn uploaded(self, inputs: Seq<Input>) -> Seq<VideoFrame>
        decreases inputs.len(),
    {
        if inputs.len() == 0 {
            Seq::empty()
        } else {
            let earlier = self.uploaded(inputs.drop_last());
            match self.run(inputs.drop_last()).directive(inputs.last()).upload {
                Some(upload) => earlier.push(upload.frame),
                None => earlier,
            }
        }
    }
}

/// `n` ticks of the event source and nothing else.
pub open spec fn ticks(n: nat) -> Seq<Input> {
    Seq::new(n, |i: int| Input::Window(Event::PollTick))
}

/// The inputs from position `from` up to and including position `to` hold
/// no redraw notification.
pub open spec fn no_redraw(inputs: Seq<Input>, from: int, to: int) -> bool {
    forall|k: int| from <= k <= to ==> #[trigger] inputs[k] != Input::Window(Event::RedrawReady)
}

/// The inputs from position `from` up to and including position `to` hold
/// no resize.
pub open spec fn no_resize(inputs: Seq<Input>, from: int, to: int) -> bool {
    forall|k: int| from <= k <= to ==> !(#[trigger] inputs[k] matches Input::Window(Event::Resize(_)))
}

/// The pipeline after the first `n + 1` inputs is the pipeline after the
/// first `n`, one step on.
pub proof fn lemma_run_next(p: Pipeline, inputs: Seq<Input>, n: int)
    requires
        0 <= n < inputs.len(),
    ensures
        p.run(inputs.take(n + 1)) == p.run(inputs.take(n)).step(inputs[n]),
{
    assert(inputs.take(n + 1).drop_last() =~= inputs.take(n));
}

/// While the loop is not rendering it directs neither an upload nor a
/// present, and only a redraw notification makes it render again.
pub proof fn lemma_paused_step(p: Pipeline, input: Input)
    requires
        p.paused(),
    ensures
        p.directive(input).is_quiet(),
        input != Input::Window(Event::RedrawReady) ==> p.step(input).paused(),
{
}

/// From a moment at which the loop is not rendering until the next redraw
/// notification, it directs no upload and no present, whatever else
/// arrives: frames, ticks, resizes, failed acquisitions.
pub proof fn theorem_quiet_while_paused(p: Pipeline, inputs: Seq<Input>, from: int, to: int)
    requires
        0 <= from <= to < inputs.len(),
        p.run(inputs.take(from)).paused(),
        no_redraw(inputs, from, to),
    ensures
        p.directive_at(inputs, to).is_quiet(),
        p.run(inputs.take(to + 1)).paused(),
    decreases to - from,
{
    if from < to {
        theorem_quiet_while_paused(p, inputs, from, to - 1);
    }
    assert(inputs[to] != Input::Window(Event::RedrawReady));
    lemma_paused_step(p.run(inputs.take(to)), inputs[to]);
    lemma_run_next(p, inputs, to);
}

/// Between a resize and the next redraw notification the loop directs no
/// upload and no present: not with the resize itself, and not with
/// anything that arrives after it.
pub proof fn theorem_quiet_after_resize(p: Pipeline, inputs: Seq<Input>, resize: int, later: int)
    requires
        0 <= resize <= later < inputs.len(),
        inputs[resize] matches Input::Window(Event::Resize(_)),
        no_redraw(inputs, resize + 1, later),
    ensures
        p.directive_at(inputs, later).is_quiet(),
        p.run(inputs.take(later + 1)).paused(),
{
    lemma_run_next(p, inputs, resize);
    if resize < later {
        theorem_quiet_while_paused(p, inputs, resize + 1, later);
    }
}

/// A resize is answered by reconfiguring the surface to the new size, and
/// leaves a loop that has not ended idle.
pub proof fn theorem_resize_reconfigures(p: Pipeline, size: Extent)
    requires
        p.render.state != RenderState::Terminated,
    ensures
        p.directive(Input::Window(Event::Resize(size))).reconfigure == Some(size),
        p.step(Input::Window(Event::Resize(size))).render.state == RenderState::Idle,
        p.step(Input::Window(Event::Resize(size))).render.surface == size,
{
}

/// The loop has ended, or its surface has the size `size`.
pub open spec fn ended_or_sized(p: Pipeline, size: Extent) -> bool {
    p.render.state == RenderState::Terminated || p.render.surface == size
}

/// Without a resize, the size of the surface stays as it is.
pub proof fn lemma_surface_kept(p: Pipeline, inputs: Seq<Input>, from: int, to: int, size: Extent)
    requires
        0 <= from <= to <= inputs.len(),
        ended_or_sized(p.run(inputs.take(from)), size),
        no_resize(inputs, from, to - 1),
    ensures
        ended_or_sized(p.run(inputs.take(to)), size),
    decreases to - from,
{
    if from < to {
        lemma_surface_kept(p, inputs, from, to - 1, size);
        assert(!(inputs[to - 1] matches Input::Window(Event::Resize(_))));
        lemma_run_next(p, inputs, to - 1);
    }
}

/// After a resize, and until the next one, every present that the loop
/// directs is for a surface of the new size.
pub proof fn theorem_present_has_last_size(
    p: Pipeline,
    inputs: Seq<Input>,
    resize: int,
    later: int,
    size: Extent,
)
    requires
        0 <= resize < later < inputs.len(),
        inputs[resize] == Input::Window(Event::Resize(size)),
        no_resize(inputs, resize + 1, later - 1),
    ensures
        p.directive_at(inputs, later).present is Some ==> p.directive_at(inputs, later).present
            == Some(size),
{
    lemma_run_next(p, inputs, resize);
    lemma_surface_kept(p, inputs, resize + 1, later, size);
}

/// A redraw notification makes a loop that has not ended render again, on
/// the surface as it was last configured.
pub proof fn theorem_redraw_resumes(p: Pipeline)
    requires
        p.render.state != RenderState::Terminated,
    ensures
        p.step(Input::Window(Event::RedrawReady)).render == p.render.with_state(
            RenderState::Rendering,
        ),
        p.directive(Input::Window(Event::RedrawReady)) == Actions::none(),
{
}

/// While the loop renders, a tick on a connected channel directs a present
/// on the current surface; a frame that the tick receives is uploaded
/// first, whole, with one row of the texture per row of the frame; and the
/// loop goes on rendering.
pub proof fn theorem_tick_while_rendering(p: Pipeline)
    requires
        p.render.is_rendering(),
        p.channel.recv_result() != Err::<VideoFrame, TryRecvError>(TryRecvError::Disconnected),
    ensures
        p.directive(Input::Window(Event::PollTick)).present == Some(p.render.surface),
        p.directive(Input::Window(Event::PollTick)).upload == match p.channel.recv_result() {
            Ok(frame) => Some(p.render.upload_of(frame)),
            Err(_) => None,
        },
        p.step(Input::Window(Event::PollTick)).render == p.render,
{
}

/// A failed acquisition takes a rendering loop to `SurfaceLost` and directs
/// nothing; the loop does not try again by itself.
pub proof fn theorem_surface_loss_pauses(p: Pipeline)
    requires
        p.render.is_rendering(),
    ensures
        p.step(Input::Window(Event::AcquireFailed)).render.state == RenderState::SurfaceLost,
        p.step(Input::Window(Event::AcquireFailed)).paused(),
        p.directive(Input::Window(Event::AcquireFailed)) == Actions::none(),
{
}

/// From a failed acquisition until the next redraw notification the loop
/// directs no upload and no present.
pub proof fn theorem_quiet_after_surface_loss(
    p: Pipeline,
    inputs: Seq<Input>,
    failure: int,
    later: int,
)
    requires
        0 <= failure <= later < inputs.len(),
        inputs[failure] == Input::Window(Event::AcquireFailed),
        no_redraw(inputs, failure + 1, later),
    ensures
        p.directive_at(inputs, later).is_quiet(),
        p.run(inputs.take(later + 1)).paused(),
{
    lemma_run_next(p, inputs, failure);
    if failure < later {
        theorem_quiet_while_paused(p, inputs, failure + 1, later);
    }
}

/// Once the producer is gone and nothing is in flight, the next tick ends
/// the loop: it directs the exit and closes the receiving end.
pub proof fn theorem_disconnect_ends_loop(p: Pipeline)
    requires
        p.render.state != RenderState::Terminated,
        !p.channel.sender_connected,
        p.channel.queue.len() == 0,
    ensures
        p.step(Input::Window(Event::PollTick)).render.state == RenderState::Terminated,
        p.directive(Input::Window(Event::PollTick)).exit,
        !p.step(Input::Window(Event::PollTick)).channel.receiver_connected,
{
}

/// Once the producer is gone, the loop ends after as many ticks as frames
/// are in flight, and one more.
pub proof fn theorem_loop_ends_after_drain(p: Pipeline, n: nat)
    requires
        !p.channel.sender_connected,
        p.channel.wf(),
        n == p.channel.queue.len() + 1,
    ensures
        p.run(ticks(n)).render.state == RenderState::Terminated,
{
    lemma_ticks_drain(p, (n - 1) as nat);
    assert(ticks(n).drop_last() =~= ticks((n - 1) as nat));
}

/// Ticks on a channel whose producer is gone take one frame each, as long
/// as there are frames.
proof fn lemma_ticks_drain(p: Pipeline, m: nat)
    requires
        !p.channel.sender_connected,
        p.channel.wf(),
        m <= p.channel.queue.len(),
    ensures
        !p.run(ticks(m)).channel.sender_connected,
        p.run(ticks(m)).render.state == RenderState::Terminated || p.run(
            ticks(m),
        ).channel.queue.len() == p.channel.queue.len() - m,
    decreases m,
{
    if m > 0 {
        lemma_ticks_drain(p, (m - 1) as nat);
        assert(ticks(m).drop_last() =~= ticks((m - 1) as nat));
    }
}

/// A close request ends the loop and closes the receiving end of the
/// channel, so that the next frame that the capture side offers stops it.
pub proof fn theorem_close_stops_capture(p: Pipeline, frame: VideoFrame)
    requires
        p.render.state != RenderState::Terminated,
        p.capturing,
    ensures
        p.step(Input::Window(Event::CloseRequest)).render.state == RenderState::Terminated,
        p.directive(Input::Window(Event::CloseRequest)).exit,
        !p.step(Input::Window(Event::CloseRequest)).step(Input::Captured(frame)).capturing,
{
}

/// Every input keeps this: the frames uploaded so far, followed by the
/// frames in flight, are picked in order out of the frames captured so far.
proof fn lemma_uploads_step(p: Pipeline, inputs: Seq<Input>)
    requires
        inputs.len() > 0,
        is_subsequence(
            p.uploaded(inputs.drop_last()) + p.run(inputs.drop_last()).channel.queue,
            p.captured(inputs.drop_last()),
        ),
    ensures
        is_subsequence(p.uploaded(inputs) + p.run(inputs).channel.queue, p.captured(inputs)),
{
    let before = p.run(inputs.drop_last());
    let up = p.uploaded(inputs.drop_last());
    let cap = p.captured(inputs.drop_last());
    let old_all = up + before.channel.queue;
    let at = choose|at: Seq<int>| embeds(old_all, cap, at);
    let new_all = p.uploaded(inputs) + p.run(inputs).channel.queue;
    let new_cap = p.captured(inputs);
    match inputs.last() {
        Input::Captured(frame) => {
            if before.capturing {
                if before.channel.accepts() {
                    lemma_embeds_push(old_all, cap, at, frame);
                    assert(new_all =~= old_all.push(frame));
                } else {
                    lemma_embeds_longer(old_all, cap, at, frame);
                    assert(new_all =~= old_all);
                }
            } else {
                assert(new_all =~= old_all);
            }
        },
        Input::CaptureEnded => {
            assert(new_all =~= old_all);
        },
        Input::Window(event) => {
            assert(new_cap == cap);
            if before.render.state == RenderState::Terminated {
                assert(new_all =~= old_all);
            } else {
                match event {
                    Event::PollTick => {
                        if before.channel.delivers() {
                            if before.render.is_rendering() {
                                assert(new_all =~= old_all);
                            } else {
                                lemma_embeds_remove(old_all, cap, at, up.len() as int);
                                assert(new_all =~= old_all.remove(up.len() as int));
                            }
                        } else if before.channel.connected() {
                            assert(new_all =~= old_all);
                        } else {
                            lemma_embeds_take(old_all, cap, at, up.len() as int);
                            assert(new_all =~= old_all.take(up.len() as int));
                        }
                    },
                    Event::CloseRequest => {
                        lemma_embeds_take(old_all, cap, at, up.len() as int);
                        assert(new_all =~= old_all.take(up.len() as int));
                    },
                    _ => {
                        assert(new_all =~= old_all);
                    },
                }
            }
        },
    }
}

proof fn lemma_uploads_run(p: Pipeline, inputs: Seq<Input>)
    requires
        p.channel.queue.len() == 0,
    ensures
        is_subsequence(p.uploaded(inputs) + p.run(inputs).channel.queue, p.captured(inputs)),
    decreases inputs.len(),
{
    if inputs.len() == 0 {
        lemma_embeds_nothing(p.captured(inputs));
        assert(p.uploaded(inputs) + p.run(inputs).channel.queue =~= Seq::<VideoFrame>::empty());
    } else {
        lemma_uploads_run(p, inputs.drop_last());
        lemma_uploads_step(p, inputs);
    }
}

/// Whatever the camera and the window system do, and in whatever order,
/// the frames that reach the texture are frames that were captured, each at
/// most once and in the order of capture. So the sequence numbers on the
/// texture never go back if those of the camera do not, and none repeats
/// if none of those does: frames lost to a full channel or to a pause show
/// as gaps only.
pub proof fn theorem_uploads_in_order(p: Pipeline, inputs: Seq<Input>)
    requires
        p.channel.queue.len() == 0,
    ensures
        is_subsequence(p.uploaded(inputs), p.captured(inputs)),
        non_decreasing(p.captured(inputs)) ==> non_decreasing(p.uploaded(inputs)),
        strictly_increasing(p.captured(inputs)) ==> strictly_increasing(p.uploaded(inputs)),
{
    lemma_uploads_run(p, inputs);
    let up = p.uploaded(inputs);
    let all = up + p.run(inputs).channel.queue;
    let at = choose|at: Seq<int>| embeds(all, p.captured(inputs), at);
    lemma_embeds_take(all, p.captured(inputs), at, up.len() as int);
    assert(all.take(up.len() as int) =~= up);
    lemma_selection_keeps_order(up, p.captured(inputs));
}

} // verus!
