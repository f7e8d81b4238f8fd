use frame_pipeline::capture::{capture_step, CaptureStep};
use frame_pipeline::channel::FrameChannel;
use frame_pipeline::frame::{CaptureMetadata, Extent, Timestamp, VideoFrame};
use frame_pipeline::render::{Actions, Event, RenderLoop, RenderState, Upload};

const VIDEO: Extent = Extent { width: 4, height: 2 };
const WINDOW: Extent = Extent { width: 800, height: 600 };

fn video_frame(sequence: u32) -> VideoFrame {
    VideoFrame {
        sequence,
        timestamp: Timestamp::new(0, sequence as i64 * 8_333),
        data: vec![sequence as u8; 8],
    }
}

fn nothing() -> Actions {
    Actions { reconfigure: None, upload: None, present: None, exit: false }
}

fn exit() -> Actions {
    Actions { reconfigure: None, upload: None, present: None, exit: true }
}

fn upload_of(sequence: u32) -> Upload {
    Upload { frame: video_frame(sequence), region: VIDEO, bytes_per_row: 4, rows: 2 }
}

#[test]
fn new_loop_renders_on_the_configured_surface() {
    let render = RenderLoop::new(WINDOW, VIDEO);
    assert_eq!(render.state(), RenderState::Rendering);
    assert!(render.is_rendering());
    assert_eq!(render.surface(), WINDOW);
    assert_eq!(render.video(), VIDEO);
}

#[test]
fn tick_uploads_the_received_frame_and_presents() {
    let mut channel = FrameChannel::new(2);
    let mut render = RenderLoop::new(WINDOW, VIDEO);
    channel.try_send(video_frame(1)).unwrap();
    let actions = render.handle(Event::PollTick, &mut channel);
    assert_eq!(
        actions,
        Actions { reconfigure: None, upload: Some(upload_of(1)), present: Some(WINDOW), exit: false }
    );
    assert_eq!(channel.len(), 0);
    assert_eq!(render.state(), RenderState::Rendering);
}

#[test]
fn tick_takes_at_most_one_frame() {
    let mut channel = FrameChannel::new(3);
    let mut render = RenderLoop::new(WINDOW, VIDEO);
    for sequence in 1..=3 {
        channel.try_send(video_frame(sequence)).unwrap();
    }
    let actions = render.handle(Event::PollTick, &mut channel);
    assert_eq!(actions.upload, Some(upload_of(1)));
    assert_eq!(channel.len(), 2);
    let actions = render.handle(Event::PollTick, &mut channel);
    assert_eq!(actions.upload, Some(upload_of(2)));
    assert_eq!(channel.len(), 1);
}

#[test]
fn tick_without_a_frame_presents_only() {
    let mut channel = FrameChannel::new(2);
    let mut render = RenderLoop::new(WINDOW, VIDEO);
    let actions = render.handle(Event::PollTick, &mut channel);
    assert_eq!(
        actions,
        Actions { reconfigure: None, upload: None, present: Some(WINDOW), exit: false }
    );
}

#[test]
fn no_upload_and_no_present_between_resize_and_redraw() {
    let mut channel = FrameChannel::new(2);
    let mut render = RenderLoop::new(WINDOW, VIDEO);
    let resized = Extent::new(1024, 768);
    let mut uploads = 0;
    let mut presents = 0;

    let actions = render.handle(Event::Resize(resized), &mut channel);
    assert_eq!(
        actions,
        Actions { reconfigure: Some(resized), upload: None, present: None, exit: false }
    );
    assert_eq!(render.state(), RenderState::Idle);
    assert_eq!(render.surface(), resized);

    for sequence in 1..=6u32 {
        let metadata = CaptureMetadata { sequence, timestamp: Timestamp::new(0, 0) };
        let raw = vec![sequence as u8; 8];
        let _ = capture_step(&mut channel, &raw, &metadata);
        let actions = render.handle(Event::PollTick, &mut channel);
        if actions.upload.is_some() {
            uploads += 1;
        }
        if actions.present.is_some() {
            presents += 1;
        }
        assert_eq!(render.state(), RenderState::Idle);
    }
    assert_eq!(uploads, 0);
    assert_eq!(presents, 0);
    // Frames that arrived meanwhile were taken and discarded, not kept.
    assert_eq!(channel.len(), 0);

    assert_eq!(render.handle(Event::RedrawReady, &mut channel), nothing());
    assert_eq!(render.state(), RenderState::Rendering);

    channel.try_send(video_frame(7)).unwrap();
    let actions = render.handle(Event::PollTick, &mut channel);
    assert_eq!(
        actions,
        Actions { reconfigure: None, upload: Some(upload_of(7)), present: Some(resized), exit: false }
    );
}

#[test]
fn second_resize_before_redraw_keeps_the_loop_idle() {
    let mut channel = FrameChannel::new(1);
    let mut render = RenderLoop::new(WINDOW, VIDEO);
    render.handle(Event::Resize(Extent::new(10, 10)), &mut channel);
    let actions = render.handle(Event::Resize(Extent::new(20, 30)), &mut channel);
    assert_eq!(actions.reconfigure, Some(Extent::new(20, 30)));
    assert_eq!(render.state(), RenderState::Idle);
    render.handle(Event::RedrawReady, &mut channel);
    let actions = render.handle(Event::PollTick, &mut channel);
    assert_eq!(actions.present, Some(Extent::new(20, 30)));
}

#[test]
fn failed_acquisition_pauses_until_the_next_redraw() {
    let mut channel = FrameChannel::new(2);
    let mut render = RenderLoop::new(WINDOW, VIDEO);

    let actions = render.handle(Event::PollTick, &mut channel);
    assert_eq!(actions.present, Some(WINDOW));
    assert_eq!(render.handle(Event::AcquireFailed, &mut channel), nothing());
    assert_eq!(render.state(), RenderState::SurfaceLost);
    assert!(!render.is_rendering());

    channel.try_send(video_frame(1)).unwrap();
    assert_eq!(render.handle(Event::PollTick, &mut channel), nothing());
    assert_eq!(render.handle(Event::PollTick, &mut channel), nothing());
    assert_eq!(render.state(), RenderState::SurfaceLost);

    assert_eq!(render.handle(Event::RedrawReady, &mut channel), nothing());
    assert_eq!(render.state(), RenderState::Rendering);
    channel.try_send(video_frame(2)).unwrap();
    let actions = render.handle(Event::PollTick, &mut channel);
    assert_eq!(actions.upload, Some(upload_of(2)));
    assert_eq!(actions.present, Some(WINDOW));
    // No failure is reported this time: the loop goes on rendering.
    let actions = render.handle(Event::PollTick, &mut channel);
    assert_eq!(actions.present, Some(WINDOW));
    assert_eq!(render.state(), RenderState::Rendering);
}

#[test]
fn failed_acquisition_while_idle_changes_nothing() {
    let mut channel = FrameChannel::new(2);
    let mut render = RenderLoop::new(WINDOW, VIDEO);
    render.handle(Event::Resize(Extent::new(5, 5)), &mut channel);
    assert_eq!(render.handle(Event::AcquireFailed, &mut channel), nothing());
    assert_eq!(render.state(), RenderState::Idle);
}

#[test]
fn resize_after_surface_loss_reconfigures_and_idles() {
    let mut channel = FrameChannel::new(2);
    let mut render = RenderLoop::new(WINDOW, VIDEO);
    render.handle(Event::AcquireFailed, &mut channel);
    let actions = render.handle(Event::Resize(Extent::new(5, 6)), &mut channel);
    assert_eq!(actions.reconfigure, Some(Extent::new(5, 6)));
    assert_eq!(render.state(), RenderState::Idle);
}

#[test]
fn close_request_ends_the_loop_and_stops_the_capture_side() {
    let mut channel = FrameChannel::new(2);
    let mut render = RenderLoop::new(WINDOW, VIDEO);
    channel.try_send(video_frame(1)).unwrap();
    assert_eq!(render.handle(Event::CloseRequest, &mut channel), exit());
    assert_eq!(render.state(), RenderState::Terminated);
    assert_eq!(channel.len(), 0);
    let metadata = CaptureMetadata { sequence: 2, timestamp: Timestamp::new(0, 0) };
    assert_eq!(capture_step(&mut channel, &[0u8; 8], &metadata), CaptureStep::Stop);
}

#[test]
fn disconnected_producer_ends_the_loop_within_one_tick() {
    let mut channel = FrameChannel::new(2);
    let mut render = RenderLoop::new(WINDOW, VIDEO);
    channel.close_sender();
    assert_eq!(render.handle(Event::PollTick, &mut channel), exit());
    assert_eq!(render.state(), RenderState::Terminated);
}

#[test]
fn disconnected_producer_ends_a_paused_loop_too() {
    let mut channel = FrameChannel::new(2);
    let mut render = RenderLoop::new(WINDOW, VIDEO);
    render.handle(Event::Resize(Extent::new(5, 5)), &mut channel);
    channel.close_sender();
    assert_eq!(render.handle(Event::PollTick, &mut channel), exit());
    assert_eq!(render.state(), RenderState::Terminated);
}

#[test]
fn frames_in_flight_are_shown_before_the_loop_ends() {
    let mut channel = FrameChannel::new(2);
    let mut render = RenderLoop::new(WINDOW, VIDEO);
    channel.try_send(video_frame(1)).unwrap();
    channel.try_send(video_frame(2)).unwrap();
    channel.close_sender();
    assert_eq!(render.handle(Event::PollTick, &mut channel).upload, Some(upload_of(1)));
    assert_eq!(render.handle(Event::PollTick, &mut channel).upload, Some(upload_of(2)));
    assert_eq!(render.handle(Event::PollTick, &mut channel), exit());
    assert_eq!(render.state(), RenderState::Terminated);
}

#[test]
fn terminated_loop_ignores_every_event() {
    let mut channel = FrameChannel::new(2);
    let mut render = RenderLoop::new(WINDOW, VIDEO);
    render.handle(Event::CloseRequest, &mut channel);
    let events = [
        Event::Resize(Extent::new(1, 1)),
        Event::CloseRequest,
        Event::RedrawReady,
        Event::PollTick,
        Event::AcquireFailed,
    ];
    for event in events {
        assert_eq!(render.handle(event, &mut channel), nothing());
        assert_eq!(render.state(), RenderState::Terminated);
        assert_eq!(render.surface(), WINDOW);
    }
}

#[test]
fn uploads_follow_the_order_of_capture_across_pauses() {
    let mut channel = FrameChannel::new(2);
    let mut render = RenderLoop::new(WINDOW, VIDEO);
    let mut uploaded: Vec<u32> = Vec::new();
    for sequence in 1..=30u32 {
        let metadata = CaptureMetadata { sequence, timestamp: Timestamp::new(0, 0) };
        let raw = vec![sequence as u8; 8];
        let _ = capture_step(&mut channel, &raw, &metadata);
        if sequence % 7 == 0 {
            render.handle(Event::Resize(Extent::new(sequence, sequence)), &mut channel);
        }
        if sequence % 7 == 3 {
            render.handle(Event::RedrawReady, &mut channel);
        }
        if sequence % 2 == 0 {
            if let Some(upload) = render.handle(Event::PollTick, &mut channel).upload {
                assert_eq!(upload.frame.data, vec![upload.frame.sequence as u8; 8]);
                uploaded.push(upload.frame.sequence);
            }
        }
    }
    assert!(uploaded.len() > 3);
    for pair in uploaded.windows(2) {
        assert!(pair[0] < pair[1]);
    }
}
