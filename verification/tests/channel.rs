use frame_pipeline::capture::{capture_step, forward, CaptureStep};
use frame_pipeline::channel::{FrameChannel, TryRecvError, TrySendError};
use frame_pipeline::frame::{CaptureMetadata, Extent, Timestamp, VideoFrame};

fn frame(sequence: u32) -> VideoFrame {
    VideoFrame {
        sequence,
        timestamp: Timestamp::new(sequence as i64, 0),
        data: vec![sequence as u8; 4],
    }
}

fn burst(capacity: usize) {
    let mut channel = FrameChannel::new(capacity);
    let mut dropped = Vec::new();
    for sequence in 0..(capacity as u32 + 1) {
        match channel.try_send(frame(sequence)) {
            Ok(()) => {}
            Err(TrySendError::Full(f)) => dropped.push(f.sequence),
            Err(TrySendError::Disconnected(_)) => panic!("the channel is connected"),
        }
    }
    assert_eq!(dropped, vec![capacity as u32]);
    assert_eq!(channel.len(), capacity);
    for sequence in 0..capacity as u32 {
        assert_eq!(channel.try_recv(), Ok(frame(sequence)));
    }
    assert_eq!(channel.try_recv(), Err(TryRecvError::Empty));
}

#[test]
fn burst_of_one_more_than_capacity_drops_exactly_the_last() {
    burst(1);
    burst(3);
    burst(1200);
}

#[test]
fn burst_into_a_channel_without_room_drops_the_frame() {
    burst(0);
}

#[test]
fn new_channel_is_empty_and_reports_its_capacity() {
    let mut channel = FrameChannel::new(7);
    assert_eq!(channel.capacity(), 7);
    assert_eq!(channel.len(), 0);
    assert_eq!(channel.try_recv(), Err(TryRecvError::Empty));
}

#[test]
fn full_channel_hands_the_frame_back_and_keeps_what_it_held() {
    let mut channel = FrameChannel::new(2);
    assert_eq!(channel.try_send(frame(1)), Ok(()));
    assert_eq!(channel.try_send(frame(2)), Ok(()));
    assert_eq!(channel.try_send(frame(3)), Err(TrySendError::Full(frame(3))));
    assert_eq!(channel.len(), 2);
    assert_eq!(channel.try_recv(), Ok(frame(1)));
    assert_eq!(channel.try_send(frame(4)), Ok(()));
    assert_eq!(channel.try_recv(), Ok(frame(2)));
    assert_eq!(channel.try_recv(), Ok(frame(4)));
    assert_eq!(channel.try_recv(), Err(TryRecvError::Empty));
}

#[test]
fn frames_with_equal_content_are_all_delivered() {
    let mut channel = FrameChannel::new(3);
    for _ in 0..3 {
        assert_eq!(channel.try_send(frame(9)), Ok(()));
    }
    for _ in 0..3 {
        assert_eq!(channel.try_recv(), Ok(frame(9)));
    }
    assert_eq!(channel.try_recv(), Err(TryRecvError::Empty));
}

#[test]
fn send_after_receiver_is_gone_reports_disconnected() {
    let mut channel = FrameChannel::new(4);
    channel.close_receiver();
    assert_eq!(
        channel.try_send(frame(1)),
        Err(TrySendError::Disconnected(frame(1)))
    );
    assert_eq!(channel.len(), 0);
}

#[test]
fn send_into_a_full_channel_after_receiver_is_gone_reports_disconnected() {
    let mut channel = FrameChannel::new(1);
    assert_eq!(channel.try_send(frame(1)), Ok(()));
    channel.close_receiver();
    assert_eq!(channel.len(), 0);
    assert_eq!(
        channel.try_send(frame(2)),
        Err(TrySendError::Disconnected(frame(2)))
    );
    assert_eq!(
        channel.try_send(frame(3)),
        Err(TrySendError::Disconnected(frame(3)))
    );
}

#[test]
fn receive_after_sender_is_gone_reports_disconnected_not_empty() {
    let mut channel = FrameChannel::new(4);
    assert_eq!(channel.try_recv(), Err(TryRecvError::Empty));
    channel.close_sender();
    assert_eq!(channel.try_recv(), Err(TryRecvError::Disconnected));
    assert_eq!(channel.try_recv(), Err(TryRecvError::Disconnected));
}

#[test]
fn frames_in_flight_are_received_before_the_disconnection_shows() {
    let mut channel = FrameChannel::new(4);
    assert_eq!(channel.try_send(frame(1)), Ok(()));
    assert_eq!(channel.try_send(frame(2)), Ok(()));
    channel.close_sender();
    assert_eq!(channel.try_recv(), Ok(frame(1)));
    assert_eq!(channel.try_recv(), Ok(frame(2)));
    assert_eq!(channel.try_recv(), Err(TryRecvError::Disconnected));
}

#[test]
fn send_after_sender_is_closed_is_refused() {
    let mut channel = FrameChannel::new(4);
    channel.close_sender();
    assert_eq!(
        channel.try_send(frame(1)),
        Err(TrySendError::Disconnected(frame(1)))
    );
    assert_eq!(channel.len(), 0);
}

#[test]
fn received_sequence_numbers_never_go_back_and_never_repeat() {
    let mut channel = FrameChannel::new(2);
    let mut seen: Vec<u32> = Vec::new();
    for sequence in 1..=40u32 {
        let _ = channel.try_send(frame(sequence));
        if sequence % 3 == 0 {
            if let Ok(f) = channel.try_recv() {
                seen.push(f.sequence);
            }
        }
    }
    while let Ok(f) = channel.try_recv() {
        seen.push(f.sequence);
    }
    assert!(!seen.is_empty());
    for pair in seen.windows(2) {
        assert!(pair[0] < pair[1]);
    }
    assert_eq!(&seen[..4], &[1, 2, 4, 7]);
}

#[test]
fn forward_reports_sent_dropped_and_stop() {
    let mut channel = FrameChannel::new(1);
    assert_eq!(forward(&mut channel, frame(1)), CaptureStep::Sent);
    assert_eq!(forward(&mut channel, frame(2)), CaptureStep::Dropped);
    assert_eq!(channel.len(), 1);
    channel.close_receiver();
    assert_eq!(forward(&mut channel, frame(3)), CaptureStep::Stop);
    assert!(CaptureStep::Sent.keeps_running());
    assert!(CaptureStep::Dropped.keeps_running());
    assert!(!CaptureStep::Stop.keeps_running());
}

#[test]
fn capture_step_copies_the_buffer_and_stamps_the_frame() {
    let mut channel = FrameChannel::new(2);
    let mut buffer = vec![1u8, 2, 3, 4, 5, 6];
    let metadata = CaptureMetadata {
        sequence: 17,
        timestamp: Timestamp::new(2, 250_000),
    };
    assert_eq!(capture_step(&mut channel, &buffer, &metadata), CaptureStep::Sent);
    // The driver reuses its buffer: the frame in flight must not change.
    for byte in buffer.iter_mut() {
        *byte = 0xff;
    }
    let received = channel.try_recv().unwrap();
    assert_eq!(received.sequence, 17);
    assert_eq!(received.timestamp, Timestamp { sec: 2, usec: 250_000 });
    assert_eq!(received.data, vec![1u8, 2, 3, 4, 5, 6]);
    assert!(received.covers(&Extent::new(3, 2)));
    assert!(!received.covers(&Extent::new(3, 3)));
}

#[test]
fn capture_step_on_a_full_channel_leaves_it_as_it_was() {
    let mut channel = FrameChannel::new(1);
    let metadata = CaptureMetadata {
        sequence: 1,
        timestamp: Timestamp::new(0, 0),
    };
    assert_eq!(capture_step(&mut channel, &[1, 1], &metadata), CaptureStep::Sent);
    let later = CaptureMetadata {
        sequence: 2,
        timestamp: Timestamp::new(0, 8_333),
    };
    assert_eq!(capture_step(&mut channel, &[2, 2], &later), CaptureStep::Dropped);
    assert_eq!(channel.len(), 1);
    assert_eq!(channel.try_recv().unwrap().data, vec![1u8, 1]);
}

#[test]
fn capture_step_stops_when_the_receiver_is_gone() {
    let mut channel = FrameChannel::new(1);
    channel.close_receiver();
    let metadata = CaptureMetadata {
        sequence: 1,
        timestamp: Timestamp::new(0, 0),
    };
    assert_eq!(capture_step(&mut channel, &[1], &metadata), CaptureStep::Stop);
    assert_eq!(channel.len(), 0);
}

#[test]
fn slow_consumer_sees_a_sparse_increasing_selection() {
    let mut channel = FrameChannel::new(1);
    let mut observed: Vec<VideoFrame> = Vec::new();
    let mut attempts = 0;
    for sequence in 1..=5u32 {
        let metadata = CaptureMetadata {
            sequence,
            timestamp: Timestamp::new(0, sequence as i64 * 8_333),
        };
        let raw = vec![sequence as u8; 8];
        let _ = capture_step(&mut channel, &raw, &metadata);
        attempts += 1;
        if attempts % 3 == 0 {
            if let Ok(f) = channel.try_recv() {
                observed.push(f);
            }
        }
    }
    if let Ok(f) = channel.try_recv() {
        observed.push(f);
    }
    let sequences: Vec<u32> = observed.iter().map(|f| f.sequence).collect();
    assert_eq!(sequences, vec![1, 4]);
    for f in &observed {
        assert_ne!(f.sequence, 0);
        assert_eq!(f.data, vec![f.sequence as u8; 8]);
    }
    for pair in sequences.windows(2) {
        assert!(pair[0] < pair[1]);
    }
}
