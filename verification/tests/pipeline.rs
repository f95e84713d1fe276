use proxa::encode::{DenoiseAction, EncodeState, EncoderCommand};
use proxa::pipeline::{FrameAction, FrameEvent, FrameStage, Pipeline};
use proxa::protocol::ClientMessage;
use proxa::types::{Channels, DenoiseMethod};

fn state() -> EncodeState<i32> {
    EncodeState::new(Channels::Mono, 480, false, false, None, 0).0
}

#[test]
fn nothing_is_due_without_a_frame() {
    let mut encode = state();
    let mut pipeline = Pipeline::new();
    encode.push_mic(&[1; 479]);
    assert!(matches!(pipeline.step(&mut encode, FrameEvent::Next), FrameAction::Wait));
    assert_eq!(pipeline.stage, FrameStage::Idle);
}

#[test]
fn a_frame_goes_the_short_way() {
    let mut encode = state();
    let mut pipeline = Pipeline::new();
    encode.push_mic(&[7; 500]);
    let frame = match pipeline.step(&mut encode, FrameEvent::Next) {
        FrameAction::Measure { frame } => frame,
        _ => panic!("expected a measurement"),
    };
    assert_eq!(frame, vec![7; 480]);
    assert_eq!(encode.mic_buffer, vec![7; 20]);
    match pipeline.step(
        &mut encode,
        FrameEvent::Measured { frame, voiced: true, silent_nanos: 0 },
    ) {
        FrameAction::Encode { frame, sequence, orders, report } => {
            assert_eq!(frame.len(), 480);
            assert_eq!(sequence, 0);
            assert_eq!(orders.len(), 4);
            assert_eq!(orders[0], EncoderCommand::SetBitrate(32000));
            assert_eq!(report, Some(ClientMessage::SetSilence(false)));
        }
        _ => panic!("expected encoding"),
    }
    match pipeline.step(&mut encode, FrameEvent::Encoded(Some(vec![1, 2]))) {
        FrameAction::Send { datagram } => assert_eq!(datagram, vec![0, 0, 0, 0, 1, 2]),
        _ => panic!("expected sending"),
    }
    assert_eq!(encode.total_bytes_sent, 6);
    assert_eq!(encode.next_send_sequence, 1);
}

#[test]
fn a_frame_goes_the_long_way() {
    let mut encode = state();
    encode.echo_cancellation_enabled = true;
    encode.denoise_method = DenoiseMethod::RNNoise;
    let mut pipeline = Pipeline::new();
    encode.push_mic(&[3; 480]);
    encode.push_far_end(&[4; 10]);
    let frame = match pipeline.step(&mut encode, FrameEvent::Next) {
        FrameAction::Cancel { frame, render } => {
            assert_eq!(render.len(), 960);
            assert_eq!(&render[..11], &[4, 4, 4, 4, 4, 4, 4, 4, 4, 4, 0]);
            frame
        }
        _ => panic!("expected cancelling"),
    };
    let frame = match pipeline.step(&mut encode, FrameEvent::Cancelled(frame)) {
        FrameAction::Clean { frame, how } => {
            assert_eq!(how, DenoiseAction::RNNoise { block: 480 });
            frame
        }
        _ => panic!("expected cleaning"),
    };
    match pipeline.step(&mut encode, FrameEvent::Cleaned(frame)) {
        FrameAction::Measure { frame } => assert_eq!(frame, vec![3; 480]),
        _ => panic!("expected a measurement"),
    }
    assert_eq!(pipeline.stage, FrameStage::Measuring);
}

#[test]
fn silent_frames_take_no_number() {
    let mut encode = state();
    let mut pipeline = Pipeline::new();
    encode.push_mic(&[0; 480]);
    let frame = match pipeline.step(&mut encode, FrameEvent::Next) {
        FrameAction::Measure { frame } => frame,
        _ => panic!("expected a measurement"),
    };
    match pipeline.step(
        &mut encode,
        FrameEvent::Measured { frame, voiced: false, silent_nanos: 5 },
    ) {
        FrameAction::Skip { orders, report } => {
            assert!(orders.is_empty());
            assert_eq!(report, None);
        }
        _ => panic!("expected a skip"),
    }
    assert_eq!(encode.next_send_sequence, 0);
    assert_eq!(pipeline.stage, FrameStage::Idle);
}

#[test]
fn a_lost_frame_takes_a_number() {
    let mut encode = state();
    let mut pipeline = Pipeline::new();
    for round in 0..3u32 {
        encode.push_mic(&[1; 480]);
        let frame = match pipeline.step(&mut encode, FrameEvent::Next) {
            FrameAction::Measure { frame } => frame,
            _ => panic!("expected a measurement"),
        };
        match pipeline.step(
            &mut encode,
            FrameEvent::Measured { frame, voiced: true, silent_nanos: 0 },
        ) {
            FrameAction::Encode { sequence, .. } => assert_eq!(sequence, round),
            _ => panic!("expected encoding"),
        }
        assert!(matches!(
            pipeline.step(&mut encode, FrameEvent::Encoded(None)),
            FrameAction::Lose
        ));
    }
    assert_eq!(encode.next_send_sequence, 3);
    assert_eq!(encode.total_bytes_sent, 0);
}
