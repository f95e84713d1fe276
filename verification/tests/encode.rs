use proxa::encode::{DenoiseAction, EncodeState, EncoderCommand, EncoderSettings};
use proxa::error::ProxaError;
use proxa::protocol::ClientMessage;
use proxa::types::{Channels, DenoiseMethod, VoiceState};

const HALF_SECOND: u64 = 500000000;

fn mono() -> EncodeState<f32> {
    EncodeState::new(Channels::Mono, 480, false, false, None, 0.0).0
}

fn speaking() -> EncodeState<f32> {
    let mut state = mono();
    state.handle_vad(true, 0);
    state
}

#[test]
fn a_client_starts_silent() {
    let (state, orders) =
        EncodeState::new(Channels::Stereo, 960, true, false, Some("models".to_string()), 0.0f32);
    assert!(state.is_throttled);
    assert_eq!(
        orders,
        vec![
            EncoderCommand::SetBitrate(32000),
            EncoderCommand::SetInbandFec(true),
            EncoderCommand::SetPacketLossPerc(0),
            EncoderCommand::SetBitrate(8000),
            EncoderCommand::SetInbandFec(false),
            EncoderCommand::SetPacketLossPerc(0),
        ]
    );
    assert_eq!(
        state.encoder,
        EncoderSettings {
            channels: Channels::Stereo,
            low_delay: true,
            bitrate: 8000,
            inband_fec: false,
            packet_loss_perc: 0,
        }
    );
    assert_eq!(state.target_bitrate, 32000);
    assert_eq!(state.next_send_sequence, 0);
    assert_eq!(state.total_bytes_sent, 0);
    assert_eq!(state.denoise_method, DenoiseMethod::Off);
    assert!(!state.echo_cancellation_enabled);
    assert_eq!(state.silence_report(), ClientMessage::SetSilence(true));
}

#[test]
fn voice_wakes_the_encoder() {
    let mut state = mono();
    state.set_target_loss(7);
    let outcome = state.handle_vad(true, 0);
    assert!(!outcome.throttled);
    assert_eq!(
        outcome.commands,
        vec![
            EncoderCommand::SetBitrate(32000),
            EncoderCommand::SetInbandFec(true),
            EncoderCommand::SetPacketLossPerc(7),
            EncoderCommand::ResetState,
        ]
    );
    assert_eq!(outcome.report, Some(ClientMessage::SetSilence(false)));
    assert_eq!(state.encoder.packet_loss_perc, 7);
    let again = state.handle_vad(true, 0);
    assert!(!again.throttled);
    assert!(again.commands.is_empty());
    assert_eq!(again.report, None);
}

#[test]
fn silence_counts_after_half_a_second() {
    let mut state = speaking();
    let early = state.handle_vad(false, HALF_SECOND);
    assert!(!early.throttled);
    assert!(early.commands.is_empty());
    assert_eq!(early.report, None);
    let late = state.handle_vad(false, HALF_SECOND + 1);
    assert!(late.throttled);
    assert_eq!(
        late.commands,
        vec![
            EncoderCommand::SetBitrate(8000),
            EncoderCommand::SetInbandFec(false),
            EncoderCommand::SetPacketLossPerc(0),
        ]
    );
    assert_eq!(late.report, Some(ClientMessage::SetSilence(true)));
    let more = state.handle_vad(false, 10 * HALF_SECOND);
    assert!(more.throttled);
    assert!(more.commands.is_empty());
    assert_eq!(more.report, None);
}

#[test]
fn a_pause_is_undone() {
    let mut state = speaking();
    assert_eq!(state.set_bitrate(64000, Ok(())), Ok(()));
    state.set_target_loss(12);
    let before = state.encoder;
    state.handle_vad(false, HALF_SECOND + 1);
    assert_ne!(state.encoder, before);
    state.handle_vad(true, 0);
    assert_eq!(state.encoder, before);
}

#[test]
fn a_low_bitrate_stays_low_in_silence() {
    let mut state = speaking();
    assert_eq!(state.set_bitrate(6000, Ok(())), Ok(()));
    let outcome = state.handle_vad(false, HALF_SECOND + 1);
    assert_eq!(outcome.commands[0], EncoderCommand::SetBitrate(6000));
    assert_eq!(state.encoder.bitrate, 6000);
}

#[test]
fn bitrate_waits_for_voice() {
    let mut state = mono();
    assert_eq!(state.plan_bitrate(48000), None);
    assert_eq!(state.set_bitrate(48000, Ok(())), Ok(()));
    assert_eq!(state.encoder.bitrate, 8000);
    state.handle_vad(true, 0);
    assert_eq!(state.encoder.bitrate, 48000);
    assert_eq!(state.plan_bitrate(24000), Some(EncoderCommand::SetBitrate(24000)));
    assert_eq!(state.set_bitrate(24000, Ok(())), Ok(()));
    assert_eq!(state.encoder.bitrate, 24000);
    assert_eq!(state.target_bitrate, 24000);
}

#[test]
fn a_bitrate_that_was_refused_is_noted() {
    let mut state = speaking();
    assert_eq!(
        state.set_bitrate(5, Err("too low".to_string())),
        Err(ProxaError::BitrateChange("too low".to_string()))
    );
    assert_eq!(state.target_bitrate, 5);
    let mut quiet = mono();
    assert_eq!(quiet.set_bitrate(5, Err("not asked".to_string())), Ok(()));
    assert_eq!(quiet.target_bitrate, 5);
}

#[test]
fn a_switch_that_fails_changes_nothing() {
    let mut state = speaking();
    state.push_mic(&[0.5; 100]);
    let before = state.encoder;
    assert_eq!(
        state.switch_channels(Channels::Stereo, 960, Err("no encoder".to_string())),
        Err(ProxaError::ChannelSwitch("no encoder".to_string()))
    );
    assert_eq!(state.channels, Channels::Mono);
    assert_eq!(state.encoder, before);
    assert_eq!(state.mic_buffer.len(), 100);
    assert_eq!(state.switch_channels(Channels::Mono, 1, Err("x".to_string())), Ok(false));
    assert_eq!(state.mic_buffer.len(), 100);
    assert_eq!(state.switch_channels(Channels::Stereo, 960, Ok(())), Ok(true));
    assert_eq!((state.channels, state.samples_per_frame), (Channels::Stereo, 960));
    assert!(state.mic_buffer.is_empty());
}

#[test]
fn a_model_is_replaced_by_one_elsewhere() {
    let mut state = mono();
    assert!(state.point_dfn3("a".to_string(), true));
    state.dfn3_ready = true;
    assert!(!state.point_dfn3("b".to_string(), true));
    assert_eq!(state.dfn3_model_path, Some("a".to_string()));
    assert!(state.point_dfn3("b".to_string(), false));
    assert_eq!(state.dfn3_model_path, Some("b".to_string()));
    assert!(!state.dfn3_ready);
    assert!(state.point_dfn3("c".to_string(), true));
    assert_eq!(state.dfn3_model_path, Some("c".to_string()));
}

#[test]
fn odd_model_paths_are_compared_by_the_system() {
    let mut state = mono();
    assert!(state.load_dfn3_models("c:models".to_string()));
    state.dfn3_ready = true;
    assert!(!state.load_dfn3_models("c:models".to_string()));
    assert!(!state.load_dfn3_models("c:models/".to_string()));
    assert!(state.load_dfn3_models("c:model".to_string()));
}

#[test]
fn loss_waits_for_voice() {
    let mut state = mono();
    assert_eq!(state.set_target_loss(30), None);
    assert_eq!(state.actual_loss_perc, 30);
    assert_eq!(state.encoder.packet_loss_perc, 0);
    state.handle_vad(true, 0);
    assert_eq!(state.set_target_loss(5), Some(EncoderCommand::SetPacketLossPerc(5)));
    assert_eq!(state.encoder.packet_loss_perc, 5);
}

#[test]
fn layout_switch() {
    let mut state = speaking();
    state.push_mic(&[0.5; 100]);
    assert_eq!(state.plan_channels(Channels::Mono), None);
    assert_eq!(
        state.plan_channels(Channels::Stereo),
        Some(vec![
            EncoderCommand::SetBitrate(32000),
            EncoderCommand::SetInbandFec(true),
            EncoderCommand::SetPacketLossPerc(0),
        ])
    );
    state.set_channels(Channels::Stereo, 960);
    assert_eq!(state.channels, Channels::Stereo);
    assert_eq!(state.encoder.channels, Channels::Stereo);
    assert_eq!(state.samples_per_frame, 960);
    assert!(state.mic_buffer.is_empty());
    state.push_mic(&[0.5; 10]);
    state.set_channels(Channels::Stereo, 1);
    assert_eq!(state.samples_per_frame, 960);
    assert_eq!(state.mic_buffer.len(), 10);
    state.set_channels(Channels::Mono, 480);
    assert_eq!((state.channels, state.samples_per_frame), (Channels::Mono, 480));
}

#[test]
fn frames_are_cut_from_the_microphone() {
    let mut state = EncodeState::new(Channels::Mono, 3, false, false, None, 0).0;
    state.push_mic(&[1, 2]);
    assert_eq!(state.next_frame(), None);
    state.push_mic(&[3, 4, 5, 6, 7]);
    assert_eq!(state.next_frame(), Some(vec![1, 2, 3]));
    assert_eq!(state.next_frame(), Some(vec![4, 5, 6]));
    assert_eq!(state.next_frame(), None);
    assert_eq!(state.mic_buffer, vec![7]);
}

#[test]
fn old_far_end_samples_go() {
    let mut state = EncodeState::new(Channels::Mono, 3, false, false, None, 0u32).0;
    let first: Vec<u32> = (0..47999).collect();
    state.push_far_end(&first);
    assert_eq!(state.far_end_buffer.len(), 47999);
    state.push_far_end(&[100000, 100001, 100002]);
    assert_eq!(state.far_end_buffer.len(), 48000);
    assert_eq!(state.far_end_buffer[0], 2);
    assert_eq!(state.far_end_buffer[47999], 100002);
}

#[test]
fn echo_cancellation_takes_matching_blocks() {
    let mut state = EncodeState::new(Channels::Mono, 960, false, false, None, 0u32).0;
    let far: Vec<u32> = (1..=1000).collect();
    state.push_far_end(&far);
    assert_eq!(state.process_aec(960), None);
    state.echo_cancellation_enabled = true;
    assert_eq!(state.process_aec(479), None);
    let render = state.process_aec(480).unwrap();
    assert_eq!(render, far[..960].to_vec());
    assert_eq!(state.far_end_buffer, far[960..].to_vec());
    let render = state.process_aec(1000).unwrap();
    assert_eq!(render.len(), 1920);
    assert_eq!(&render[..40], &far[960..]);
    assert!(render[40..].iter().all(|s| *s == 0));
    assert!(state.far_end_buffer.is_empty());
}

#[test]
fn echo_cancellation_of_a_stereo_microphone() {
    let mut state = EncodeState::new(Channels::Stereo, 960, false, false, None, 0u32).0;
    state.echo_cancellation_enabled = true;
    assert_eq!(state.process_aec(959), None);
    assert_eq!(state.process_aec(960).unwrap(), vec![0; 960]);
}

#[test]
fn noise_reduction_by_method() {
    let mut state = EncodeState::new(Channels::Stereo, 960, false, false, None, 0.0f32).0;
    assert_eq!(state.process_denoise(), DenoiseAction::Off);
    state.denoise_method = DenoiseMethod::RNNoise;
    assert_eq!(state.process_denoise(), DenoiseAction::RNNoise { block: 960 });
    state.denoise_method = DenoiseMethod::DFN3;
    assert_eq!(state.process_denoise(), DenoiseAction::DFN3 { load: None, run: false });
    assert!(!state.dfn3_loading);
    let mut mono = mono();
    mono.denoise_method = DenoiseMethod::RNNoise;
    assert_eq!(mono.process_denoise(), DenoiseAction::RNNoise { block: 480 });
}

#[test]
fn a_model_is_asked_for_once() {
    let mut state = mono();
    state.denoise_method = DenoiseMethod::DFN3;
    assert!(state.load_dfn3_models("models".to_string()));
    assert_eq!(
        state.process_denoise(),
        DenoiseAction::DFN3 { load: Some("models".to_string()), run: false }
    );
    assert_eq!(state.process_denoise(), DenoiseAction::DFN3 { load: None, run: false });
    state.dfn3_loaded(true);
    assert_eq!(state.process_denoise(), DenoiseAction::DFN3 { load: None, run: true });
    assert!(!state.load_dfn3_models("models".to_string()));
    assert!(!state.load_dfn3_models("models/".to_string()));
    assert_eq!(state.dfn3_model_path, Some("models".to_string()));
    assert!(state.dfn3_ready);
    assert!(state.load_dfn3_models("other".to_string()));
    assert!(!state.dfn3_ready);
    assert_eq!(
        state.process_denoise(),
        DenoiseAction::DFN3 { load: Some("other".to_string()), run: false }
    );
}

#[test]
fn a_model_that_fails_is_given_up() {
    let mut state = mono();
    state.denoise_method = DenoiseMethod::DFN3;
    state.load_dfn3_models("bad".to_string());
    state.process_denoise();
    state.dfn3_loaded(false);
    assert_eq!(state.dfn3_model_path, None);
    assert_eq!(state.process_denoise(), DenoiseAction::DFN3 { load: None, run: false });
}

#[test]
fn numbers_and_datagrams() {
    let mut state = mono();
    assert_eq!(state.claim_sequence(), 0);
    assert_eq!(state.claim_sequence(), 1);
    assert_eq!(state.pack_frame(1, &[9, 9]), vec![1, 0, 0, 0, 9, 9]);
    assert_eq!(state.total_bytes_sent, 6);
    state.pack_frame(2, &[]);
    assert_eq!(state.total_bytes_sent, 10);
}

#[test]
fn voice_states() {
    let mut state = mono();
    assert_eq!(state.get_voice_state(true), VoiceState::Silenced);
    assert_eq!(state.get_voice_state(false), VoiceState::Silenced);
    state.handle_vad(true, 0);
    assert_eq!(state.get_voice_state(true), VoiceState::Speaking);
    assert_eq!(state.get_voice_state(false), VoiceState::Waiting);
}
