//! What holds of single calls, whatever they are called on.

use crate::client::ClientState;
use crate::encode::{EncodeState, EncoderCommand, VadOutcome};
use crate::error::ProxaError;
use crate::peer::PeerState;
use crate::protocol::{ClientMessage, ServerMessage};
use crate::types::Channels;
use vstd::prelude::*;

verus! {

/// A client starts out silent and with nothing to send: its encoder was made for voice and then
/// told to idle, and nothing is done to the microphone's sound.
pub proof fn law_sending_starts_in_silence<S: Copy>(
    channels: Channels,
    samples_per_frame: usize,
    low_delay: bool,
    ready: bool,
    path: Option<String>,
    silence: S,
    made: (EncodeState<S>, Vec<EncoderCommand>),
)
    requires
        call_ensures(
            EncodeState::<S>::new,
            (channels, samples_per_frame, low_delay, ready, path, silence),
            made,
        ),
    ensures
        ({
            let (state, orders) = made;
            &&& state.is_throttled && state.target_bitrate == 32000
            &&& state.encoder.bitrate == 8000 && !state.encoder.inband_fec
            &&& state.encoder.packet_loss_perc == 0 && state.actual_loss_perc == 0
            &&& state.encoder.channels == channels && state.channels == channels
            &&& state.encoder.low_delay == low_delay && state.use_low_delay == low_delay
            &&& state.samples_per_frame == samples_per_frame && state.silence == silence
            &&& state.mic_buffer@.len() == 0 && state.far_end_buffer@.len() == 0
            &&& state.denoise_method is Off && !state.echo_cancellation_enabled
            &&& !state.auto_normalize && !state.dfn3_loading && state.dfn3_ready == ready
            &&& state.dfn3_model_path is Some <==> path is Some
            &&& state.next_send_sequence == 0 && state.total_bytes_sent == 0
            &&& orders@ =~= seq![
                EncoderCommand::SetBitrate(32000),
                EncoderCommand::SetInbandFec(true),
                EncoderCommand::SetPacketLossPerc(0),
                EncoderCommand::SetBitrate(8000),
                EncoderCommand::SetInbandFec(false),
                EncoderCommand::SetPacketLossPerc(0),
            ]
        }),
{
    assert(made.0@.mic.len() == 0 && made.0@.far_end.len() == 0);
    assert(made.0@.dfn3_path is Some <==> path is Some);
}

/// What a microphone records waits behind what it recorded before, and nothing of it is lost.
pub proof fn law_recorded_samples_wait_in_order<S: Copy>(state: &mut EncodeState<S>, pcm: &[S])
    requires
        call_ensures(EncodeState::<S>::push_mic, (state, pcm), ()),
    ensures
        final(state).mic_buffer@ == old(state).mic_buffer@ + pcm@,
        final(state).far_end_buffer@ == old(state).far_end_buffer@,
        final(state).next_send_sequence == old(state).next_send_sequence,
        final(state).is_throttled == old(state).is_throttled,
        final(state).encoder == old(state).encoder,
{
    assert(final(state)@.mic == old(state)@.mic + pcm@);
}

/// Of what the speakers play, half a second of stereo at most is remembered, and always the newest.
pub proof fn law_played_samples_are_remembered_for_a_while<S: Copy>(
    state: &mut EncodeState<S>,
    pcm: &[S],
    i: int,
)
    requires
        call_ensures(EncodeState::<S>::push_far_end, (state, pcm), ()),
        0 <= i < final(state).far_end_buffer@.len(),
    ensures
        ({
            let all = old(state).far_end_buffer@ + pcm@;
            let kept = final(state).far_end_buffer@;
            &&& kept.len() == all.len() || kept.len() == 48000 && all.len() > 48000
            &&& kept[i] == all[all.len() - kept.len() + i]
        }),
        final(state).mic_buffer@ == old(state).mic_buffer@,
{
    assert(final(state)@.far_end == crate::encode::newest(
        old(state)@.far_end + pcm@,
        48000,
    ));
    assert(final(state)@.mic == old(state)@.mic);
}

/// Once enough samples wait for a frame, they are taken off the front; before that, nothing is.
pub proof fn law_frames_wait_until_they_are_whole<S: Copy>(
    state: &mut EncodeState<S>,
    frame: Option<Vec<S>>,
)
    requires
        call_ensures(EncodeState::<S>::next_frame, (state,), frame),
    ensures
        frame is Some <==> old(state).mic_buffer@.len() >= old(state).samples_per_frame,
        frame matches Some(samples) ==> {
            &&& samples@.len() == old(state).samples_per_frame
            &&& old(state).mic_buffer@ =~= samples@ + final(state).mic_buffer@
        },
        frame is None ==> final(state).mic_buffer@ == old(state).mic_buffer@,
{
    assert(old(state)@.mic == old(state).mic_buffer@);
    assert(final(state)@.mic == final(state).mic_buffer@);
}

/// A model that was loaded is ready, and one that could not be loaded is given up. Either way it is
/// no longer waited for, and one that was ready before stays so.
pub proof fn law_failed_models_are_given_up<S: Copy>(state: &mut EncodeState<S>, ok: bool)
    requires
        call_ensures(EncodeState::<S>::dfn3_loaded, (state, ok), ()),
    ensures
        !final(state).dfn3_loading,
        ok ==> final(state).dfn3_ready,
        !ok ==> final(state).dfn3_ready == old(state).dfn3_ready,
        !ok ==> final(state).dfn3_model_path is None,
        ok ==> (final(state).dfn3_model_path is Some <==> old(state).dfn3_model_path is Some),
        final(state).denoise_method == old(state).denoise_method,
{
    assert(final(state)@.dfn3_path is Some <==> final(state).dfn3_model_path is Some);
    assert(old(state)@.dfn3_path is Some <==> old(state).dfn3_model_path is Some);
}

/// A bitrate is remembered even where the encoder refused it. The encoder hears of it at once while
/// somebody speaks, and only its refusal is an error.
pub proof fn law_bitrates_are_remembered<S: Copy>(
    state: &mut EncodeState<S>,
    bitrate: i32,
    told: Result<(), String>,
    result: Result<(), ProxaError>,
)
    requires
        call_ensures(EncodeState::<S>::set_bitrate, (state, bitrate, told), result),
    ensures
        final(state).target_bitrate == bitrate,
        old(state).is_throttled ==> result is Ok && final(state).encoder == old(state).encoder,
        !old(state).is_throttled ==> {
            &&& final(state).encoder.bitrate == bitrate
            &&& result is Err <==> told is Err
        },
        result matches Err(error) ==> error is BitrateChange,
        final(state).is_throttled == old(state).is_throttled,
        final(state).actual_loss_perc == old(state).actual_loss_perc,
{
    assert(final(state)@.bitrate == final(state).target_bitrate);
}

/// The relay is told of silence as it is, when a session begins and when voice sets in or ends.
pub proof fn law_the_relay_knows_of_silence<S: Copy>(
    state: &mut EncodeState<S>,
    voiced: bool,
    silent_nanos: u64,
    outcome: VadOutcome,
    report: ClientMessage,
)
    requires
        call_ensures(EncodeState::<S>::handle_vad, (state, voiced, silent_nanos), outcome),
        call_ensures(EncodeState::<S>::silence_report, (&*final(state),), report),
    ensures
        report == ClientMessage::SetSilence(final(state).is_throttled),
        outcome.throttled == final(state).is_throttled,
        outcome.report is Some <==> final(state).is_throttled != old(state).is_throttled,
        outcome.report matches Some(told) ==> told == report,
        voiced ==> !final(state).is_throttled,
        !voiced && silent_nanos > 500_000_000 ==> final(state).is_throttled,
        !voiced && silent_nanos <= 500_000_000 ==> final(state).is_throttled
            == old(state).is_throttled,
{
    assert(final(state)@.is_throttled == final(state).is_throttled);
}

/// Packets are numbered one after the other, and every byte that goes out is counted.
pub proof fn law_packets_are_numbered_and_counted<S: Copy>(
    state: &mut EncodeState<S>,
    sequence: u32,
)
    requires
        old(state).next_send_sequence < u32::MAX,
        call_ensures(EncodeState::<S>::claim_sequence, (state,), sequence),
    ensures
        sequence == old(state).next_send_sequence,
        final(state).next_send_sequence == sequence + 1,
        final(state).total_bytes_sent == old(state).total_bytes_sent,
{
    assert(final(state)@.next_sequence == final(state).next_send_sequence);
    assert(final(state)@.bytes_sent == final(state).total_bytes_sent);
}

/// A datagram is four bytes longer than what it carries, and counts as sent with all of them.
pub proof fn law_sent_bytes_are_counted<S: Copy>(
    state: &mut EncodeState<S>,
    sequence: u32,
    payload: &[u8],
    datagram: Vec<u8>,
)
    requires
        call_ensures(EncodeState::<S>::pack_frame, (state, sequence, payload), datagram),
    ensures
        datagram@.len() == payload@.len() + 4,
        datagram@.skip(4) =~= payload@,
        final(state).total_bytes_sent == old(state).total_bytes_sent + datagram@.len(),
        final(state).next_send_sequence == old(state).next_send_sequence,
{
    assert(final(state)@.next_sequence == final(state).next_send_sequence);
    assert(final(state)@.bytes_sent == final(state).total_bytes_sent);
}

/// A room starts with nobody in it, and with the sound on.
pub proof fn law_rooms_start_empty<S: Copy>(
    channels: Channels,
    samples_per_frame: usize,
    silence: S,
    state: ClientState<S>,
    id: u32,
)
    requires
        call_ensures(ClientState::<S>::new, (channels, samples_per_frame, silence), state),
    ensures
        !state.peers@.contains_key(id),
        !state.mute_output,
        state.sfx is None,
        state.channels == channels,
        state.samples_per_frame == samples_per_frame,
        state.silence == silence,
{
    assert(!state@.peers.contains_key(id));
    assert(state@.sfx is None);
}

/// A sound starts from its beginning, in place of one that was still under way. Where there is no
/// sound to play, the one under way goes on.
pub proof fn law_sounds_start_from_the_beginning<S: Copy>(
    state: &mut ClientState<S>,
    pcm: Option<Vec<S>>,
)
    requires
        call_ensures(ClientState::<S>::play_sfx, (state, pcm), ()),
    ensures
        pcm matches Some(samples) ==> (final(state).sfx matches Some(sfx) && sfx.position == 0
            && sfx.pcm@ == samples@),
        pcm is None ==> final(state)@ == old(state)@,
        final(state)@.peers == old(state)@.peers,
        final(state).mute_output == old(state).mute_output,
{
    assert(final(state)@.mute_output == final(state).mute_output);
    if let Some(samples) = pcm {
        assert(final(state)@.sfx is Some);
    }
}

/// With another layout the relay is told its count of channels, and nothing but a refusal of the
/// encoder is an error. Where the layout stays, or the encoder refused, all stays as it was.
pub proof fn law_switches_are_all_or_nothing<S: Copy>(
    state: &mut ClientState<S>,
    encode: &mut EncodeState<S>,
    channels: Channels,
    samples_per_frame: usize,
    made: Result<(), String>,
    result: Result<Option<ClientMessage>, ProxaError>,
)
    requires
        call_ensures(
            ClientState::<S>::switch_channels,
            (state, encode, channels, samples_per_frame, made),
            result,
        ),
    ensures
        ({
            let switches = channels != old(encode).channels && made is Ok;
            &&& result is Err <==> channels != old(encode).channels && made is Err
            &&& result matches Err(error) ==> error is ChannelSwitch
            &&& !switches ==> final(state)@ == old(state)@ && final(encode)@ == old(encode)@
            &&& !switches && result is Ok ==> result->Ok_0 is None
            &&& switches ==> {
                &&& result->Ok_0 == Some(
                    ClientMessage::SetChannels(if channels is Stereo { 2u8 } else { 1u8 }),
                )
                &&& final(state).channels == channels && final(encode).channels == channels
                &&& final(state).samples_per_frame == samples_per_frame
                &&& final(encode).samples_per_frame == samples_per_frame
                &&& final(encode).encoder.channels == channels
            }
        }),
{
    assert(final(encode)@.channels == final(encode).channels);
    assert(final(state)@.channels == final(state).channels);
}

/// Of the relay's messages only the loss that it measured concerns the encoder: it is remembered,
/// and the encoder expects it at once while somebody speaks.
pub proof fn law_measured_loss_reaches_the_encoder<S: Copy>(
    state: &mut ClientState<S>,
    msg: ServerMessage,
    encode: &mut EncodeState<S>,
    ready: bool,
    effect: crate::client::ServerEffect,
)
    requires
        call_ensures(
            ClientState::<S>::handle_server_message,
            (state, msg, encode, ready),
            effect,
        ),
    ensures
        !(msg is TargetLossRate) ==> final(encode)@ == old(encode)@,
        msg matches ServerMessage::TargetLossRate { percent } ==> {
            &&& final(encode).actual_loss_perc == percent
            &&& !old(encode).is_throttled ==> final(encode).encoder.packet_loss_perc == percent
            &&& old(encode).is_throttled ==> final(encode).encoder == old(encode).encoder
            &&& final(encode).target_bitrate == old(encode).target_bitrate
            &&& final(encode).is_throttled == old(encode).is_throttled
        },
{
    assert(final(encode)@.loss_perc == final(encode).actual_loss_perc);
    assert(final(encode)@.bitrate == final(encode).target_bitrate);
}

/// Once fifty frames were expected, they are reported with those that were lost of them, and
/// counting starts over. Before that nothing changes, and nothing else ever does.
pub proof fn law_windows_of_fifty_are_closed<S: Copy>(
    peer: &mut PeerState<S>,
    window: Option<(u32, u32)>,
)
    requires
        call_ensures(PeerState::<S>::take_loss_window, (peer,), window),
    ensures
        window is Some <==> old(peer).stat_expected >= 50,
        window matches Some((lost, expected)) ==> {
            &&& lost == old(peer).stat_lost && expected == old(peer).stat_expected
            &&& final(peer).stat_lost == 0 && final(peer).stat_expected == 0
        },
        window is None ==> final(peer)@ == old(peer)@,
        final(peer).total_lost == old(peer).total_lost,
        final(peer).total_expected == old(peer).total_expected,
        final(peer).buffer@ == old(peer).buffer@,
        final(peer)@.jitter == old(peer)@.jitter,
        final(peer).next_decode_seq == old(peer).next_decode_seq,
{
    assert(final(peer)@.stat_lost == final(peer).stat_lost);
    assert(final(peer)@.total_lost == final(peer).total_lost);
    assert(final(peer)@.next == final(peer).next_decode_seq);
    assert(final(peer)@.buffer == final(peer).buffer@);
}

/// A frame is made of the stereo frames before it, at it and behind it, as long as enough of them
/// wait. At the very beginning the first frame stands for the one before it.
pub proof fn law_frames_have_neighbours<S: Copy>(
    peer: &PeerState<S>,
    frame: usize,
    taps: Option<(usize, usize, usize, usize)>,
)
    requires
        call_ensures(PeerState::<S>::taps, (peer, frame), taps),
    ensures
        taps is Some <==> frame + frame + 6 < peer.buffer@.len(),
        taps matches Some((before, at, next, last)) ==> {
            &&& at == frame + frame
            &&& next == at + 2
            &&& last == at + 4
            &&& frame == 0 ==> before == at
            &&& frame > 0 ==> before + 2 == at
        },
{
}

} // verus!
