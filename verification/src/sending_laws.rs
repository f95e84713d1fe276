//! What holds of a microphone frame on its way to the relay, and of what the encoder is told.

use crate::encode::{DenoiseView, EncodeView, EncoderCommand, EncoderSettings};
use crate::pipeline::{frame_step, FrameActionView, FrameEventView, FrameStage};
use crate::protocol::ClientMessage;
use crate::types::{Channels, DenoiseMethod};
use vstd::prelude::*;

verus! {

/// The frame that an action carries.
pub open spec fn carried<S>(action: FrameActionView<S>) -> Option<Seq<S>> {
    match action {
        FrameActionView::Cancel { frame, .. } => Some(frame),
        FrameActionView::Clean { frame, .. } => Some(frame),
        FrameActionView::Measure { frame } => Some(frame),
        FrameActionView::Encode { frame, .. } => Some(frame),
        _ => None,
    }
}

/// A frame is as many samples as one has, off the front of those that wait; without so many there
/// is none, and nothing changes.
pub proof fn law_frames_are_cut_from_the_front<S>(v: EncodeView<S>)
    requires
        0 <= v.samples_per_frame,
    ensures
        ({
            let len = v.samples_per_frame;
            let (stage, w, action) = frame_step(FrameStage::Idle, v, FrameEventView::Next);
            &&& v.mic.len() < len ==> stage is Idle && w == v && action is Wait
            &&& v.mic.len() >= len ==> {
                &&& carried(action) matches Some(frame) && frame.len() == len && forall|i: int|
                    0 <= i < len ==> #[trigger] frame[i] == v.mic[i]
                &&& w.mic.len() == v.mic.len() - len
                &&& forall|i: int| 0 <= i < w.mic.len() ==> #[trigger] w.mic[i] == v.mic[i + len]
            }
        }),
{
}

/// Echo is cancelled exactly when that is wanted and a frame holds a whole block of 480 samples a
/// channel: for each block, as many stereo samples are taken off the front of what was played, with
/// silence where there are too few. Otherwise what was played stays.
pub proof fn law_echo_is_cancelled_by_blocks<S>(v: EncodeView<S>, blocks: int)
    requires
        0 <= v.samples_per_frame <= v.mic.len(),
        v.channels is Mono ==> 480 * blocks <= v.samples_per_frame < 480 * (blocks + 1),
        v.channels is Stereo ==> 960 * blocks <= v.samples_per_frame < 960 * (blocks + 1),
    ensures
        ({
            let (stage, w, action) = frame_step(FrameStage::Idle, v, FrameEventView::Next);
            let played = v.far_end;
            if v.echo_cancellation && blocks > 0 {
                &&& stage is Cancelling
                &&& action matches FrameActionView::Cancel { render, .. } && render.len() == 960
                    * blocks && forall|i: int|
                    0 <= i < render.len() ==> #[trigger] render[i] == if i < played.len() {
                        played[i]
                    } else {
                        v.silence
                    }
                &&& played.len() >= 960 * blocks ==> w.far_end == played.skip(960 * blocks)
                &&& played.len() < 960 * blocks ==> w.far_end.len() == 0
                &&& w == (EncodeView { mic: w.mic, far_end: w.far_end, ..v })
            } else {
                !(action is Cancel) && w.far_end == played
            }
        }),
{
    let len = v.samples_per_frame;
    assert(v.blocks(len) == blocks) by {
        if v.channels is Mono {
            assert(len / 480 == blocks);
        } else {
            assert(len / 960 == blocks);
        }
    }
}

/// A frame goes on to noise reduction by the method that is wanted, and past it only where none
/// is: whether it comes straight from the microphone or from echo cancellation. RNNoise works on
/// blocks of 480 samples a channel. DeepFilterNet runs once its model is there; a model that is
/// missing, known by its path and not on its way yet is asked for, and then counts as on its way.
pub open spec fn goes_to_denoising<S>(
    v: EncodeView<S>,
    frame: Seq<S>,
    stage: FrameStage,
    w: EncodeView<S>,
    action: FrameActionView<S>,
) -> bool {
    let asks = !v.dfn3_ready && !v.dfn3_loading && v.dfn3_path is Some;
    match v.denoise_method {
        DenoiseMethod::Off => {
            &&& stage is Measuring
            &&& action == (FrameActionView::Measure { frame })
            &&& w == v
        },
        DenoiseMethod::RNNoise => {
            &&& stage is Cleaning
            &&& action == (FrameActionView::Clean {
                frame,
                how: DenoiseView::RNNoise {
                    block: if v.channels is Stereo {
                        960
                    } else {
                        480
                    },
                },
            })
            &&& w == v
        },
        DenoiseMethod::DFN3 => {
            &&& stage is Cleaning
            &&& action == (FrameActionView::Clean {
                frame,
                how: DenoiseView::DFN3 {
                    load: if asks {
                        v.dfn3_path
                    } else {
                        None
                    },
                    run: v.dfn3_ready,
                },
            })
            &&& w == (EncodeView { dfn3_loading: v.dfn3_loading || asks, ..v })
        },
    }
}

/// No frame is measured before its noise was reduced by the method that is wanted.
pub proof fn law_noise_is_reduced_as_wanted<S>(v: EncodeView<S>, frame: Seq<S>)
    requires
        0 <= v.samples_per_frame,
    ensures
        ({
            let (stage, w, action) = frame_step(
                FrameStage::Cancelling,
                v,
                FrameEventView::Cancelled(frame),
            );
            goes_to_denoising(v, frame, stage, w, action)
        }),
        ({
            let (stage, w, action) = frame_step(FrameStage::Idle, v, FrameEventView::Next);
            v.mic.len() >= v.samples_per_frame && !(action is Cancel) ==> goes_to_denoising(
                EncodeView { mic: v.mic.skip(v.samples_per_frame), ..v },
                v.mic.take(v.samples_per_frame),
                stage,
                w,
                action,
            )
        }),
        frame_step(FrameStage::Cleaning, v, FrameEventView::Cleaned(frame)) == (
            FrameStage::Measuring,
            v,
            FrameActionView::Measure { frame },
        ),
{
    let x = v.framed();
    assert(x == EncodeView { mic: v.mic.skip(v.samples_per_frame), ..v });
    assert(v.cleaned() =~= EncodeView { dfn3_loading: v.cleaned().dfn3_loading, ..v });
}

/// A frame that reaches measuring comes out of a cleaning, or none was wanted.
pub proof fn law_measuring_follows_cleaning<S>(
    stage: FrameStage,
    v: EncodeView<S>,
    event: FrameEventView<S>,
)
    requires
        frame_step(stage, v, event).2 is Measure,
    ensures
        v.denoise_method is Off || stage is Cleaning,
{
}

/// A frame that was measured is sent if it holds voice, or if the last voice is half a second ago
/// at most and the client does not count as silent already. It is then encoded as it came, under
/// the next number; a silent one takes no number.
pub proof fn law_voice_and_what_follows_it_are_sent<S>(
    v: EncodeView<S>,
    frame: Seq<S>,
    voiced: bool,
    silent_nanos: int,
)
    requires
        0 <= v.next_sequence <= u32::MAX,
    ensures
        ({
            let (stage, w, action) = frame_step(
                FrameStage::Measuring,
                v,
                FrameEventView::Measured { frame, voiced, silent_nanos },
            );
            let sent = voiced || (!v.is_throttled && silent_nanos <= 500_000_000);
            &&& w.is_throttled == !sent
            &&& sent ==> {
                &&& stage == FrameStage::Encoding(v.next_sequence as u32)
                &&& action is Encode
                &&& carried(action) == Some(frame)
                &&& action matches FrameActionView::Encode { sequence, .. } && sequence
                    == v.next_sequence
                &&& w.next_sequence == v.next_sequence + 1
            }
            &&& !sent ==> {
                &&& stage is Idle
                &&& action is Skip
                &&& w.next_sequence == v.next_sequence
            }
            &&& w == (EncodeView {
                is_throttled: w.is_throttled,
                encoder: w.encoder,
                next_sequence: w.next_sequence,
                ..v
            })
        }),
{
}

/// The orders and the report that an action carries.
pub open spec fn passed_on<S>(action: FrameActionView<S>) -> (
    Seq<EncoderCommand>,
    Option<ClientMessage>,
) {
    match action {
        FrameActionView::Skip { orders, report } => (orders, report),
        FrameActionView::Encode { orders, report, .. } => (orders, report),
        _ => (Seq::empty(), None),
    }
}

/// Who starts to speak has the encoder put to work, with the bitrate and the loss that are wanted,
/// redundancy, and a fresh start; who falls silent has it idle, at 8000 bits a second at most and
/// without redundancy. The relay hears of either, and of nothing else; and nobody else is told
/// anything.
pub proof fn law_changes_of_voice_are_passed_on<S>(
    v: EncodeView<S>,
    frame: Seq<S>,
    voiced: bool,
    silent_nanos: int,
)
    requires
        v.wf(),
    ensures
        ({
            let (_, w, action) = frame_step(
                FrameStage::Measuring,
                v,
                FrameEventView::Measured { frame, voiced, silent_nanos },
            );
            let (orders, report) = passed_on(action);
            let speaks_up = voiced && v.is_throttled;
            let falls_silent = !voiced && !v.is_throttled && silent_nanos > 500_000_000;
            &&& speaks_up ==> {
                &&& orders == seq![
                    EncoderCommand::SetBitrate(v.bitrate),
                    EncoderCommand::SetInbandFec(true),
                    EncoderCommand::SetPacketLossPerc(v.loss_perc),
                    EncoderCommand::ResetState,
                ]
                &&& report == Some(ClientMessage::SetSilence(false))
                &&& w.encoder.bitrate == v.bitrate
                &&& w.encoder.inband_fec
                &&& w.encoder.packet_loss_perc == v.loss_perc
            }
            &&& falls_silent ==> {
                let low = if v.bitrate <= 8000 {
                    v.bitrate
                } else {
                    8000
                };
                &&& orders == seq![
                    EncoderCommand::SetBitrate(low),
                    EncoderCommand::SetInbandFec(false),
                    EncoderCommand::SetPacketLossPerc(0),
                ]
                &&& report == Some(ClientMessage::SetSilence(true))
                &&& w.encoder.bitrate == low
                &&& !w.encoder.inband_fec
                &&& w.encoder.packet_loss_perc == 0
            }
            &&& !speaks_up && !falls_silent ==> orders.len() == 0 && report is None && w.encoder
                == v.encoder
            &&& w.encoder.channels == v.encoder.channels
            &&& w.encoder.low_delay == v.encoder.low_delay
        }),
{
    if voiced && v.is_throttled {
        crate::encode::law_voice_is_sent(v, silent_nanos);
        assert(v.vad_orders(voiced, silent_nanos) =~= seq![
            EncoderCommand::SetBitrate(v.bitrate),
            EncoderCommand::SetInbandFec(true),
            EncoderCommand::SetPacketLossPerc(v.loss_perc),
            EncoderCommand::ResetState,
        ]);
    } else if !voiced && !v.is_throttled && silent_nanos > 500_000_000 {
        crate::encode::law_silence_is_cheap(v, silent_nanos);
    }
}

/// An encoded frame is sent at once as a datagram: its number, lowest byte first, and then the
/// frame. It counts with all these bytes. A frame that could not be encoded, or was dropped on
/// purpose, is lost, and nothing changes.
pub proof fn law_encoded_frames_are_sent<S>(v: EncodeView<S>, sequence: u32, data: Seq<u8>)
    ensures
        ({
            let (stage, w, action) = frame_step(
                FrameStage::Encoding(sequence),
                v,
                FrameEventView::Encoded(Some(data)),
            );
            &&& stage is Idle
            &&& action matches FrameActionView::Send { datagram } && {
                &&& datagram.len() == data.len() + 4
                &&& datagram[0] + 0x100 * datagram[1] + 0x10000 * datagram[2] + 0x1000000
                    * datagram[3] == sequence
                &&& datagram.skip(4) == data
            }
            &&& w == (EncodeView { bytes_sent: v.bytes_sent + data.len() + 4, ..v })
        }),
        frame_step(FrameStage::Encoding(sequence), v, FrameEventView::Encoded(None)) == (
            FrameStage::Idle,
            v,
            FrameActionView::<S>::Lose,
        ),
{
    let datagram = crate::protocol::client_packet_bytes(sequence, data);
    assert(datagram.skip(4) =~= data);
    assert(datagram.subrange(0, 4) =~= crate::bytes::le_bytes(sequence));
    crate::bytes::lemma_le_round_trip(sequence, datagram, 0);
}

/// A frame waits in each stage for what was asked for.
pub proof fn law_stages_wait_for_their_answer<S>(stage: FrameStage, event: FrameEventView<S>)
    ensures
        crate::pipeline::frame_expects(stage, event) <==> match event {
            FrameEventView::Next => stage is Idle,
            FrameEventView::Cancelled(_) => stage is Cancelling,
            FrameEventView::Cleaned(_) => stage is Cleaning,
            FrameEventView::Measured { .. } => stage is Measuring,
            FrameEventView::Encoded(_) => stage is Encoding,
        },
{
}

/// There is no room for a step only where a frame would be sent under a number past the last one,
/// or its bytes no longer fit the counter.
pub proof fn law_room_ends_with_the_numbers_and_bytes<S>(
    stage: FrameStage,
    v: EncodeView<S>,
    event: FrameEventView<S>,
)
    ensures
        crate::pipeline::frame_has_room(stage, v, event) == match (stage, event) {
            (FrameStage::Measuring, FrameEventView::Measured { voiced, silent_nanos, .. }) => {
                let sent = voiced || (!v.is_throttled && silent_nanos <= 500_000_000);
                !sent || v.next_sequence < 0xffff_ffff
            },
            (FrameStage::Encoding(_), FrameEventView::Encoded(Some(data))) => v.bytes_sent
                + data.len() + 4 <= 0xffff_ffff_ffff_ffff,
            _ => true,
        },
{
}

/// Of what the speakers played, the newest 48000 samples are kept, in order.
pub proof fn law_the_newest_samples_are_kept<S>(samples: Seq<S>)
    ensures
        ({
            let kept = crate::encode::newest(samples, crate::encode::MAX_FAR_END as int);
            &&& samples.len() <= 48000 ==> kept == samples
            &&& samples.len() > 48000 ==> kept.len() == 48000
            &&& forall|i: int|
                0 <= i < kept.len() ==> #[trigger] kept[i] == samples[samples.len() - kept.len()
                    + i]
        }),
{
}

/// The loss and the bitrate that are wanted are noted at once; the encoder is told of them now if
/// somebody speaks, and else when somebody does.
pub proof fn law_wishes_reach_the_encoder_in_time<S>(
    v: EncodeView<S>,
    percent: i32,
    bitrate: i32,
    silent_nanos: int,
)
    requires
        v.wf(),
    ensures
        ({
            let w = v.loss_noted(percent);
            &&& w == (EncodeView { loss_perc: percent, encoder: w.encoder, ..v })
            &&& w.wf()
            &&& v.is_throttled ==> v.loss_order(percent) is None && w.encoder == v.encoder
            &&& !v.is_throttled ==> v.loss_order(percent) == Some(
                EncoderCommand::SetPacketLossPerc(percent),
            ) && w.encoder == (EncoderSettings { packet_loss_perc: percent, ..v.encoder })
            &&& w.heard(true, silent_nanos).encoder.packet_loss_perc == percent
        }),
        v.bitrate_order(bitrate) == if v.is_throttled {
            None
        } else {
            Some(EncoderCommand::SetBitrate(bitrate))
        },
        (EncodeView { bitrate, ..v }).is_throttled ==> (EncodeView { bitrate, ..v }).heard(
            true,
            silent_nanos,
        ).encoder.bitrate == bitrate,
{
    let w = v.loss_noted(percent);
    crate::encode::law_voice_is_sent(w, silent_nanos);
    if v.is_throttled {
        crate::encode::law_voice_is_sent(EncodeView { bitrate, ..v }, silent_nanos);
    }
}

/// A switch to another layout drops the samples of the old one and sets an encoder of the new one
/// up for speech, with the bitrate and the loss that are wanted. Nothing else changes, and with the
/// same layout nothing at all.
pub proof fn law_layouts_are_switched<S>(
    v: EncodeView<S>,
    channels: Channels,
    samples_per_frame: int,
)
    ensures
        ({
            let w = v.relaid(channels, samples_per_frame);
            &&& channels == v.channels ==> w == v
            &&& channels != v.channels ==> {
                &&& w.mic.len() == 0
                &&& w.encoder == (EncoderSettings {
                    channels,
                    low_delay: v.low_delay,
                    bitrate: v.bitrate,
                    inband_fec: true,
                    packet_loss_perc: v.loss_perc,
                })
                &&& w == (EncodeView {
                    channels,
                    samples_per_frame,
                    mic: w.mic,
                    encoder: w.encoder,
                    ..v
                })
            }
        }),
{
}

/// An order changes the one setting that it names.
pub proof fn law_orders_set_what_they_name(settings: EncoderSettings, command: EncoderCommand)
    ensures
        ({
            let after = settings.told(command);
            &&& after.channels == settings.channels
            &&& after.low_delay == settings.low_delay
            &&& match command {
                EncoderCommand::SetBitrate(bitrate) => after.bitrate == bitrate,
                _ => after.bitrate == settings.bitrate,
            }
            &&& match command {
                EncoderCommand::SetInbandFec(on) => after.inband_fec == on,
                _ => after.inband_fec == settings.inband_fec,
            }
            &&& match command {
                EncoderCommand::SetPacketLossPerc(percent) => after.packet_loss_perc == percent,
                _ => after.packet_loss_perc == settings.packet_loss_perc,
            }
        }),
{
}

/// Another model is to be loaded anew when it is needed, and nothing else changes.
pub proof fn law_another_model_is_loaded_anew<S>(v: EncodeView<S>, path: Seq<char>)
    ensures
        v.pointed(path) == (EncodeView { dfn3_path: Some(path), dfn3_ready: false, ..v }),
{
}

} // verus!
