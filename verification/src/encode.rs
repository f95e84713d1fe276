//! The sending side: what is done with the microphone signal, when the client counts as silent,
//! and what the encoder is told.

use crate::error::ProxaError;
use crate::paths::names_same_place;
use crate::protocol::{ClientAudioPacket, ClientMessage};
use crate::samples::{append_samples, pad, take_front};
use crate::types::{Channels, DenoiseMethod, VoiceState, SILENCE_BITRATE};
use vstd::prelude::*;

verus! {

/// The bitrate a client starts with.
pub const DEFAULT_BITRATE: i32 = 32000;

/// Frames of time that echo cancellation and noise reduction work on at once: 10 ms.
pub const BLOCK_FRAMES: usize = 480;

/// The most far-end samples that wait for echo cancellation.
pub const MAX_FAR_END: usize = 48000;

/// Silence of more than half a second ends an utterance.
pub const VOICE_HOLD_NANOS: u64 = 500000000;

/// What an encoder was last told, whether or not it could comply.
#[derive(Debug, Clone, Copy, PartialEq, Eq, Structural)]
pub struct EncoderSettings {
    pub channels: Channels,
    pub low_delay: bool,
    pub bitrate: i32,
    pub inband_fec: bool,
    pub packet_loss_perc: i32,
}

/// An order to the encoder.
#[derive(Debug, Clone, Copy, PartialEq, Eq, Structural)]
pub enum EncoderCommand {
    SetBitrate(i32),
    SetInbandFec(bool),
    SetPacketLossPerc(i32),
    ResetState,
}

impl EncoderSettings {
    /// The settings after an order.
    pub open spec fn told(self, command: EncoderCommand) -> Self {
        match command {
            EncoderCommand::SetBitrate(bitrate) => EncoderSettings { bitrate, ..self },
            EncoderCommand::SetInbandFec(inband_fec) => EncoderSettings { inband_fec, ..self },
            EncoderCommand::SetPacketLossPerc(packet_loss_perc) => EncoderSettings {
                packet_loss_perc,
                ..self
            },
            EncoderCommand::ResetState => self,
        }
    }

    /// The settings after a series of orders.
    pub open spec fn told_all(self, commands: Seq<EncoderCommand>) -> Self
        decreases commands.len(),
    {
        if commands.len() == 0 {
            self
        } else {
            self.told_all(commands.drop_last()).told(commands.last())
        }
    }
}

/// The lower of two bitrates.
pub open spec fn lower(a: i32, b: i32) -> i32 {
    if a <= b {
        a
    } else {
        b
    }
}

/// The orders that put an encoder to work: the bitrate, redundancy for lost frames, and the loss
/// to expect.
pub open spec fn speaking_orders(bitrate: i32, loss: i32) -> Seq<EncoderCommand> {
    seq![
        EncoderCommand::SetBitrate(bitrate),
        EncoderCommand::SetInbandFec(true),
        EncoderCommand::SetPacketLossPerc(loss),
    ]
}

/// The orders that let an encoder idle.
pub open spec fn idling_orders(bitrate: i32) -> Seq<EncoderCommand> {
    seq![
        EncoderCommand::SetBitrate(lower(bitrate, SILENCE_BITRATE)),
        EncoderCommand::SetInbandFec(false),
        EncoderCommand::SetPacketLossPerc(0),
    ]
}

/// What comes of a frame's voice activity.
#[derive(Debug, Clone, PartialEq, Eq)]
pub struct VadOutcome {
    /// The frame is not sent.
    pub throttled: bool,
    /// What to tell the encoder.
    pub commands: Vec<EncoderCommand>,
    /// What to tell the relay.
    pub report: Option<ClientMessage>,
}

/// What noise reduction is to do.
#[derive(Debug, Clone, PartialEq, Eq)]
pub enum DenoiseAction {
    Off,
    /// Clean every whole block of so many samples.
    RNNoise { block: usize },
    /// Load the model at `load`, if any, and clean the frame if the model is there.
    DFN3 { load: Option<String>, run: bool },
}

/// What noise reduction is to do, with the path as a sequence.
pub enum DenoiseView {
    Off,
    RNNoise { block: int },
    DFN3 { load: Option<Seq<char>>, run: bool },
}

impl View for DenoiseAction {
    type V = DenoiseView;

    open spec fn view(&self) -> DenoiseView {
        match self {
            DenoiseAction::Off => DenoiseView::Off,
            DenoiseAction::RNNoise { block } => DenoiseView::RNNoise { block: *block as int },
            DenoiseAction::DFN3 { load, run } => DenoiseView::DFN3 {
                load: match load {
                    Some(path) => Some(path@),
                    None => None,
                },
                run: *run,
            },
        }
    }
}

/// The state of the sending side.
pub struct EncodeState<S> {
    /// The sample that sounds like nothing.
    pub silence: S,
    pub mic_buffer: Vec<S>,
    pub far_end_buffer: Vec<S>,
    pub encoder: EncoderSettings,
    pub channels: Channels,
    pub samples_per_frame: usize,
    pub denoise_method: DenoiseMethod,
    pub echo_cancellation_enabled: bool,
    pub dfn3_ready: bool,
    pub dfn3_model_path: Option<String>,
    pub dfn3_loading: bool,
    pub use_low_delay: bool,
    pub next_send_sequence: u32,
    pub target_bitrate: i32,
    pub is_throttled: bool,
    pub actual_loss_perc: i32,
    pub auto_normalize: bool,
    pub total_bytes_sent: u64,
}

/// The state of the sending side, as mathematics.
#[verifier::ext_equal]
pub struct EncodeView<S> {
    pub silence: S,
    pub mic: Seq<S>,
    pub far_end: Seq<S>,
    pub encoder: EncoderSettings,
    pub channels: Channels,
    pub samples_per_frame: int,
    pub denoise_method: DenoiseMethod,
    pub echo_cancellation: bool,
    pub dfn3_ready: bool,
    pub dfn3_path: Option<Seq<char>>,
    pub dfn3_loading: bool,
    pub low_delay: bool,
    pub next_sequence: int,
    pub bitrate: i32,
    pub is_throttled: bool,
    pub loss_perc: i32,
    pub auto_normalize: bool,
    pub bytes_sent: int,
}

impl<S> View for EncodeState<S> {
    type V = EncodeView<S>;

    open spec fn view(&self) -> EncodeView<S> {
        EncodeView {
            silence: self.silence,
            mic: self.mic_buffer@,
            far_end: self.far_end_buffer@,
            encoder: self.encoder,
            channels: self.channels,
            samples_per_frame: self.samples_per_frame as int,
            denoise_method: self.denoise_method,
            echo_cancellation: self.echo_cancellation_enabled,
            dfn3_ready: self.dfn3_ready,
            dfn3_path: match self.dfn3_model_path {
                Some(path) => Some(path@),
                None => None,
            },
            dfn3_loading: self.dfn3_loading,
            low_delay: self.use_low_delay,
            next_sequence: self.next_send_sequence as int,
            bitrate: self.target_bitrate,
            is_throttled: self.is_throttled,
            loss_perc: self.actual_loss_perc,
            auto_normalize: self.auto_normalize,
            bytes_sent: self.total_bytes_sent as int,
        }
    }
}

impl<S> EncodeView<S> {
    /// What the encoder should be told while somebody speaks.
    pub open spec fn speaking(self) -> EncoderSettings {
        EncoderSettings {
            channels: self.channels,
            low_delay: self.low_delay,
            bitrate: self.bitrate,
            inband_fec: true,
            packet_loss_perc: self.loss_perc,
        }
    }

    /// What the encoder is told while nobody speaks.
    pub open spec fn idling(self) -> EncoderSettings {
        EncoderSettings {
            channels: self.channels,
            low_delay: self.low_delay,
            bitrate: lower(self.bitrate, SILENCE_BITRATE),
            inband_fec: false,
            packet_loss_perc: 0,
        }
    }

    /// The encoder was made for the layout that is sent. While somebody speaks, it also knows
    /// the bitrate and the loss that are wanted. And no more far-end samples wait than can be of
    /// use.
    pub open spec fn wf(self) -> bool {
        &&& self.encoder.channels == self.channels
        &&& self.encoder.low_delay == self.low_delay
        &&& !self.is_throttled ==> self.encoder == self.speaking()
        &&& self.far_end.len() <= MAX_FAR_END
    }

    /// Somebody starts to speak.
    pub open spec fn wakes(self, voiced: bool) -> bool {
        voiced && self.is_throttled
    }

    /// Nobody has spoken for long enough.
    pub open spec fn dozes(self, voiced: bool, silent_nanos: int) -> bool {
        !voiced && !self.is_throttled && silent_nanos > VOICE_HOLD_NANOS
    }

    /// The orders that a frame's voice activity gives rise to.
    pub open spec fn vad_orders(self, voiced: bool, silent_nanos: int) -> Seq<EncoderCommand> {
        if self.wakes(voiced) {
            speaking_orders(self.bitrate, self.loss_perc).push(EncoderCommand::ResetState)
        } else if self.dozes(voiced, silent_nanos) {
            idling_orders(self.bitrate)
        } else {
            Seq::empty()
        }
    }

    /// What the relay is told of a frame's voice activity: that silence has begun or ended.
    pub open spec fn vad_report(self, voiced: bool, silent_nanos: int) -> Option<bool> {
        if self.wakes(voiced) {
            Some(false)
        } else if self.dozes(voiced, silent_nanos) {
            Some(true)
        } else {
            None
        }
    }

    /// The state after a frame's voice activity.
    pub open spec fn heard(self, voiced: bool, silent_nanos: int) -> Self {
        EncodeView {
            is_throttled: if self.wakes(voiced) {
                false
            } else if self.dozes(voiced, silent_nanos) {
                true
            } else {
                self.is_throttled
            },
            encoder: self.encoder.told_all(self.vad_orders(voiced, silent_nanos)),
            ..self
        }
    }

    /// Whole blocks in a microphone frame of so many samples.
    pub open spec fn blocks(self, frame_len: int) -> int {
        frame_len / (BLOCK_FRAMES * self.channels.width())
    }

    /// The far-end samples that belong to a microphone frame; the speakers are always stereo.
    pub open spec fn render_len(self, frame_len: int) -> int {
        self.blocks(frame_len) * BLOCK_FRAMES * 2
    }

    /// There is something to cancel.
    pub open spec fn cancels(self, frame_len: int) -> bool {
        self.echo_cancellation && self.blocks(frame_len) > 0
    }

    /// The far-end samples to cancel, filled up with silence.
    pub open spec fn render(self, frame_len: int) -> Seq<S> {
        filled(self.far_end, self.render_len(frame_len), self.silence)
    }

    /// The far-end samples have been used up.
    pub open spec fn rendered(self, frame_len: int) -> Self {
        let wanted = self.render_len(frame_len);
        EncodeView {
            far_end: if wanted <= self.far_end.len() {
                self.far_end.skip(wanted)
            } else {
                Seq::empty()
            },
            ..self
        }
    }

    /// A whole frame of microphone samples waits.
    pub open spec fn has_frame(self) -> bool {
        self.mic.len() >= self.samples_per_frame
    }

    /// The frame that waits.
    pub open spec fn frame(self) -> Seq<S> {
        self.mic.take(self.samples_per_frame)
    }

    /// The frame that waited has been taken.
    pub open spec fn framed(self) -> Self {
        EncodeView { mic: self.mic.skip(self.samples_per_frame), ..self }
    }

    /// What noise reduction does with the next frame.
    pub open spec fn cleaning(self) -> DenoiseView {
        match self.denoise_method {
            DenoiseMethod::Off => DenoiseView::Off,
            DenoiseMethod::RNNoise => DenoiseView::RNNoise {
                block: BLOCK_FRAMES * self.channels.width(),
            },
            DenoiseMethod::DFN3 => DenoiseView::DFN3 {
                load: if self.wants_model() {
                    self.dfn3_path
                } else {
                    None
                },
                run: self.dfn3_ready,
            },
        }
    }

    /// Noise reduction has been asked what to do, and a model that it lacks is on its way.
    pub open spec fn cleaned(self) -> Self {
        EncodeView {
            dfn3_loading: self.dfn3_loading || (self.denoise_method is DFN3
                && self.wants_model()),
            ..self
        }
    }

    /// A sequence number has been given to a frame.
    pub open spec fn claimed(self) -> Self {
        EncodeView { next_sequence: self.next_sequence + 1, ..self }
    }

    /// A datagram for a payload of so many bytes has been made.
    pub open spec fn packed(self, payload: int) -> Self {
        EncodeView { bytes_sent: self.bytes_sent + 4 + payload, ..self }
    }

    /// What the encoder is told of another loss.
    pub open spec fn loss_order(self, percent: i32) -> Option<EncoderCommand> {
        if self.is_throttled {
            None
        } else {
            Some(EncoderCommand::SetPacketLossPerc(percent))
        }
    }

    /// The encoder hears of another bitrate at once only while somebody speaks.
    pub open spec fn bitrate_order(self, bitrate: i32) -> Option<EncoderCommand> {
        if self.is_throttled {
            None
        } else {
            Some(EncoderCommand::SetBitrate(bitrate))
        }
    }

    /// Another loss is to be guarded against.
    pub open spec fn loss_noted(self, percent: i32) -> Self {
        EncodeView {
            loss_perc: percent,
            encoder: match self.loss_order(percent) {
                Some(order) => self.encoder.told(order),
                None => self.encoder,
            },
            ..self
        }
    }

    /// A switch of layout.
    pub open spec fn relaid(self, channels: Channels, samples_per_frame: int) -> Self {
        if channels == self.channels {
            self
        } else {
            let v = EncodeView { channels, samples_per_frame, mic: Seq::empty(), ..self };
            EncodeView { encoder: v.speaking(), ..v }
        }
    }

    /// Another model is to be loaded when it is needed.
    pub open spec fn pointed(self, path: Seq<char>) -> Self {
        EncodeView { dfn3_path: Some(path), dfn3_ready: false, ..self }
    }

    /// A model has to be loaded before it can be used.
    pub open spec fn wants_model(self) -> bool {
        !self.dfn3_ready && self.dfn3_path is Some && !self.dfn3_loading
    }
}

/// The newest samples, at most `limit` of them.
pub open spec fn newest<S>(samples: Seq<S>, limit: int) -> Seq<S> {
    if samples.len() <= limit {
        samples
    } else {
        samples.skip(samples.len() - limit)
    }
}

/// The first `len` samples, with silence where there are none.
pub open spec fn filled<S>(samples: Seq<S>, len: int, silence: S) -> Seq<S> {
    Seq::new(
        len as nat,
        |i: int|
            if i < samples.len() {
                samples[i]
            } else {
                silence
            },
    )
}

/// A frame of stereo blocks is at most twice as long as the mono frame it belongs to.
proof fn lemma_render_bound<S>(v: EncodeView<S>, frame_len: int)
    requires
        0 <= frame_len,
    ensures
        0 <= v.render_len(frame_len) <= 2 * frame_len,
{
    let block = BLOCK_FRAMES * v.channels.width();
    let blocks = v.blocks(frame_len);
    assert(block == 480 || block == 960);
    assert(0 <= 480 * blocks <= frame_len) by (nonlinear_arith)
        requires
            block == 480 || block == 960,
            blocks == frame_len / block,
            0 <= frame_len,
    ;
}

/// Orders one after the other.
proof fn lemma_told_all_push(
    settings: EncoderSettings,
    commands: Seq<EncoderCommand>,
    command: EncoderCommand,
)
    ensures
        settings.told_all(commands.push(command)) == settings.told_all(commands).told(command),
{
    assert(commands.push(command).drop_last() =~= commands);
}

/// Three orders in a row.
proof fn lemma_told_three(
    settings: EncoderSettings,
    a: EncoderCommand,
    b: EncoderCommand,
    c: EncoderCommand,
)
    ensures
        settings.told_all(seq![a, b, c]) == settings.told(a).told(b).told(c),
{
    let none = Seq::<EncoderCommand>::empty();
    lemma_told_all_push(settings, none, a);
    lemma_told_all_push(settings, none.push(a), b);
    lemma_told_all_push(settings, none.push(a).push(b), c);
    assert(seq![a, b, c] =~= none.push(a).push(b).push(c));
}

/// What the relay was last told of silence stays true: it hears of every change, and of the new
/// state.
pub proof fn law_relay_knows_silence<S>(v: EncodeView<S>, voiced: bool, silent_nanos: int)
    ensures
        match v.vad_report(voiced, silent_nanos) {
            Some(silent) => v.heard(voiced, silent_nanos).is_throttled == silent
                && v.is_throttled != silent,
            None => v.heard(voiced, silent_nanos).is_throttled == v.is_throttled,
        },
{
}

/// A frame that changes nothing about silence changes nothing at all, and gives the encoder no
/// orders.
pub proof fn law_orders_come_with_changes<S>(v: EncodeView<S>, voiced: bool, silent_nanos: int)
    ensures
        v.vad_report(voiced, silent_nanos) is None <==> v.vad_orders(voiced, silent_nanos).len()
            == 0,
        v.vad_report(voiced, silent_nanos) is None ==> v.heard(voiced, silent_nanos) == v,
{
}

/// Voice always gets through: after a voiced frame nobody counts as silent, and the encoder is
/// set up for speech.
pub proof fn law_voice_is_sent<S>(v: EncodeView<S>, silent_nanos: int)
    requires
        v.wf(),
    ensures
        !v.heard(true, silent_nanos).is_throttled,
        v.heard(true, silent_nanos).encoder == v.speaking(),
{
    if v.is_throttled {
        lemma_told_three(
            v.encoder,
            EncoderCommand::SetBitrate(v.bitrate),
            EncoderCommand::SetInbandFec(true),
            EncoderCommand::SetPacketLossPerc(v.loss_perc),
        );
        lemma_told_all_push(
            v.encoder,
            speaking_orders(v.bitrate, v.loss_perc),
            EncoderCommand::ResetState,
        );
    }
}

/// A pause costs nothing: when a speaker falls silent and speaks up again, the state is the one
/// from before the pause.
pub proof fn law_pause_is_undone<S>(v: EncodeView<S>, silent_nanos: int, later_nanos: int)
    requires
        v.wf(),
        !v.is_throttled,
    ensures
        v.heard(false, silent_nanos).heard(true, later_nanos) == v,
{
    if v.dozes(false, silent_nanos) {
        lemma_told_three(
            v.encoder,
            EncoderCommand::SetBitrate(lower(v.bitrate, SILENCE_BITRATE)),
            EncoderCommand::SetInbandFec(false),
            EncoderCommand::SetPacketLossPerc(0),
        );
        let w = v.heard(false, silent_nanos);
        assert(w.wf());
        law_voice_is_sent(w, later_nanos);
    }
}

/// While nobody speaks, the encoder never gets more than the bitrate that silence needs.
pub proof fn law_silence_is_cheap<S>(v: EncodeView<S>, silent_nanos: int)
    requires
        v.wf(),
        v.dozes(false, silent_nanos),
    ensures
        v.heard(false, silent_nanos).encoder == v.idling(),
        v.heard(false, silent_nanos).encoder.bitrate <= SILENCE_BITRATE,
        v.heard(false, silent_nanos).encoder.bitrate <= v.bitrate,
        !v.heard(false, silent_nanos).encoder.inband_fec,
{
    lemma_told_three(
        v.encoder,
        EncoderCommand::SetBitrate(lower(v.bitrate, SILENCE_BITRATE)),
        EncoderCommand::SetInbandFec(false),
        EncoderCommand::SetPacketLossPerc(0),
    );
}

/// Switching the layout twice leads back, but for the samples that were dropped and for an
/// encoder that is set up for speech.
pub proof fn law_layout_switch_is_undone<S>(v: EncodeView<S>, channels: Channels, len: int)
    requires
        v.wf(),
        channels != v.channels,
    ensures
        v.relaid(channels, len).wf(),
        v.relaid(channels, len).relaid(v.channels, v.samples_per_frame) == (EncodeView {
            mic: Seq::empty(),
            encoder: v.speaking(),
            ..v
        }),
{
}

impl<S: Copy> EncodeState<S> {
    /// A client that has not spoken yet, and the orders for its encoder.
    pub fn new(
        channels: Channels,
        samples_per_frame: usize,
        use_low_delay: bool,
        dfn3_ready: bool,
        dfn3_model_path: Option<String>,
        silence: S,
    ) -> (result: (Self, Vec<EncoderCommand>))
        ensures
            result.0@.wf(),
            result.1@ == speaking_orders(DEFAULT_BITRATE, 0) + idling_orders(DEFAULT_BITRATE),
            result.0@ == (EncodeView {
                silence,
                mic: Seq::empty(),
                far_end: Seq::empty(),
                encoder: EncoderSettings {
                    channels,
                    low_delay: use_low_delay,
                    bitrate: 8000,
                    inband_fec: false,
                    packet_loss_perc: 0,
                },
                channels,
                samples_per_frame: samples_per_frame as int,
                denoise_method: DenoiseMethod::Off,
                echo_cancellation: false,
                dfn3_ready,
                dfn3_path: match dfn3_model_path {
                    Some(path) => Some(path@),
                    None => None,
                },
                dfn3_loading: false,
                low_delay: use_low_delay,
                next_sequence: 0,
                bitrate: DEFAULT_BITRATE,
                is_throttled: true,
                loss_perc: 0,
                auto_normalize: false,
                bytes_sent: 0,
            }),
    {
        let mut commands: Vec<EncoderCommand> = Vec::new();
        commands.push(EncoderCommand::SetBitrate(DEFAULT_BITRATE));
        commands.push(EncoderCommand::SetInbandFec(true));
        commands.push(EncoderCommand::SetPacketLossPerc(0));
        commands.push(EncoderCommand::SetBitrate(SILENCE_BITRATE));
        commands.push(EncoderCommand::SetInbandFec(false));
        commands.push(EncoderCommand::SetPacketLossPerc(0));
        assert(commands@ =~= speaking_orders(DEFAULT_BITRATE, 0) + idling_orders(DEFAULT_BITRATE));
        let state = EncodeState {
            silence,
            mic_buffer: Vec::new(),
            far_end_buffer: Vec::new(),
            encoder: EncoderSettings {
                channels,
                low_delay: use_low_delay,
                bitrate: SILENCE_BITRATE,
                inband_fec: false,
                packet_loss_perc: 0,
            },
            channels,
            samples_per_frame,
            denoise_method: DenoiseMethod::Off,
            echo_cancellation_enabled: false,
            dfn3_ready,
            dfn3_model_path,
            dfn3_loading: false,
            use_low_delay,
            next_send_sequence: 0,
            target_bitrate: DEFAULT_BITRATE,
            is_throttled: true,
            actual_loss_perc: 0,
            auto_normalize: false,
            total_bytes_sent: 0,
        };
        (state, commands)
    }

    /// Decides whether the client is silent, from whether a frame holds voice and how long ago
    /// the last one did.
    pub fn handle_vad(&mut self, voiced: bool, silent_nanos: u64) -> (outcome: VadOutcome)
        requires
            old(self)@.wf(),
        ensures
            final(self)@ == old(self)@.heard(voiced, silent_nanos as int),
            final(self)@.wf(),
            outcome.throttled == final(self)@.is_throttled,
            outcome.commands@ == old(self)@.vad_orders(voiced, silent_nanos as int),
            old(self)@.wakes(voiced) ==> final(self)@.encoder == old(self)@.speaking(),
            old(self)@.dozes(voiced, silent_nanos as int) ==> final(self)@.encoder
                == old(self)@.idling(),
            outcome.report == match old(self)@.vad_report(voiced, silent_nanos as int) {
                Some(silent) => Some(ClientMessage::SetSilence(silent)),
                None => None,
            },
    {
        let mut commands: Vec<EncoderCommand> = Vec::new();
        let mut report: Option<ClientMessage> = None;
        if voiced {
            if self.is_throttled {
                commands.push(EncoderCommand::SetBitrate(self.target_bitrate));
                commands.push(EncoderCommand::SetInbandFec(true));
                commands.push(EncoderCommand::SetPacketLossPerc(self.actual_loss_perc));
                proof {
                    lemma_told_three(
                        self.encoder,
                        EncoderCommand::SetBitrate(self.target_bitrate),
                        EncoderCommand::SetInbandFec(true),
                        EncoderCommand::SetPacketLossPerc(self.actual_loss_perc),
                    );
                    lemma_told_all_push(
                        self.encoder,
                        speaking_orders(self.target_bitrate, self.actual_loss_perc),
                        EncoderCommand::ResetState,
                    );
                }
                commands.push(EncoderCommand::ResetState);
                self.encoder.bitrate = self.target_bitrate;
                self.encoder.inband_fec = true;
                self.encoder.packet_loss_perc = self.actual_loss_perc;
                self.is_throttled = false;
                report = Some(ClientMessage::SetSilence(false));
            }
        } else if !self.is_throttled && silent_nanos > VOICE_HOLD_NANOS {
            let low: i32 = if self.target_bitrate <= SILENCE_BITRATE {
                self.target_bitrate
            } else {
                SILENCE_BITRATE
            };
            commands.push(EncoderCommand::SetBitrate(low));
            commands.push(EncoderCommand::SetInbandFec(false));
            commands.push(EncoderCommand::SetPacketLossPerc(0));
            proof {
                lemma_told_three(
                    self.encoder,
                    EncoderCommand::SetBitrate(low),
                    EncoderCommand::SetInbandFec(false),
                    EncoderCommand::SetPacketLossPerc(0),
                );
            }
            self.encoder.bitrate = low;
            self.encoder.inband_fec = false;
            self.encoder.packet_loss_perc = 0;
            self.is_throttled = true;
            report = Some(ClientMessage::SetSilence(true));
        }
        assert(commands@ =~= old(self)@.vad_orders(voiced, silent_nanos as int));
        assert(self@ =~= old(self)@.heard(voiced, silent_nanos as int));
        VadOutcome { throttled: self.is_throttled, commands, report }
    }

    /// What the relay has to know of silence when a session begins.
    pub fn silence_report(&self) -> (report: ClientMessage)
        ensures
            report == ClientMessage::SetSilence(self@.is_throttled),
    {
        ClientMessage::SetSilence(self.is_throttled)
    }

    /// Takes microphone samples in.
    pub fn push_mic(&mut self, pcm: &[S])
        requires
            old(self)@.wf(),
        ensures
            final(self)@ == (EncodeView { mic: old(self)@.mic + pcm@, ..old(self)@ }),
            final(self)@.wf(),
    {
        append_samples(&mut self.mic_buffer, pcm);
    }

    /// Takes in what the speakers play, and forgets what is too old to echo.
    pub fn push_far_end(&mut self, pcm: &[S])
        requires
            old(self)@.wf(),
        ensures
            final(self)@ == (EncodeView {
                far_end: newest(old(self)@.far_end + pcm@, MAX_FAR_END as int),
                ..old(self)@
            }),
            final(self)@.wf(),
    {
        append_samples(&mut self.far_end_buffer, pcm);
        let len: usize = self.far_end_buffer.len();
        if len > MAX_FAR_END {
            let _ = take_front(&mut self.far_end_buffer, len - MAX_FAR_END);
        }
        assert(self@.far_end =~= newest(old(self)@.far_end + pcm@, MAX_FAR_END as int));
    }

    /// The next whole frame of microphone samples, once there is one.
    pub fn next_frame(&mut self) -> (frame: Option<Vec<S>>)
        requires
            old(self)@.wf(),
        ensures
            match frame {
                Some(samples) => {
                    &&& old(self)@.has_frame()
                    &&& samples@ == old(self)@.frame()
                    &&& final(self)@ == old(self)@.framed()
                },
                None => !old(self)@.has_frame() && final(self)@ == old(self)@,
            },
            final(self)@.wf(),
    {
        if self.mic_buffer.len() < self.samples_per_frame {
            return None;
        }
        Some(take_front(&mut self.mic_buffer, self.samples_per_frame))
    }

    /// The far-end samples to cancel from a microphone frame of so many samples, filled up with
    /// silence: one stereo block for each whole block of the frame. There are none when echo
    /// cancellation is off or the frame holds no whole block.
    pub fn process_aec(&mut self, frame_len: usize) -> (render: Option<Vec<S>>)
        requires
            old(self)@.wf(),
            frame_len <= usize::MAX / 2,
        ensures
            match render {
                Some(samples) => {
                    &&& old(self)@.cancels(frame_len as int)
                    &&& samples@ == old(self)@.render(frame_len as int)
                    &&& final(self)@ == old(self)@.rendered(frame_len as int)
                },
                None => !old(self)@.cancels(frame_len as int) && final(self)@ == old(self)@,
            },
            final(self)@.wf(),
    {
        if !self.echo_cancellation_enabled {
            return None;
        }
        let block: usize = BLOCK_FRAMES * self.channels.count();
        let blocks: usize = frame_len / block;
        if blocks == 0 {
            return None;
        }
        proof {
            lemma_render_bound(self@, frame_len as int);
        }
        let wanted: usize = blocks * BLOCK_FRAMES * 2;
        let held: usize = self.far_end_buffer.len();
        let ready: usize = if held < wanted {
            held
        } else {
            wanted
        };
        let mut render: Vec<S> = take_front(&mut self.far_end_buffer, ready);
        pad(&mut render, self.silence, wanted - ready);
        assert(render@ =~= filled(old(self)@.far_end, wanted as int, self.silence));
        assert(wanted <= held || self@.far_end =~= Seq::<S>::empty());
        Some(render)
    }

    /// What noise reduction does with the next frame. A model that is not there yet is asked
    /// for once.
    pub fn process_denoise(&mut self) -> (action: DenoiseAction)
        requires
            old(self)@.wf(),
        ensures
            action@ == old(self)@.cleaning(),
            final(self)@ == old(self)@.cleaned(),
            final(self)@.wf(),
    {
        match self.denoise_method {
            DenoiseMethod::Off => DenoiseAction::Off,
            DenoiseMethod::RNNoise => DenoiseAction::RNNoise {
                block: BLOCK_FRAMES * self.channels.count(),
            },
            DenoiseMethod::DFN3 => {
                let mut load: Option<String> = None;
                if !self.dfn3_ready && !self.dfn3_loading {
                    if let Some(path) = &self.dfn3_model_path {
                        load = Some(path.clone());
                    }
                    self.dfn3_loading = self.dfn3_model_path.is_some();
                }
                DenoiseAction::DFN3 { load, run: self.dfn3_ready }
            },
        }
    }

    /// The model that was asked for has been loaded, or could not be, in which case its path is
    /// given up.
    pub fn dfn3_loaded(&mut self, ok: bool)
        requires
            old(self)@.wf(),
        ensures
            final(self)@ == (EncodeView {
                dfn3_ready: ok || old(self)@.dfn3_ready,
                dfn3_loading: false,
                dfn3_path: if ok {
                    old(self)@.dfn3_path
                } else {
                    None
                },
                ..old(self)@
            }),
            final(self)@.wf(),
    {
        self.dfn3_loading = false;
        if ok {
            self.dfn3_ready = true;
        } else {
            self.dfn3_model_path = None;
        }
    }

    /// Points noise reduction at a model, given whether its path names the place of the one before.
    /// A model is loaded when it is first needed, and again only for another place; the result
    /// tells whether a loaded model has to go.
    pub fn point_dfn3(&mut self, path: String, same: bool) -> (replaced: bool)
        requires
            old(self)@.wf(),
        ensures
            replaced == !(old(self)@.dfn3_ready && old(self)@.dfn3_path is Some && same),
            final(self)@ == if replaced {
                old(self)@.pointed(path@)
            } else {
                old(self)@
            },
            final(self)@.wf(),
    {
        if same && self.dfn3_model_path.is_some() && self.dfn3_ready {
            return false;
        }
        self.dfn3_model_path = Some(path);
        self.dfn3_ready = false;
        true
    }

    /// Points noise reduction at a model. It is loaded when it is first needed, and again only
    /// if the path names another place; the result tells whether a loaded model has to go. For
    /// spellings that mean different things on different systems, this one decides.
    pub fn load_dfn3_models(&mut self, path: String) -> (replaced: bool)
        requires
            old(self)@.wf(),
        ensures
            !old(self)@.dfn3_ready || old(self)@.dfn3_path is None ==> replaced,
            old(self)@.dfn3_path matches Some(current) ==> (old(self)@.dfn3_ready ==> {
                &&& crate::paths::is_plain(current) && crate::paths::is_plain(path@) ==> replaced
                    == (crate::paths::place(current) != crate::paths::place(path@))
                &&& current == path@ ==> !replaced
            }),
            final(self)@ == if replaced {
                old(self)@.pointed(path@)
            } else {
                old(self)@
            },
            final(self)@.wf(),
    {
        let same: bool = match &self.dfn3_model_path {
            Some(current) => names_same_place(current, &path),
            None => false,
        };
        self.point_dfn3(path, same)
    }

    /// The number for the next frame that is sent.
    pub fn claim_sequence(&mut self) -> (sequence: u32)
        requires
            old(self)@.wf(),
            old(self)@.next_sequence < u32::MAX,
        ensures
            sequence == old(self)@.next_sequence,
            final(self)@ == old(self)@.claimed(),
            final(self)@.wf(),
    {
        let sequence: u32 = self.next_send_sequence;
        self.next_send_sequence = sequence + 1;
        sequence
    }

    /// The datagram for an encoded frame, which counts as sent.
    pub fn pack_frame(&mut self, sequence: u32, payload: &[u8]) -> (datagram: Vec<u8>)
        requires
            old(self)@.wf(),
            old(self)@.bytes_sent + payload@.len() + 4 <= u64::MAX,
        ensures
            datagram@ == crate::protocol::client_packet_bytes(sequence, payload@),
            final(self)@ == old(self)@.packed(payload@.len() as int),
            final(self)@.wf(),
    {
        let datagram: Vec<u8> = ClientAudioPacket::serialize(sequence, payload);
        self.total_bytes_sent = self.total_bytes_sent + datagram.len() as u64;
        datagram
    }

    /// The order for another bitrate. There is none in silence: the encoder hears of the bitrate
    /// when somebody speaks again.
    pub fn plan_bitrate(&self, bitrate: i32) -> (order: Option<EncoderCommand>)
        ensures
            order == self@.bitrate_order(bitrate),
    {
        if self.is_throttled {
            None
        } else {
            Some(EncoderCommand::SetBitrate(bitrate))
        }
    }

    /// Takes note of another bitrate, given what came of the order for it. The bitrate is noted even
    /// where the encoder refused it.
    pub fn set_bitrate(&mut self, bitrate: i32, told: Result<(), String>) -> (result: Result<
        (),
        ProxaError,
    >)
        requires
            old(self)@.wf(),
        ensures
            result == match (old(self)@.bitrate_order(bitrate), told) {
                (Some(_), Err(reason)) => Err(ProxaError::BitrateChange(reason)),
                _ => Ok(()),
            },
            final(self)@ == (EncodeView {
                bitrate,
                encoder: match old(self)@.bitrate_order(bitrate) {
                    Some(order) => old(self)@.encoder.told(order),
                    None => old(self)@.encoder,
                },
                ..old(self)@
            }),
            final(self)@.wf(),
    {
        self.target_bitrate = bitrate;
        if self.is_throttled {
            return Ok(());
        }
        self.encoder.bitrate = bitrate;
        match told {
            Ok(_) => Ok(()),
            Err(reason) => Err(ProxaError::BitrateChange(reason)),
        }
    }

    /// Takes note of the loss to guard against. The encoder hears of it at once only while
    /// somebody speaks.
    pub fn set_target_loss(&mut self, percent: i32) -> (command: Option<EncoderCommand>)
        requires
            old(self)@.wf(),
        ensures
            command == old(self)@.loss_order(percent),
            final(self)@ == old(self)@.loss_noted(percent),
            final(self)@.wf(),
    {
        self.actual_loss_perc = percent;
        if self.is_throttled {
            None
        } else {
            self.encoder.packet_loss_perc = percent;
            Some(EncoderCommand::SetPacketLossPerc(percent))
        }
    }

    /// The orders for an encoder of another layout. There are none when the layout stays.
    pub fn plan_channels(&self, channels: Channels) -> (orders: Option<Vec<EncoderCommand>>)
        ensures
            orders is Some <==> channels != self@.channels,
            orders matches Some(commands) ==> commands@ == speaking_orders(
                self@.bitrate,
                self@.loss_perc,
            ),
    {
        if channels == self.channels {
            return None;
        }
        let mut commands: Vec<EncoderCommand> = Vec::new();
        commands.push(EncoderCommand::SetBitrate(self.target_bitrate));
        commands.push(EncoderCommand::SetInbandFec(true));
        commands.push(EncoderCommand::SetPacketLossPerc(self.actual_loss_perc));
        assert(commands@ =~= speaking_orders(self@.bitrate, self@.loss_perc));
        Some(commands)
    }

    /// Switches to the encoder of another layout, once it was made and told its orders. Samples
    /// of the old layout are dropped.
    pub fn set_channels(&mut self, channels: Channels, samples_per_frame: usize)
        requires
            old(self)@.wf(),
        ensures
            final(self)@ == old(self)@.relaid(channels, samples_per_frame as int),
            final(self)@.wf(),
    {
        if channels == self.channels {
            return;
        }
        self.channels = channels;
        self.samples_per_frame = samples_per_frame;
        self.mic_buffer.clear();
        self.encoder = EncoderSettings {
            channels,
            low_delay: self.use_low_delay,
            bitrate: self.target_bitrate,
            inband_fec: true,
            packet_loss_perc: self.actual_loss_perc,
        };
        assert(self@ =~= old(self)@.relaid(channels, samples_per_frame as int));
    }

    /// Switches to another layout, given what came of making an encoder for it. Where none could
    /// be made, all stays as it was. The result tells whether the layout is another.
    pub fn switch_channels(
        &mut self,
        channels: Channels,
        samples_per_frame: usize,
        made: Result<(), String>,
    ) -> (result: Result<bool, ProxaError>)
        requires
            old(self)@.wf(),
        ensures
            final(self)@.wf(),
            if channels == old(self)@.channels {
                result == Ok::<bool, ProxaError>(false) && final(self)@ == old(self)@
            } else {
                match made {
                    Err(reason) => {
                        &&& result == Err::<bool, ProxaError>(ProxaError::ChannelSwitch(reason))
                        &&& final(self)@ == old(self)@
                    },
                    Ok(_) => {
                        &&& result == Ok::<bool, ProxaError>(true)
                        &&& final(self)@ == old(self)@.relaid(channels, samples_per_frame as int)
                    },
                }
            },
    {
        if channels == self.channels {
            return Ok(false);
        }
        match made {
            Ok(_) => {
                self.set_channels(channels, samples_per_frame);
                Ok(true)
            },
            Err(reason) => Err(ProxaError::ChannelSwitch(reason)),
        }
    }

    /// What the microphone does, from whether it is loud.
    pub fn get_voice_state(&self, loud: bool) -> (state: VoiceState)
        ensures
            state == if self@.is_throttled {
                VoiceState::Silenced
            } else if loud {
                VoiceState::Speaking
            } else {
                VoiceState::Waiting
            },
    {
        if self.is_throttled {
            VoiceState::Silenced
        } else if loud {
            VoiceState::Speaking
        } else {
            VoiceState::Waiting
        }
    }
}

} // verus!
