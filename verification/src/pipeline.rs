//! The way of a microphone frame to the relay: echo cancellation, noise reduction, voice
//! detection, encoding, sending. The caller works on the samples; the pipeline says what is due.

use crate::encode::{
    DenoiseAction, DenoiseView, EncodeState, EncodeView, EncoderCommand, VOICE_HOLD_NANOS,
};
use crate::protocol::ClientMessage;
use vstd::prelude::*;

verus! {

/// Where a frame stands.
#[derive(Debug, Clone, Copy, PartialEq, Eq, Structural)]
pub enum FrameStage {
    /// No frame is under way.
    Idle,
    Cancelling,
    Cleaning,
    Measuring,
    /// The frame with this sequence number is being encoded.
    Encoding(u32),
}

/// What happened to a frame.
pub enum FrameEvent<S> {
    /// The caller is free for a frame.
    Next,
    /// Its echo was cancelled.
    Cancelled(Vec<S>),
    /// Its noise was reduced.
    Cleaned(Vec<S>),
    /// It was found to hold voice or not, the last voice being so long ago.
    Measured { frame: Vec<S>, voiced: bool, silent_nanos: u64 },
    /// It was encoded, or could not be, or was dropped on purpose.
    Encoded(Option<Vec<u8>>),
}

/// What is due.
pub enum FrameAction<S> {
    /// Wait for more samples.
    Wait,
    /// Cancel the far-end samples from the frame.
    Cancel { frame: Vec<S>, render: Vec<S> },
    /// Reduce the frame's noise.
    Clean { frame: Vec<S>, how: DenoiseAction },
    /// Find out whether the frame holds voice.
    Measure { frame: Vec<S> },
    /// The frame is silent and is not sent. Pass the orders and the report on.
    Skip { orders: Vec<EncoderCommand>, report: Option<ClientMessage> },
    /// Pass the orders and the report on, then encode the frame.
    Encode {
        frame: Vec<S>,
        sequence: u32,
        orders: Vec<EncoderCommand>,
        report: Option<ClientMessage>,
    },
    /// Send the datagram.
    Send { datagram: Vec<u8> },
    /// There is nothing to send of this frame.
    Lose,
}

/// What happened to a frame, with samples as sequences.
pub enum FrameEventView<S> {
    Next,
    Cancelled(Seq<S>),
    Cleaned(Seq<S>),
    Measured { frame: Seq<S>, voiced: bool, silent_nanos: int },
    Encoded(Option<Seq<u8>>),
}

/// What is due, with samples as sequences.
pub enum FrameActionView<S> {
    Wait,
    Cancel { frame: Seq<S>, render: Seq<S> },
    Clean { frame: Seq<S>, how: DenoiseView },
    Measure { frame: Seq<S> },
    Skip { orders: Seq<EncoderCommand>, report: Option<ClientMessage> },
    Encode {
        frame: Seq<S>,
        sequence: int,
        orders: Seq<EncoderCommand>,
        report: Option<ClientMessage>,
    },
    Send { datagram: Seq<u8> },
    Lose,
}

impl<S> View for FrameEvent<S> {
    type V = FrameEventView<S>;

    open spec fn view(&self) -> FrameEventView<S> {
        match self {
            FrameEvent::Next => FrameEventView::Next,
            FrameEvent::Cancelled(frame) => FrameEventView::Cancelled(frame@),
            FrameEvent::Cleaned(frame) => FrameEventView::Cleaned(frame@),
            FrameEvent::Measured { frame, voiced, silent_nanos } => FrameEventView::Measured {
                frame: frame@,
                voiced: *voiced,
                silent_nanos: *silent_nanos as int,
            },
            FrameEvent::Encoded(payload) => FrameEventView::Encoded(
                match payload {
                    Some(data) => Some(data@),
                    None => None,
                },
            ),
        }
    }
}

impl<S> View for FrameAction<S> {
    type V = FrameActionView<S>;

    open spec fn view(&self) -> FrameActionView<S> {
        match self {
            FrameAction::Wait => FrameActionView::Wait,
            FrameAction::Cancel { frame, render } => FrameActionView::Cancel {
                frame: frame@,
                render: render@,
            },
            FrameAction::Clean { frame, how } => FrameActionView::Clean { frame: frame@, how: how@ },
            FrameAction::Measure { frame } => FrameActionView::Measure { frame: frame@ },
            FrameAction::Skip { orders, report } => FrameActionView::Skip {
                orders: orders@,
                report: *report,
            },
            FrameAction::Encode { frame, sequence, orders, report } => FrameActionView::Encode {
                frame: frame@,
                sequence: *sequence as int,
                orders: orders@,
                report: *report,
            },
            FrameAction::Send { datagram } => FrameActionView::Send { datagram: datagram@ },
            FrameAction::Lose => FrameActionView::Lose,
        }
    }
}

/// A frame goes on to noise reduction, or past it.
pub open spec fn to_cleaning<S>(v: EncodeView<S>, frame: Seq<S>) -> (
    FrameStage,
    EncodeView<S>,
    FrameActionView<S>,
) {
    if v.cleaning() is Off {
        (FrameStage::Measuring, v, FrameActionView::Measure { frame })
    } else {
        (FrameStage::Cleaning, v.cleaned(), FrameActionView::Clean { frame, how: v.cleaning() })
    }
}

/// The report that goes with a frame's voice activity.
pub open spec fn report_of<S>(
    v: EncodeView<S>,
    voiced: bool,
    silent_nanos: int,
) -> Option<ClientMessage> {
    match v.vad_report(voiced, silent_nanos) {
        Some(silent) => Some(ClientMessage::SetSilence(silent)),
        None => None,
    }
}

/// What is due next.
pub open spec fn frame_step<S>(
    stage: FrameStage,
    v: EncodeView<S>,
    event: FrameEventView<S>,
) -> (FrameStage, EncodeView<S>, FrameActionView<S>) {
    match (stage, event) {
        (FrameStage::Idle, FrameEventView::Next) => if !v.has_frame() {
            (FrameStage::Idle, v, FrameActionView::Wait)
        } else if v.cancels(v.samples_per_frame) {
            (
                FrameStage::Cancelling,
                v.framed().rendered(v.samples_per_frame),
                FrameActionView::Cancel {
                    frame: v.frame(),
                    render: v.render(v.samples_per_frame),
                },
            )
        } else {
            to_cleaning(v.framed(), v.frame())
        },
        (FrameStage::Cancelling, FrameEventView::Cancelled(frame)) => to_cleaning(v, frame),
        (FrameStage::Cleaning, FrameEventView::Cleaned(frame)) => (
            FrameStage::Measuring,
            v,
            FrameActionView::Measure { frame },
        ),
        (FrameStage::Measuring, FrameEventView::Measured { frame, voiced, silent_nanos }) => {
            let w = v.heard(voiced, silent_nanos);
            let orders = v.vad_orders(voiced, silent_nanos);
            let report = report_of(v, voiced, silent_nanos);
            if w.is_throttled {
                (FrameStage::Idle, w, FrameActionView::Skip { orders, report })
            } else {
                (
                    FrameStage::Encoding(w.next_sequence as u32),
                    w.claimed(),
                    FrameActionView::Encode { frame, sequence: w.next_sequence, orders, report },
                )
            }
        },
        (FrameStage::Encoding(sequence), FrameEventView::Encoded(payload)) => match payload {
            Some(data) => (
                FrameStage::Idle,
                v.packed(data.len() as int),
                FrameActionView::Send {
                    datagram: crate::protocol::client_packet_bytes(sequence, data),
                },
            ),
            None => (FrameStage::Idle, v, FrameActionView::Lose),
        },
        _ => (stage, v, FrameActionView::Wait),
    }
}

/// The event is an answer to what was due.
pub open spec fn frame_expects<S>(stage: FrameStage, event: FrameEventView<S>) -> bool {
    match stage {
        FrameStage::Idle => event is Next,
        FrameStage::Cancelling => event is Cancelled,
        FrameStage::Cleaning => event is Cleaned,
        FrameStage::Measuring => event is Measured,
        FrameStage::Encoding(_) => event is Encoded,
    }
}

/// Counters have room for the step.
pub open spec fn frame_has_room<S>(
    stage: FrameStage,
    v: EncodeView<S>,
    event: FrameEventView<S>,
) -> bool {
    match (stage, event) {
        (FrameStage::Measuring, FrameEventView::Measured { voiced, silent_nanos, .. }) => v.heard(
            voiced,
            silent_nanos,
        ).is_throttled || v.next_sequence < u32::MAX,
        (FrameStage::Encoding(_), FrameEventView::Encoded(Some(data))) => v.bytes_sent
            + data.len() + 4 <= u64::MAX,
        _ => true,
    }
}

/// The frames of a microphone, one after the other.
pub struct Pipeline {
    pub stage: FrameStage,
}

impl Pipeline {
    pub fn new() -> (pipeline: Self)
        ensures
            pipeline.stage is Idle,
    {
        Pipeline { stage: FrameStage::Idle }
    }

    /// Sends a frame on to noise reduction, or past it.
    fn clean<S: Copy>(&mut self, encode: &mut EncodeState<S>, frame: Vec<S>) -> (action: FrameAction<
        S,
    >)
        requires
            old(encode)@.wf(),
        ensures
            (final(self).stage, final(encode)@, action@) == to_cleaning(old(encode)@, frame@),
            final(encode)@.wf(),
    {
        let how = encode.process_denoise();
        match how {
            DenoiseAction::Off => {
                assert(encode@ =~= old(encode)@);
                self.stage = FrameStage::Measuring;
                FrameAction::Measure { frame }
            },
            _ => {
                self.stage = FrameStage::Cleaning;
                FrameAction::Clean { frame, how }
            },
        }
    }

    /// Whether counters have room for a step.
    pub fn has_room<S: Copy>(&self, encode: &EncodeState<S>, event: &FrameEvent<S>) -> (room: bool)
        requires
            encode@.wf(),
        ensures
            room == frame_has_room(self.stage, encode@, event@),
    {
        match (self.stage, event) {
            (FrameStage::Measuring, FrameEvent::Measured { voiced, silent_nanos, .. }) => {
                let silent: bool = !*voiced && (encode.is_throttled || *silent_nanos
                    > VOICE_HOLD_NANOS);
                silent || encode.next_send_sequence < u32::MAX
            },
            (FrameStage::Encoding(_), FrameEvent::Encoded(Some(data))) => {
                let len: usize = data.len();
                len as u64 <= u64::MAX - 4 && encode.total_bytes_sent <= u64::MAX - 4 - len as u64
            },
            _ => true,
        }
    }

    /// Takes an event in and says what is due.
    pub fn step<S: Copy>(
        &mut self,
        encode: &mut EncodeState<S>,
        event: FrameEvent<S>,
    ) -> (action: FrameAction<S>)
        requires
            old(encode)@.wf(),
            old(encode)@.samples_per_frame <= usize::MAX / 2,
            frame_expects(old(self).stage, event@),
            frame_has_room(old(self).stage, old(encode)@, event@),
        ensures
            (final(self).stage, final(encode)@, action@) == frame_step(
                old(self).stage,
                old(encode)@,
                event@,
            ),
            final(encode)@.wf(),
    {
        match (self.stage, event) {
            (FrameStage::Idle, FrameEvent::Next) => match encode.next_frame() {
                Some(frame) => match encode.process_aec(frame.len()) {
                    Some(render) => {
                        self.stage = FrameStage::Cancelling;
                        FrameAction::Cancel { frame, render }
                    },
                    None => self.clean(encode, frame),
                },
                None => FrameAction::Wait,
            },
            (FrameStage::Cancelling, FrameEvent::Cancelled(frame)) => self.clean(encode, frame),
            (FrameStage::Cleaning, FrameEvent::Cleaned(frame)) => {
                self.stage = FrameStage::Measuring;
                FrameAction::Measure { frame }
            },
            (FrameStage::Measuring, FrameEvent::Measured { frame, voiced, silent_nanos }) => {
                let outcome = encode.handle_vad(voiced, silent_nanos);
                let orders = outcome.commands;
                let report = outcome.report;
                if outcome.throttled {
                    self.stage = FrameStage::Idle;
                    FrameAction::Skip { orders, report }
                } else {
                    let sequence: u32 = encode.claim_sequence();
                    self.stage = FrameStage::Encoding(sequence);
                    FrameAction::Encode { frame, sequence, orders, report }
                }
            },
            (FrameStage::Encoding(sequence), FrameEvent::Encoded(payload)) => {
                self.stage = FrameStage::Idle;
                match payload {
                    Some(data) => FrameAction::Send {
                        datagram: encode.pack_frame(sequence, data.as_slice()),
                    },
                    None => FrameAction::Lose,
                }
            },
            _ => FrameAction::Wait,
        }
    }
}

/// Numbers are given out one by one, to frames that are sent and to no others: a step takes the
/// next one if and only if it has a frame encoded.
pub proof fn law_numbers_are_consecutive<S>(
    stage: FrameStage,
    v: EncodeView<S>,
    event: FrameEventView<S>,
)
    ensures
        ({
            let (_, w, action) = frame_step(stage, v, event);
            match action {
                FrameActionView::Encode { sequence, .. } => sequence == v.next_sequence
                    && w.next_sequence == v.next_sequence + 1,
                _ => w.next_sequence == v.next_sequence,
            }
        }),
{
}

/// A datagram carries the number that its frame was given.
pub proof fn law_datagram_carries_its_number<S>(
    v: EncodeView<S>,
    frame: Seq<S>,
    voiced: bool,
    silent_nanos: int,
    later: EncodeView<S>,
    payload: Seq<u8>,
)
    requires
        0 <= v.next_sequence <= u32::MAX,
        !v.heard(voiced, silent_nanos).is_throttled,
    ensures
        ({
            let (stage, _, _) = frame_step(
                FrameStage::Measuring,
                v,
                FrameEventView::Measured { frame, voiced, silent_nanos },
            );
            let (_, _, action) = frame_step(stage, later, FrameEventView::Encoded(Some(payload)));
            action == FrameActionView::<S>::Send {
                datagram: crate::protocol::client_packet_bytes(v.next_sequence as u32, payload),
            }
        }),
{
}

/// Nothing is encoded while nobody speaks.
pub proof fn law_silence_is_not_sent<S>(
    stage: FrameStage,
    v: EncodeView<S>,
    event: FrameEventView<S>,
)
    requires
        frame_step(stage, v, event).2 is Encode,
    ensures
        !frame_step(stage, v, event).1.is_throttled,
{
}

/// A frame comes through in at most five steps: every step brings it closer to its end.
pub proof fn law_frames_come_through<S>(
    stage: FrameStage,
    v: EncodeView<S>,
    event: FrameEventView<S>,
)
    requires
        frame_expects(stage, event),
    ensures
        ({
            let (next, _, action) = frame_step(stage, v, event);
            &&& steps_left(next) < steps_left(stage) || stage is Idle
            &&& next is Idle <==> (action is Wait || action is Skip || action is Send
                || action is Lose)
        }),
{
}

/// How many steps a frame has before it at most.
pub open spec fn steps_left(stage: FrameStage) -> int {
    match stage {
        FrameStage::Idle => 0,
        FrameStage::Cancelling => 4,
        FrameStage::Cleaning => 3,
        FrameStage::Measuring => 2,
        FrameStage::Encoding(_) => 1,
    }
}

/// Microphone samples are used once and in order: a step takes a whole frame off the front, or
/// none at all.
pub proof fn law_samples_are_used_in_order<S>(
    stage: FrameStage,
    v: EncodeView<S>,
    event: FrameEventView<S>,
)
    requires
        0 <= v.samples_per_frame,
    ensures
        ({
            let w = frame_step(stage, v, event).1;
            if stage is Idle && event is Next && v.has_frame() {
                v.mic == v.frame() + w.mic && v.frame().len() == v.samples_per_frame
            } else {
                w.mic == v.mic
            }
        }),
{
    if v.has_frame() {
        assert(v.mic =~= v.mic.take(v.samples_per_frame) + v.mic.skip(v.samples_per_frame));
    }
}

} // verus!
