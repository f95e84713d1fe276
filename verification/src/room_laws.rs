//! What holds of the room: what each control message does to it, who is heard, and how a sound is
//! played over it.

use crate::client::{ClientView, ServerEffect, Sound};
use crate::encode::{EncodeView, EncoderCommand};
use crate::peer_model::PeerView;
use crate::protocol::{ClientMessage, ServerMessage};
use crate::types::Channels;
use vstd::prelude::*;

verus! {

/// A message about one peer touches no other, nobody but a peer that joins or leaves comes or
/// goes, and no message touches the client's own settings or its sound.
pub proof fn law_messages_keep_to_their_peer<S>(v: ClientView<S>, msg: ServerMessage, ready: bool)
    ensures
        ({
            let w = v.served(msg, ready);
            let subject = match msg {
                ServerMessage::PeerJoined { peer_id, .. } => Some(peer_id),
                ServerMessage::PeerLeft { peer_id } => Some(peer_id),
                ServerMessage::PeerSilence { peer_id, .. } => Some(peer_id),
                ServerMessage::PeerChannels { peer_id, .. } => Some(peer_id),
                ServerMessage::PeerPing { peer_id, .. } => Some(peer_id),
                _ => None,
            };
            &&& w == (ClientView { peers: w.peers, ..v })
            &&& forall|id: u32| #[trigger]
                w.peers.contains_key(id) != v.peers.contains_key(id) ==> subject == Some(id) && (
                msg is PeerJoined || msg is PeerLeft)
            &&& forall|id: u32|
                v.peers.contains_key(id) && subject != Some(id) ==> #[trigger] w.peers[id]
                    == v.peers[id]
        }),
{
}

/// A peer joins exactly when its decoder could be made: as a new one, in stereo if it has two
/// channels or more and else in mono, in place of any of the same number.
pub proof fn law_peers_join<S>(
    v: ClientView<S>,
    peer_id: u32,
    channels: u8,
    ready: bool,
    encode: EncodeView<S>,
)
    ensures
        ({
            let msg = ServerMessage::PeerJoined { peer_id, channels };
            let w = v.served(msg, ready);
            &&& v.wanted(msg) == Some(
                if channels >= 2 {
                    Channels::Stereo
                } else {
                    Channels::Mono
                },
            )
            &&& !ready ==> w == v
            &&& ready ==> {
                &&& w.peers.contains_key(peer_id)
                &&& w.peers[peer_id] == PeerView::fresh(v.wanted(msg)->Some_0, v.silence)
                &&& w.peers[peer_id].channels == v.wanted(msg)->Some_0
                &&& w.peers[peer_id].silence == v.silence
            }
            &&& v.effect(msg, encode, ready) == if ready {
                ServerEffect::Joined { peer_id }
            } else {
                ServerEffect::Nothing
            }
        }),
{
}

/// A peer that leaves is gone, and its decoder with it.
pub proof fn law_peers_leave<S>(
    v: ClientView<S>,
    peer_id: u32,
    ready: bool,
    encode: EncodeView<S>,
)
    ensures
        ({
            let msg = ServerMessage::PeerLeft { peer_id };
            &&& !v.served(msg, ready).peers.contains_key(peer_id)
            &&& v.wanted(msg) is None
            &&& v.effect(msg, encode, ready) == (ServerEffect::Left { peer_id })
        }),
{
}

/// A known peer is as silent as the relay says, and its decoder is reset exactly when it speaks up
/// again.
pub proof fn law_peers_fall_silent_and_speak_up<S>(
    v: ClientView<S>,
    peer_id: u32,
    silenced: bool,
    ready: bool,
    encode: EncodeView<S>,
)
    ensures
        ({
            let msg = ServerMessage::PeerSilence { peer_id, silenced };
            let w = v.served(msg, ready);
            let known = v.peers.contains_key(peer_id);
            &&& v.wanted(msg) is None
            &&& known ==> {
                &&& w.peers[peer_id].is_silenced == silenced
                &&& w.peers[peer_id] == v.peers[peer_id].silence_set(silenced)
            }
            &&& !known ==> w == v
            &&& v.effect(msg, encode, ready) == if known && v.peers[peer_id].is_silenced
                && !silenced {
                ServerEffect::Woken { peer_id }
            } else {
                ServerEffect::Nothing
            }
        }),
{
}

/// A known peer changes its layout exactly when a decoder for it could be made, and then to the
/// layout of that decoder: stereo for two channels or more, else mono. It starts over with it.
pub proof fn law_peers_change_layout<S>(
    v: ClientView<S>,
    peer_id: u32,
    channels: u8,
    ready: bool,
    encode: EncodeView<S>,
)
    ensures
        ({
            let msg = ServerMessage::PeerChannels { peer_id, channels };
            let w = v.served(msg, ready);
            let known = v.peers.contains_key(peer_id);
            &&& v.wanted(msg) is Some <==> known
            &&& known ==> v.wanted(msg) == Some(
                if channels >= 2 {
                    Channels::Stereo
                } else {
                    Channels::Mono
                },
            )
            &&& !(known && ready) ==> w == v && v.effect(msg, encode, ready) is Nothing
            &&& known && ready ==> {
                let before = v.peers[peer_id];
                let after = w.peers[peer_id];
                &&& after.channels == v.wanted(msg)->Some_0
                &&& after.channels is Stereo <==> channels >= 2
                &&& after.buffer.len() == 0
                &&& after.jitter == Map::<u32, Seq<u8>>::empty()
                &&& after.is_buffering
                &&& after.awaiting_first_packet
                &&& after.stage is Idle
                &&& after == (PeerView {
                    channels: after.channels,
                    buffer: after.buffer,
                    jitter: after.jitter,
                    is_buffering: true,
                    awaiting_first_packet: true,
                    stage: after.stage,
                    ..before
                })
                &&& v.effect(msg, encode, ready) == (ServerEffect::Relaid { peer_id })
            }
        }),
{
}

/// The round-trip time of a known peer is the one that the relay says, and nothing else changes.
pub proof fn law_peers_are_pinged<S>(
    v: ClientView<S>,
    peer_id: u32,
    ping_ms: u32,
    ready: bool,
    encode: EncodeView<S>,
)
    ensures
        ({
            let msg = ServerMessage::PeerPing { peer_id, ping_ms };
            let w = v.served(msg, ready);
            &&& v.peers.contains_key(peer_id) ==> w.peers[peer_id] == (PeerView {
                ping: ping_ms as int,
                ..v.peers[peer_id]
            })
            &&& !v.peers.contains_key(peer_id) ==> w == v
            &&& v.wanted(msg) is None
            &&& v.effect(msg, encode, ready) is Nothing
        }),
{
}

/// Messages that are about no peer leave the room alone; and of these only the loss to guard
/// against leaves something to do, and that only while somebody speaks.
pub proof fn law_other_messages_leave_the_room_alone<S>(
    v: ClientView<S>,
    msg: ServerMessage,
    ready: bool,
    encode: EncodeView<S>,
)
    requires
        msg is RoomJoined || msg is Error || msg is TargetLossRate,
    ensures
        v.served(msg, ready) == v,
        v.wanted(msg) is None,
        match msg {
            ServerMessage::TargetLossRate { percent } => v.effect(msg, encode, ready)
                == if encode.is_throttled {
                ServerEffect::Nothing
            } else {
                ServerEffect::Tell(EncoderCommand::SetPacketLossPerc(percent))
            },
            _ => v.effect(msg, encode, ready) is Nothing,
        },
{
}

/// A peer that joins and one that leaves are heard, and nobody else.
pub proof fn law_coming_and_going_is_heard(effect: ServerEffect)
    ensures
        effect is Joined <==> effect.cue() == Some(Sound::PeerJoin),
        effect is Left <==> effect.cue() == Some(Sound::PeerLeave),
        effect.cue() is Some <==> effect is Joined || effect is Left,
{
}

/// A packet reaches its peer, and only that one, if the peer is in the room and the payload has at
/// most 1200 bytes; any other is passed over.
pub proof fn law_packets_reach_their_peer<S>(
    v: ClientView<S>,
    peer_id: u32,
    sequence: u32,
    payload: Seq<u8>,
)
    ensures
        ({
            let w = v.given(peer_id, sequence, payload);
            if v.peers.contains_key(peer_id) && payload.len() <= 1200 {
                w == (ClientView {
                    peers: v.peers.insert(
                        peer_id,
                        v.peers[peer_id].received(sequence, payload),
                    ),
                    ..v
                })
            } else {
                w == v
            }
        }),
{
}

/// A datagram carries the number of a peer and of a packet, lowest byte first, and then the
/// payload; one without room for both numbers is passed over.
pub proof fn law_datagrams_are_packets<S>(v: ClientView<S>, data: Seq<u8>)
    ensures
        data.len() < 8 ==> v.reached(data) == v,
        data.len() >= 8 ==> ({
            let peer = data[0] + 0x100 * data[1] + 0x10000 * data[2] + 0x1000000 * data[3];
            let sequence = data[4] + 0x100 * data[5] + 0x10000 * data[6] + 0x1000000 * data[7];
            v.reached(data) == v.given(peer as u32, sequence as u32, data.skip(8))
        }),
{
    if data.len() >= 8 {
        assert(data.subrange(8, data.len() as int) =~= data.skip(8));
    }
}

/// There is no room for a datagram only where it reaches a peer with a number among the last
/// thousand there are, or with more bytes than the peer's counter can take.
pub proof fn law_room_ends_with_the_counters<S>(v: ClientView<S>, data: Seq<u8>)
    ensures
        data.len() < 8 ==> v.has_room(data),
        data.len() >= 8 ==> ({
            let peer = (data[0] + 0x100 * data[1] + 0x10000 * data[2] + 0x1000000
                * data[3]) as u32;
            let sequence = data[4] + 0x100 * data[5] + 0x10000 * data[6] + 0x1000000 * data[7];
            let payload = data.len() - 8;
            v.has_room(data) == (!v.peers.contains_key(peer) || payload > 1200 || (sequence + 1000
                <= 0xffff_ffff && v.peers[peer].bytes + payload <= 0xffff_ffff_ffff_ffff))
        }),
{
}

/// A switch of the microphone's layout lets every peer start over, each in its own layout, and
/// keeps mute and sound.
pub proof fn law_everybody_starts_over<S>(
    v: ClientView<S>,
    channels: Channels,
    samples_per_frame: int,
    id: u32,
)
    ensures
        ({
            let w = v.relaid(channels, samples_per_frame);
            &&& w.channels == channels
            &&& w.samples_per_frame == samples_per_frame
            &&& w.silence == v.silence
            &&& w.mute_output == v.mute_output
            &&& w.sfx == v.sfx
            &&& w.peers.contains_key(id) <==> v.peers.contains_key(id)
            &&& v.peers.contains_key(id) ==> {
                let after = w.peers[id];
                &&& after.channels == v.peers[id].channels
                &&& after.buffer.len() == 0
                &&& after.jitter == Map::<u32, Seq<u8>>::empty()
                &&& after.awaiting_first_packet
                &&& after.is_buffering
                &&& after == (PeerView {
                    buffer: after.buffer,
                    jitter: after.jitter,
                    is_buffering: true,
                    awaiting_first_packet: true,
                    stage: after.stage,
                    ..v.peers[id]
                })
            }
        }),
{
}

/// Of a sound, what comes next is played sample by sample, as much as is wanted and there is; it
/// goes on behind that, and is over with its last sample.
pub proof fn law_sounds_are_played_sample_by_sample<S>(v: ClientView<S>, wanted: int)
    requires
        v.wf(),
        0 <= wanted,
    ensures
        v.sfx is None ==> v.cue(wanted).len() == 0 && v.sounded(wanted) == v,
        v.sfx matches Some(sfx) ==> ({
            let left = sfx.pcm.len() - sfx.position;
            let cue = v.cue(wanted);
            let w = v.sounded(wanted);
            &&& wanted < left ==> cue.len() == wanted
            &&& wanted >= left ==> cue.len() == left
            &&& forall|i: int|
                0 <= i < cue.len() ==> #[trigger] cue[i] == sfx.pcm[sfx.position + i]
            &&& w.sfx is Some <==> wanted < left
            &&& w.sfx matches Some(rest) ==> rest.pcm == sfx.pcm && rest.position == sfx.position
                + wanted
            &&& w == (ClientView { sfx: w.sfx, ..v })
        }),
{
}

/// A report on loss names the peer and the two numbers, and is left out only where some frames
/// were lost, though not all, and the rate has not moved.
pub proof fn law_loss_is_reported(peer_id: u32, lost: u32, expected: u32, moved: bool)
    ensures
        ({
            let report = crate::client::loss_report(peer_id, lost, expected, moved);
            &&& report is None <==> !moved && 0 < lost < expected
            &&& report matches Some(msg) ==> msg == (ClientMessage::ReportPeerLoss {
                peer_id,
                lost,
                expected,
            })
        }),
{
}

/// A refill brings seven or eight samples more together than an output may need, always an even
/// number of them.
pub proof fn law_a_few_samples_more_are_brought_together(scaled: int)
    requires
        0 <= scaled,
    ensures
        ({
            let needed = crate::client::needed_for(scaled);
            needed % 2 == 0 && scaled + 7 <= needed <= scaled + 8
        }),
{
}

} // verus!
