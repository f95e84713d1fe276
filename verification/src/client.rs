//! The receiving side as a whole: the peers in the room, and the sound that plays over them.

use crate::encode::{EncodeState, EncodeView, EncoderCommand};
use crate::error::ProxaError;
use crate::peer::PeerState;
use crate::peer_model::{PeerView, HISTORY};
use crate::protocol::{ClientMessage, ServerAudioPacket, ServerMessage, MAX_AUDIO_PACKET_SIZE};
use crate::samples::append_samples;
use crate::types::Channels;
use std::collections::HashMap;
use vstd::prelude::*;
use vstd::slice::slice_subrange;

verus! {

broadcast use vstd::std_specs::hash::group_hash_axioms;

/// A sound that tells the user what happened.
#[derive(Debug, Clone, Copy, PartialEq, Eq, Structural)]
pub enum Sound {
    PeerJoin,
    PeerLeave,
    Error,
}

impl Sound {
    /// Where the sound stands among the resources.
    pub open spec fn file(self) -> Seq<char> {
        match self {
            Sound::PeerJoin => "sounds/PeerJoin.opus"@,
            Sound::PeerLeave => "sounds/PeerLeave.opus"@,
            Sound::Error => "sounds/Error.opus"@,
        }
    }

    pub fn path(&self) -> (path: &'static str)
        ensures
            path@ == self.file(),
    {
        match self {
            Sound::PeerJoin => "sounds/PeerJoin.opus",
            Sound::PeerLeave => "sounds/PeerLeave.opus",
            Sound::Error => "sounds/Error.opus",
        }
    }
}

/// What a control message leaves to do.
#[derive(Debug, Clone, Copy, PartialEq, Eq, Structural)]
pub enum ServerEffect {
    Nothing,
    /// Keep the decoder that was made for the peer.
    Joined { peer_id: u32 },
    /// Drop the peer's decoder.
    Left { peer_id: u32 },
    /// Reset the peer's decoder.
    Woken { peer_id: u32 },
    /// Put the decoder that was made in the place of the peer's old one.
    Relaid { peer_id: u32 },
    /// Pass an order on to the encoder.
    Tell(EncoderCommand),
}

impl ServerEffect {
    /// The sound that goes with an effect.
    pub open spec fn cue(self) -> Option<Sound> {
        match self {
            ServerEffect::Joined { .. } => Some(Sound::PeerJoin),
            ServerEffect::Left { .. } => Some(Sound::PeerLeave),
            _ => None,
        }
    }

    pub fn sound(&self) -> (sound: Option<Sound>)
        ensures
            sound == self.cue(),
    {
        match self {
            ServerEffect::Joined { .. } => Some(Sound::PeerJoin),
            ServerEffect::Left { .. } => Some(Sound::PeerLeave),
            _ => None,
        }
    }
}

/// A sound under way.
pub struct SfxState<S> {
    pub pcm: Vec<S>,
    pub position: usize,
}

/// The state of the receiving side.
pub struct ClientState<S> {
    /// The sample that sounds like nothing.
    pub silence: S,
    pub peers: HashMap<u32, PeerState<S>>,
    pub channels: Channels,
    pub samples_per_frame: usize,
    pub mute_output: bool,
    pub sfx: Option<SfxState<S>>,
}

/// A sound under way, as mathematics.
#[verifier::ext_equal]
pub struct SfxView<S> {
    pub pcm: Seq<S>,
    pub position: int,
}

impl<S> View for SfxState<S> {
    type V = SfxView<S>;

    open spec fn view(&self) -> SfxView<S> {
        SfxView { pcm: self.pcm@, position: self.position as int }
    }
}

/// The state of the receiving side, as mathematics.
#[verifier::ext_equal]
pub struct ClientView<S> {
    pub silence: S,
    pub peers: Map<u32, PeerView<S>>,
    pub channels: Channels,
    pub samples_per_frame: int,
    pub mute_output: bool,
    pub sfx: Option<SfxView<S>>,
}

/// The state of every peer.
pub open spec fn peer_views<S>(peers: Map<u32, PeerState<S>>) -> Map<u32, PeerView<S>> {
    peers.map_values(|peer: PeerState<S>| peer@)
}

impl<S> View for ClientState<S> {
    type V = ClientView<S>;

    open spec fn view(&self) -> ClientView<S> {
        ClientView {
            silence: self.silence,
            peers: peer_views(self.peers@),
            channels: self.channels,
            samples_per_frame: self.samples_per_frame as int,
            mute_output: self.mute_output,
            sfx: match self.sfx {
                Some(sfx) => Some(sfx@),
                None => None,
            },
        }
    }
}

/// The layout that a channel count on the wire stands for.
pub open spec fn wire_layout(channels: u8) -> Channels {
    if channels >= 2 {
        Channels::Stereo
    } else {
        Channels::Mono
    }
}

impl<S> ClientView<S> {
    /// Every peer is in order and in no refill, and no sound has played on past its end.
    pub open spec fn wf(self) -> bool {
        &&& forall|id: u32| #[trigger]
            self.peers.contains_key(id) ==> self.peers[id].wf() && self.peers[id].stage is Idle
        &&& self.sfx matches Some(sfx) ==> 0 <= sfx.position <= sfx.pcm.len()
    }

    /// The state after a peer has changed.
    pub open spec fn with_peer(self, id: u32, peer: PeerView<S>) -> Self {
        ClientView { peers: self.peers.insert(id, peer), ..self }
    }

    /// A packet is heard only from a peer in the room, and only if it is not too large.
    pub open spec fn hears(self, peer_id: u32, payload: Seq<u8>) -> bool {
        payload.len() <= MAX_AUDIO_PACKET_SIZE && self.peers.contains_key(peer_id)
    }

    /// What an audio packet makes of the state.
    pub open spec fn given(self, peer_id: u32, sequence: u32, payload: Seq<u8>) -> Self {
        if self.hears(peer_id, payload) {
            self.with_peer(peer_id, self.peers[peer_id].received(sequence, payload))
        } else {
            self
        }
    }

    /// What a datagram makes of the state.
    pub open spec fn reached(self, data: Seq<u8>) -> Self {
        if data.len() >= 8 {
            self.given(
                crate::bytes::le_value(data, 0) as u32,
                crate::bytes::le_value(data, 4) as u32,
                data.subrange(8, data.len() as int),
            )
        } else {
            self
        }
    }

    /// Counters and sequence numbers have room for a packet.
    pub open spec fn has_room_for(self, peer_id: u32, sequence: u32, payload: Seq<u8>) -> bool {
        self.hears(peer_id, payload) ==> {
            &&& sequence + HISTORY <= u32::MAX
            &&& self.peers[peer_id].bytes + payload.len() <= u64::MAX
        }
    }

    /// Counters and sequence numbers have room for a datagram.
    pub open spec fn has_room(self, data: Seq<u8>) -> bool {
        data.len() >= 8 ==> self.has_room_for(
            crate::bytes::le_value(data, 0) as u32,
            crate::bytes::le_value(data, 4) as u32,
            data.subrange(8, data.len() as int),
        )
    }

    /// The decoder that a control message needs.
    pub open spec fn wanted(self, msg: ServerMessage) -> Option<Channels> {
        match msg {
            ServerMessage::PeerJoined { peer_id, channels } => Some(wire_layout(channels)),
            ServerMessage::PeerChannels { peer_id, channels } => if self.peers.contains_key(
                peer_id,
            ) {
                Some(wire_layout(channels))
            } else {
                None
            },
            _ => None,
        }
    }

    /// What a control message makes of the state, given whether the decoder that it needs could
    /// be made.
    pub open spec fn served(self, msg: ServerMessage, ready: bool) -> Self {
        match msg {
            ServerMessage::PeerJoined { peer_id, channels } => if ready {
                self.with_peer(peer_id, PeerView::fresh(wire_layout(channels), self.silence))
            } else {
                self
            },
            ServerMessage::PeerLeft { peer_id } => ClientView {
                peers: self.peers.remove(peer_id),
                ..self
            },
            ServerMessage::PeerSilence { peer_id, silenced } => if self.peers.contains_key(
                peer_id,
            ) {
                self.with_peer(peer_id, self.peers[peer_id].silence_set(silenced))
            } else {
                self
            },
            ServerMessage::PeerChannels { peer_id, channels } => if ready
                && self.peers.contains_key(peer_id) {
                self.with_peer(
                    peer_id,
                    PeerView { channels: wire_layout(channels), ..self.peers[peer_id].restarted() },
                )
            } else {
                self
            },
            ServerMessage::PeerPing { peer_id, ping_ms } => if self.peers.contains_key(peer_id) {
                self.with_peer(
                    peer_id,
                    PeerView { ping: ping_ms as int, ..self.peers[peer_id] },
                )
            } else {
                self
            },
            _ => self,
        }
    }

    /// What a control message leaves to do.
    pub open spec fn effect(
        self,
        msg: ServerMessage,
        encode: EncodeView<S>,
        ready: bool,
    ) -> ServerEffect {
        match msg {
            ServerMessage::PeerJoined { peer_id, .. } => if ready {
                ServerEffect::Joined { peer_id }
            } else {
                ServerEffect::Nothing
            },
            ServerMessage::PeerLeft { peer_id } => ServerEffect::Left { peer_id },
            ServerMessage::PeerSilence { peer_id, silenced } => if self.peers.contains_key(peer_id)
                && self.peers[peer_id].is_silenced && !silenced {
                ServerEffect::Woken { peer_id }
            } else {
                ServerEffect::Nothing
            },
            ServerMessage::PeerChannels { peer_id, .. } => if ready && self.peers.contains_key(
                peer_id,
            ) {
                ServerEffect::Relaid { peer_id }
            } else {
                ServerEffect::Nothing
            },
            ServerMessage::TargetLossRate { percent } => match encode.loss_order(percent) {
                Some(order) => ServerEffect::Tell(order),
                None => ServerEffect::Nothing,
            },
            _ => ServerEffect::Nothing,
        }
    }

    /// All peers start over.
    pub open spec fn relaid(self, channels: Channels, samples_per_frame: int) -> Self {
        ClientView {
            channels,
            samples_per_frame,
            peers: self.peers.map_values(|peer: PeerView<S>| peer.restarted()),
            ..self
        }
    }

    /// So many samples of the sound are played, at most. The sound is over with its last sample.
    pub open spec fn sounded(self, wanted: int) -> Self {
        ClientView {
            sfx: match self.sfx {
                Some(sfx) => if sfx.position + wanted < sfx.pcm.len() {
                    Some(SfxView { position: sfx.position + wanted, ..sfx })
                } else {
                    None
                },
                None => None,
            },
            ..self
        }
    }

    /// The samples of the sound that are played next, at most so many.
    pub open spec fn cue(self, wanted: int) -> Seq<S> {
        match self.sfx {
            Some(sfx) => if sfx.position + wanted < sfx.pcm.len() {
                sfx.pcm.subrange(sfx.position, sfx.position + wanted)
            } else {
                sfx.pcm.skip(sfx.position)
            },
            None => Seq::empty(),
        }
    }
}

impl<S> ClientState<S> {
    /// The state is in order.
    pub open spec fn wf(&self) -> bool {
        self@.wf()
    }
}

impl<S: Copy> ClientState<S> {
    /// A client that is in no room yet.
    pub fn new(channels: Channels, samples_per_frame: usize, silence: S) -> (state: Self)
        ensures
            state.wf(),
            state@ == (ClientView {
                silence,
                peers: Map::empty(),
                channels,
                samples_per_frame: samples_per_frame as int,
                mute_output: false,
                sfx: None,
            }),
    {
        let state = ClientState {
            silence,
            peers: HashMap::new(),
            channels,
            samples_per_frame,
            mute_output: false,
            sfx: None,
        };
        assert(state@.peers =~= Map::empty());
        state
    }

    /// Takes a peer out.
    fn take_peer(&mut self, id: u32) -> (peer: Option<PeerState<S>>)
        requires
            old(self).wf(),
        ensures
            final(self).wf(),
            peer is Some <==> old(self)@.peers.contains_key(id),
            peer matches Some(p) ==> p@ == old(self)@.peers[id] && p@.wf() && p.stage is Idle,
            final(self)@ == (ClientView { peers: old(self)@.peers.remove(id), ..old(self)@ }),
    {
        let peer = self.peers.remove(&id);
        assert(self@.peers =~= old(self)@.peers.remove(id));
        assert(old(self)@.peers.contains_key(id) ==> old(self)@.peers[id].wf());
        peer
    }

    /// Puts a changed peer in its place.
    fn put_peer(&mut self, id: u32, peer: PeerState<S>)
        requires
            old(self).wf(),
            peer@.wf(),
            peer.stage is Idle,
        ensures
            final(self).wf(),
            final(self)@ == old(self)@.with_peer(id, peer@),
    {
        self.peers.insert(id, peer);
        assert(self@.peers =~= old(self)@.peers.insert(id, peer@));
    }

    /// Takes an audio packet in. A payload that is too large and a peer that is unknown are
    /// passed over.
    pub fn handle_audio_packet(&mut self, packet: ServerAudioPacket)
        requires
            old(self).wf(),
            old(self)@.has_room_for(packet.peer_id, packet.sequence, packet.payload@),
        ensures
            final(self).wf(),
            final(self)@ == old(self)@.given(
                packet.peer_id,
                packet.sequence,
                packet.payload@,
            ),
    {
        if packet.payload.len() > MAX_AUDIO_PACKET_SIZE {
            return;
        }
        let ghost before = self@;
        match self.take_peer(packet.peer_id) {
            Some(mut peer) => {
                peer.receive_packet(packet.sequence, packet.payload);
                self.put_peer(packet.peer_id, peer);
            },
            None => {},
        }
        assert(self@ =~= before.given(packet.peer_id, packet.sequence, packet.payload@));
    }

    /// Takes a datagram in. One that is too short for a packet is passed over.
    pub fn handle_datagram(&mut self, data: &[u8])
        requires
            old(self).wf(),
            old(self)@.has_room(data@),
        ensures
            final(self).wf(),
            final(self)@ == old(self)@.reached(data@),
    {
        match ServerAudioPacket::deserialize(data) {
            Some(packet) => self.handle_audio_packet(packet),
            None => {},
        }
    }

    /// Whether counters and sequence numbers have room for a datagram.
    pub fn has_room(&self, data: &[u8]) -> (room: bool)
        requires
            self.wf(),
        ensures
            room == self@.has_room(data@),
    {
        match ServerAudioPacket::deserialize(data) {
            Some(packet) => {
                if packet.payload.len() > MAX_AUDIO_PACKET_SIZE {
                    return true;
                }
                match self.peers.get(&packet.peer_id) {
                    Some(peer) => {
                        assert(self@.peers[packet.peer_id] == peer@);
                        packet.sequence <= u32::MAX - HISTORY && peer.total_bytes_received
                            <= u64::MAX - packet.payload.len() as u64
                    },
                    None => true,
                }
            },
            None => true,
        }
    }

    /// The decoder that a control message needs, if it needs one.
    pub fn wanted_decoder(&self, msg: &ServerMessage) -> (channels: Option<Channels>)
        ensures
            channels == self@.wanted(*msg),
    {
        match msg {
            ServerMessage::PeerJoined { channels, .. } => Some(Channels::from_count(*channels)),
            ServerMessage::PeerChannels { peer_id, channels } => {
                if self.peers.contains_key(peer_id) {
                    Some(Channels::from_count(*channels))
                } else {
                    None
                }
            },
            _ => None,
        }
    }

    /// A peer falls silent or speaks up. The result tells whether it woke.
    fn silence_peer(&mut self, peer_id: u32, silenced: bool) -> (woken: bool)
        requires
            old(self).wf(),
        ensures
            final(self).wf(),
            final(self)@ == if old(self)@.peers.contains_key(peer_id) {
                old(self)@.with_peer(peer_id, old(self)@.peers[peer_id].silence_set(silenced))
            } else {
                old(self)@
            },
            woken == (old(self)@.peers.contains_key(peer_id)
                && old(self)@.peers[peer_id].is_silenced && !silenced),
    {
        let mut woken: bool = false;
        match self.take_peer(peer_id) {
            Some(mut peer) => {
                woken = peer.is_silenced && !silenced;
                peer.set_silenced(silenced);
                self.put_peer(peer_id, peer);
            },
            None => {},
        }
        assert(self@.peers =~= if old(self)@.peers.contains_key(peer_id) {
            old(self)@.peers.insert(peer_id, old(self)@.peers[peer_id].silence_set(silenced))
        } else {
            old(self)@.peers
        });
        woken
    }

    /// A peer starts over in another layout, if it is known.
    fn change_peer_layout(&mut self, peer_id: u32, channels: Channels) -> (known: bool)
        requires
            old(self).wf(),
        ensures
            final(self).wf(),
            final(self)@ == if known {
                old(self)@.with_peer(
                    peer_id,
                    PeerView { channels, ..old(self)@.peers[peer_id].restarted() },
                )
            } else {
                old(self)@
            },
            known == old(self)@.peers.contains_key(peer_id),
    {
        match self.take_peer(peer_id) {
            Some(mut peer) => {
                peer.restart();
                peer.channels = channels;
                self.put_peer(peer_id, peer);
                assert(self@.peers =~= old(self)@.peers.insert(peer_id, peer@));
                true
            },
            None => {
                assert(self@.peers =~= old(self)@.peers);
                false
            },
        }
    }

    /// Takes note of a peer's round-trip time.
    fn ping_peer(&mut self, peer_id: u32, ping_ms: u32)
        requires
            old(self).wf(),
        ensures
            final(self).wf(),
            final(self)@ == if old(self)@.peers.contains_key(peer_id) {
                old(self)@.with_peer(
                    peer_id,
                    PeerView { ping: ping_ms as int, ..old(self)@.peers[peer_id] },
                )
            } else {
                old(self)@
            },
    {
        match self.take_peer(peer_id) {
            Some(mut peer) => {
                peer.ping = ping_ms;
                self.put_peer(peer_id, peer);
                assert(self@.peers =~= old(self)@.peers.insert(peer_id, peer@));
            },
            None => {
                assert(self@.peers =~= old(self)@.peers);
            },
        }
    }

    /// Takes a control message in, given whether the decoder that it needs could be made.
    pub fn handle_server_message(
        &mut self,
        msg: ServerMessage,
        encode: &mut EncodeState<S>,
        decoder_ready: bool,
    ) -> (effect: ServerEffect)
        requires
            old(self).wf(),
            old(encode)@.wf(),
        ensures
            final(self).wf(),
            final(encode)@.wf(),
            final(self)@ == old(self)@.served(msg, decoder_ready),
            final(encode)@ == match msg {
                ServerMessage::TargetLossRate { percent } => old(encode)@.loss_noted(percent),
                _ => old(encode)@,
            },
            effect == old(self)@.effect(msg, old(encode)@, decoder_ready),
    {
        match msg {
            ServerMessage::PeerJoined { peer_id, channels } => {
                if !decoder_ready {
                    return ServerEffect::Nothing;
                }
                let peer = PeerState::new(Channels::from_count(channels), self.silence);
                self.put_peer(peer_id, peer);
                ServerEffect::Joined { peer_id }
            },
            ServerMessage::PeerLeft { peer_id } => {
                let _ = self.take_peer(peer_id);
                ServerEffect::Left { peer_id }
            },
            ServerMessage::TargetLossRate { percent } => match encode.set_target_loss(percent) {
                Some(order) => ServerEffect::Tell(order),
                None => ServerEffect::Nothing,
            },
            ServerMessage::PeerSilence { peer_id, silenced } => {
                if self.silence_peer(peer_id, silenced) {
                    ServerEffect::Woken { peer_id }
                } else {
                    ServerEffect::Nothing
                }
            },
            ServerMessage::PeerChannels { peer_id, channels } => {
                if decoder_ready && self.change_peer_layout(peer_id, Channels::from_count(channels)) {
                    ServerEffect::Relaid { peer_id }
                } else {
                    ServerEffect::Nothing
                }
            },
            ServerMessage::PeerPing { peer_id, ping_ms } => {
                self.ping_peer(peer_id, ping_ms);
                ServerEffect::Nothing
            },
            _ => ServerEffect::Nothing,
        }
    }

    /// Starts a sound, if it could be had. It cuts off the one under way.
    pub fn play_sfx(&mut self, pcm: Option<Vec<S>>)
        requires
            old(self).wf(),
        ensures
            final(self).wf(),
            final(self)@ == match pcm {
                Some(samples) => ClientView {
                    sfx: Some(SfxView { pcm: samples@, position: 0 }),
                    ..old(self)@
                },
                None => old(self)@,
            },
    {
        if let Some(samples) = pcm {
            self.sfx = Some(SfxState { pcm: samples, position: 0 });
        }
    }

    /// The next samples of the sound under way, at most so many. The sound is over with its last
    /// sample.
    pub fn take_sfx(&mut self, wanted: usize) -> (samples: Vec<S>)
        requires
            old(self).wf(),
        ensures
            final(self).wf(),
            samples@ == old(self)@.cue(wanted as int),
            final(self)@ == old(self)@.sounded(wanted as int),
    {
        let mut samples: Vec<S> = Vec::new();
        if let Some(mut sfx) = self.sfx.take() {
            let left: usize = sfx.pcm.len() - sfx.position;
            let count: usize = if wanted < left {
                wanted
            } else {
                left
            };
            let end: usize = sfx.position + count;
            append_samples(&mut samples, slice_subrange(sfx.pcm.as_slice(), sfx.position, end));
            assert(samples@ =~= old(self)@.cue(wanted as int));
            sfx.position = end;
            if sfx.position < sfx.pcm.len() {
                self.sfx = Some(sfx);
            }
        }
        samples
    }

    /// The peers in the room, in any order.
    pub fn peer_ids(&self) -> (ids: Vec<u32>)
        ensures
            ids@.to_set() == self@.peers.dom(),
            ids@.no_duplicates(),
    {
        let mut ids: Vec<u32> = Vec::new();
        let ghost all = vstd::std_specs::iter::IteratorSpec::remaining(&self.peers.keys());
        for id in it: self.peers.keys()
            invariant
                it.seq().unref().to_set() == self.peers@.dom(),
                it.seq().no_duplicates(),
                ids@ == it.seq().unref().take(it.index()),
        {
            ids.push(*id);
            assert(it.seq().unref().take(it.index() + 1) =~= it.seq().unref().take(
                it.index(),
            ).push(*id));
        }
        assert(ids@ =~= all.unref());
        assert(self@.peers.dom() =~= self.peers@.dom());
        ids
    }

    /// Switches the microphone's layout: every peer starts over, and the relay is told.
    pub fn set_channels(&mut self, channels: Channels, samples_per_frame: usize) -> (report:
        ClientMessage)
        requires
            old(self).wf(),
        ensures
            final(self).wf(),
            final(self)@ == old(self)@.relaid(channels, samples_per_frame as int),
            report == ClientMessage::SetChannels(channels.width() as u8),
    {
        self.channels = channels;
        self.samples_per_frame = samples_per_frame;
        let ghost before = self@;
        let ids: Vec<u32> = self.peer_ids();
        let mut i: usize = 0;
        while i < ids.len()
            invariant
                i <= ids@.len(),
                self.wf(),
                ids@.no_duplicates(),
                ids@.to_set() == before.peers.dom(),
                self@ == (ClientView { peers: self@.peers, ..before }),
                self@.peers.dom() == before.peers.dom(),
                forall|j: int|
                    0 <= j < i ==> self@.peers[#[trigger] ids@[j]]
                        == before.peers[ids@[j]].restarted(),
                forall|j: int|
                    i <= j < ids@.len() ==> self@.peers[#[trigger] ids@[j]]
                        == before.peers[ids@[j]],
            decreases ids@.len() - i,
        {
            let id: u32 = ids[i];
            assert(ids@.to_set().contains(id));
            match self.take_peer(id) {
                Some(mut peer) => {
                    peer.restart();
                    self.put_peer(id, peer);
                },
                None => {},
            }
            assert(self@.peers.dom() =~= before.peers.dom());
            i = i + 1;
        }
        assert forall|id: u32| #[trigger] before.peers.contains_key(id) implies self@.peers[id]
            == before.peers[id].restarted() by {
            assert(ids@.to_set().contains(id));
            let j = choose|j: int| 0 <= j < ids@.len() && ids@[j] == id;
            assert(self@.peers[ids@[j]] == before.peers[ids@[j]].restarted());
        }
        assert(self@.peers =~= old(self)@.relaid(channels, samples_per_frame as int).peers);
        match channels {
            Channels::Mono => ClientMessage::SetChannels(1),
            Channels::Stereo => ClientMessage::SetChannels(2),
        }
    }

    /// Switches the microphone's layout on both sides, given what came of making an encoder for
    /// it: every peer starts over, and the relay is to be told. Where the layout stays, or no
    /// encoder could be made, nothing changes.
    pub fn switch_channels(
        &mut self,
        encode: &mut EncodeState<S>,
        channels: Channels,
        samples_per_frame: usize,
        made: Result<(), String>,
    ) -> (result: Result<Option<ClientMessage>, ProxaError>)
        requires
            old(self).wf(),
            old(encode)@.wf(),
        ensures
            final(self).wf(),
            final(encode)@.wf(),
            if channels == old(encode)@.channels {
                &&& result == Ok::<Option<ClientMessage>, ProxaError>(None)
                &&& final(self)@ == old(self)@
                &&& final(encode)@ == old(encode)@
            } else {
                match made {
                    Err(reason) => {
                        &&& result == Err::<Option<ClientMessage>, ProxaError>(
                            ProxaError::ChannelSwitch(reason),
                        )
                        &&& final(self)@ == old(self)@
                        &&& final(encode)@ == old(encode)@
                    },
                    Ok(_) => {
                        &&& result == Ok::<Option<ClientMessage>, ProxaError>(
                            Some(ClientMessage::SetChannels(channels.width() as u8)),
                        )
                        &&& final(self)@ == old(self)@.relaid(channels, samples_per_frame as int)
                        &&& final(encode)@ == old(encode)@.relaid(
                            channels,
                            samples_per_frame as int,
                        )
                    },
                }
            },
    {
        match encode.switch_channels(channels, samples_per_frame, made) {
            Ok(true) => Ok(Some(self.set_channels(channels, samples_per_frame))),
            Ok(false) => Ok(None),
            Err(error) => Err(error),
        }
    }

    /// Forgets the peers of an earlier connection.
    pub fn clear_peers(&mut self)
        requires
            old(self).wf(),
        ensures
            final(self).wf(),
            final(self)@ == (ClientView { peers: Map::empty(), ..old(self)@ }),
    {
        self.peers.clear();
        assert(self@.peers =~= Map::empty());
    }
}

/// How many samples a refill brings together for an output that may need up to `scaled` of them:
/// a few more, and always whole stereo frames.
pub open spec fn needed_for(scaled: int) -> int {
    (scaled + 8) / 2 * 2
}

/// How many samples a refill brings together for an output that may need up to `scaled` of them.
pub fn needed_samples(scaled: usize) -> (needed: usize)
    requires
        scaled + 8 <= usize::MAX,
    ensures
        needed == needed_for(scaled as int),
        needed % 2 == 0,
        scaled + 7 <= needed <= scaled + 8,
{
    (scaled + 8) / 2 * 2
}

/// The report on a peer's loss: it is due when nothing or everything was lost, or when the rate
/// has moved enough to matter.
pub open spec fn loss_report(peer_id: u32, lost: u32, expected: u32, moved: bool) -> Option<
    ClientMessage,
> {
    if moved || lost == 0 || lost >= expected {
        Some(ClientMessage::ReportPeerLoss { peer_id, lost, expected })
    } else {
        None
    }
}

/// The report on a peer's loss, if it is due, once a window of the statistics has closed.
pub fn report_loss(peer_id: u32, lost: u32, expected: u32, moved: bool) -> (report: Option<
    ClientMessage,
>)
    ensures
        report == loss_report(peer_id, lost, expected, moved),
{
    if moved || lost == 0 || lost >= expected {
        Some(ClientMessage::ReportPeerLoss { peer_id, lost, expected })
    } else {
        None
    }
}

/// A packet or message that concerns one peer leaves the others alone.
pub proof fn law_other_peers_are_left_alone<S>(
    v: ClientView<S>,
    peer_id: u32,
    other: u32,
    sequence: u32,
    payload: Seq<u8>,
    channels: u8,
    silenced: bool,
    ping_ms: u32,
    ready: bool,
)
    requires
        other != peer_id,
    ensures
        ({
            let messages = seq![
                ServerMessage::PeerJoined { peer_id, channels },
                ServerMessage::PeerLeft { peer_id },
                ServerMessage::PeerSilence { peer_id, silenced },
                ServerMessage::PeerChannels { peer_id, channels },
                ServerMessage::PeerPing { peer_id, ping_ms },
            ];
            forall|i: int|
                0 <= i < messages.len() ==> {
                    let w = v.served(#[trigger] messages[i], ready);
                    &&& w.peers.contains_key(other) == v.peers.contains_key(other)
                    &&& v.peers.contains_key(other) ==> w.peers[other] == v.peers[other]
                }
        }),
        v.given(peer_id, sequence, payload).peers.contains_key(other) == v.peers.contains_key(
            other,
        ),
        v.peers.contains_key(other) ==> v.given(peer_id, sequence, payload).peers[other]
            == v.peers[other],
{
}

/// What the relay writes for a packet, the client reads as that packet.
pub proof fn law_relayed_packet_arrives<S>(
    v: ClientView<S>,
    peer_id: u32,
    sequence: u32,
    payload: Seq<u8>,
)
    ensures
        v.reached(crate::protocol::server_packet_bytes(peer_id, sequence, payload)) == v.given(
            peer_id,
            sequence,
            payload,
        ),
{
    let data = crate::protocol::server_packet_bytes(peer_id, sequence, payload);
    assert(data.subrange(0, 4) =~= crate::bytes::le_bytes(peer_id));
    assert(data.subrange(4, 8) =~= crate::bytes::le_bytes(sequence));
    assert(data.subrange(8, data.len() as int) =~= payload);
    crate::bytes::lemma_le_round_trip(peer_id, data, 0);
    crate::bytes::lemma_le_round_trip(sequence, data, 4);
}

/// Audio never brings a peer into the room or takes one out of it.
pub proof fn law_audio_keeps_the_room<S>(
    v: ClientView<S>,
    peer_id: u32,
    sequence: u32,
    payload: Seq<u8>,
)
    ensures
        v.given(peer_id, sequence, payload).peers.dom() == v.peers.dom(),
{
}

/// No peer ever holds more packets than the history allows, whatever comes in: where one more came,
/// it is the lowest that goes. Nothing but the peer that sent the packet changes.
pub proof fn law_packets_stay_bounded<S>(
    v: ClientView<S>,
    peer_id: u32,
    sequence: u32,
    payload: Seq<u8>,
    id: u32,
)
    requires
        v.wf(),
        sequence + HISTORY <= u32::MAX,
        v.peers.contains_key(id),
    ensures
        ({
            let w = v.given(peer_id, sequence, payload);
            let before = v.peers[id].jitter;
            let after = w.peers[id].jitter;
            &&& w == (ClientView { peers: w.peers, ..v })
            &&& w.peers.dom() == v.peers.dom()
            &&& id != peer_id ==> w.peers[id] == v.peers[id]
            &&& after.dom().len() <= HISTORY
            &&& forall|k: u32| #[trigger]
                before.contains_key(k) && !after.contains_key(k) ==> crate::jitter::is_lowest(
                    before.dom().insert(sequence),
                    k,
                )
        }),
{
    if v.hears(peer_id, payload) {
        let peer = v.peers[peer_id];
        crate::peer_model::lemma_received_wf(peer, sequence, payload);
        crate::peer_laws::law_packet_is_kept(peer, sequence, payload);
        if id == peer_id {
            let w = peer.received(sequence, payload);
            assert forall|k: u32| #[trigger]
                peer.jitter.contains_key(k) && !w.jitter.contains_key(k) implies crate::jitter::is_lowest(
                peer.jitter.dom().insert(sequence),
                k,
            ) by {
            }
        }
    }
    assert(v.given(peer_id, sequence, payload).peers.dom() =~= v.peers.dom());
}

/// A packet of an unknown peer, or one that is too large, changes nothing.
pub proof fn law_strange_packets_change_nothing<S>(
    v: ClientView<S>,
    peer_id: u32,
    sequence: u32,
    payload: Seq<u8>,
)
    requires
        !v.peers.contains_key(peer_id) || payload.len() > MAX_AUDIO_PACKET_SIZE,
    ensures
        v.given(peer_id, sequence, payload) == v,
{
}

/// A peer that joins and leaves again leaves no trace, if it was not in the room before.
pub proof fn law_leaving_undoes_joining<S>(v: ClientView<S>, peer_id: u32, channels: u8)
    requires
        !v.peers.contains_key(peer_id),
    ensures
        v.served(ServerMessage::PeerJoined { peer_id, channels }, true).served(
            ServerMessage::PeerLeft { peer_id },
            true,
        ) == v,
{
    assert(v.served(ServerMessage::PeerJoined { peer_id, channels }, true).served(
        ServerMessage::PeerLeft { peer_id },
        true,
    ).peers =~= v.peers);
}

/// A message changes nobody's audio when its decoder cannot be made.
pub proof fn law_failed_decoder_changes_nothing<S>(v: ClientView<S>, msg: ServerMessage)
    requires
        v.wanted(msg) is Some,
    ensures
        v.served(msg, false) == v,
{
}

/// A sound is played whole and in order, however it is cut up: two portions after another are
/// one portion of both lengths.
pub proof fn law_sound_plays_in_order<S>(v: ClientView<S>, first: int, second: int)
    requires
        v.wf(),
        0 <= first,
        0 <= second,
    ensures
        v.cue(first) + v.sounded(first).cue(second) == v.cue(first + second),
        v.sounded(first).sounded(second) == v.sounded(first + second),
        v.sfx matches Some(sfx) ==> v.cue(sfx.pcm.len() - sfx.position) == sfx.pcm.skip(
            sfx.position,
        ),
{
    assert(v.cue(first) + v.sounded(first).cue(second) =~= v.cue(first + second));
}

/// After a switch of layout every peer waits for a first packet, with nothing left to play.
pub proof fn law_switch_restarts_everybody<S>(
    v: ClientView<S>,
    channels: Channels,
    samples_per_frame: int,
    id: u32,
)
    requires
        v.peers.contains_key(id),
    ensures
        ({
            let w = v.relaid(channels, samples_per_frame);
            &&& w.peers.dom() == v.peers.dom()
            &&& w.peers[id].awaiting_first_packet
            &&& w.peers[id].buffer.len() == 0
            &&& w.peers[id].jitter == Map::<u32, Seq<u8>>::empty()
            &&& w.relaid(channels, samples_per_frame) == w
        }),
{
    let w = v.relaid(channels, samples_per_frame);
    assert(w.peers.dom() =~= v.peers.dom());
    assert(w.relaid(channels, samples_per_frame).peers =~= w.peers);
}

} // verus!
