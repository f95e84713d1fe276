//! What holds of what is kept: sounds, lines, packets, texts, and the session itself.

use crate::assets::SfxCache;
use crate::cli::{EmptyRoom, LogSink};
use crate::client::ClientState;
use crate::error::ProxaError;
use crate::models::{ArchiveError, StartupModel};
use crate::protocol::{ClientAudioPacket, ServerAudioPacket};
use crate::refill::FrameDecoder;
use crate::session::{NetAction, NetEvent, Session};
use crate::types::{Channels, DenoiseMethod};
use std::collections::{BTreeMap, BTreeSet, HashMap};
use vstd::prelude::*;

verus! {

/// A sound that was kept is found again under its path, and the sounds under other paths stay what
/// they were.
pub proof fn law_kept_sounds_are_found<S: Copy>(
    cache: &mut SfxCache<S>,
    path: String,
    pcm: Vec<S>,
    asked: &str,
    before: Option<Vec<S>>,
    after: Option<Vec<S>>,
)
    requires
        call_ensures(SfxCache::<S>::get, (&*old(cache), asked), before),
        call_ensures(SfxCache::<S>::insert, (cache, path, pcm), ()),
        call_ensures(SfxCache::<S>::get, (&*final(cache), asked), after),
    ensures
        asked@ == path@ ==> (after matches Some(found) && found@ == pcm@),
        asked@ != path@ ==> (after is Some <==> before is Some),
        asked@ != path@ && after is Some ==> after->Some_0@ == before->Some_0@,
{
}

/// A sound that is there already is handed out as it is, and its file is not looked at. One that is
/// not comes from its file, and is kept only if it could be had.
pub proof fn law_sounds_are_fetched_once<S: Copy, D: FrameDecoder<S>>(
    cache: &mut SfxCache<S>,
    path: &str,
    data: Option<&[u8]>,
    decoder: Option<D>,
    pcm: Option<Vec<S>>,
)
    requires
        call_ensures(SfxCache::<S>::fetch::<D>, (cache, path, data, decoder), pcm),
    ensures
        old(cache)@.contains_key(path@) ==> (pcm matches Some(found) && found@ == old(
            cache,
        )@[path@] && final(cache)@ == old(cache)@),
        !old(cache)@.contains_key(path@) && (data is None || decoder is None) ==> pcm is None,
        pcm is None ==> final(cache)@ == old(cache)@,
        pcm matches Some(found) ==> final(cache)@.contains_key(path@) && final(cache)@[path@]
            == found@,
        forall|other: Seq<char>|
            other != path@ ==> (#[trigger] final(cache)@.contains_key(other) <==> old(
                cache,
            )@.contains_key(other)),
{
}

/// A log starts empty, keeps to its limit, and ends with the line that was logged last.
pub proof fn law_logs_end_with_the_last_line<T>(
    limit: usize,
    fresh: LogSink<T>,
    sink: &mut LogSink<T>,
    line: T,
)
    requires
        call_ensures(LogSink::<T>::new, (limit,), fresh),
        old(sink).limit > 0,
        old(sink).lines@.len() <= old(sink).limit,
        call_ensures(LogSink::<T>::push, (sink, line), ()),
    ensures
        fresh.lines@.len() == 0 && fresh.limit == limit,
        final(sink).limit == old(sink).limit,
        final(sink).lines@.last() == line,
        old(sink).lines@.len() < old(sink).limit ==> final(sink).lines@ =~= old(sink).lines@.push(
            line,
        ),
        old(sink).lines@.len() == old(sink).limit ==> final(sink).lines@ =~= old(
            sink,
        ).lines@.drop_first().push(line),
{
}

/// The text for an empty room changes only when the last other one leaves.
pub proof fn law_texts_change_with_the_last_to_leave(
    room: &mut EmptyRoom,
    empty: bool,
    text: String,
)
    requires
        call_ensures(EmptyRoom::note, (room, empty, text), ()),
    ensures
        final(room).was_empty == empty,
        empty && !old(room).was_empty ==> final(room).message == text,
        !empty || old(room).was_empty ==> final(room).message == old(room).message,
{
}

/// Whenever the text changes, it becomes one of those that there are.
pub proof fn law_texts_are_chosen_from_those_given(
    texts: &Vec<String>,
    fresh: EmptyRoom,
    room: &mut EmptyRoom,
    empty: bool,
)
    requires
        texts@.len() > 0,
        call_ensures(EmptyRoom::new, (texts,), fresh),
        call_ensures(EmptyRoom::update, (room, empty, texts), ()),
    ensures
        fresh.was_empty,
        exists|i: int| 0 <= i < texts@.len() && fresh.message@ == (#[trigger] texts@[i])@,
        final(room).was_empty == empty,
        empty && !old(room).was_empty ==> exists|i: int|
            0 <= i < texts@.len() && final(room).message@ == (#[trigger] texts@[i])@,
        !empty || old(room).was_empty ==> final(room).message == old(room).message,
{
}

/// A session starts at rest, for the room that it was made for, and unconnected.
pub proof fn law_sessions_start_at_rest(
    host: &String,
    room_name: String,
    channels: Channels,
    session: Session,
)
    requires
        call_ensures(Session::new, (host, room_name, channels), session),
    ensures
        session.phase is Resting,
        !session.connected,
        session.room_name == room_name,
        session.channels == channels,
{
}

/// Whoever was in the room, nobody is when a connection opens, and nothing is left of their voices.
/// At any other time both stay.
pub proof fn law_connections_open_on_empty_rooms<S: Copy, V>(
    session: &mut Session,
    client: &mut ClientState<S>,
    voices: &mut HashMap<u32, V>,
    event: NetEvent,
    action: NetAction,
    id: u32,
)
    requires
        call_ensures(Session::attend::<S, V>, (session, client, voices, event), action),
    ensures
        action is Open ==> !final(client)@.peers.contains_key(id) && !final(voices)@.contains_key(
            id,
        ),
        !(action is Open) ==> final(client)@ == old(client)@ && final(voices)@ == old(voices)@,
        final(client).mute_output == old(client).mute_output,
        final(client)@.sfx == old(client)@.sfx,
{
    assert(final(client)@.mute_output == final(client).mute_output);
    assert(old(client)@.mute_output == old(client).mute_output);
}

/// The lowest and the highest number that wait are found, whenever any does.
pub proof fn law_bounds_hold_all_numbers(
    packets: &BTreeMap<u32, Vec<u8>>,
    bounds: Option<(u32, u32)>,
    k: u32,
)
    requires
        call_ensures(crate::jitter::sequence_bounds, (packets,), bounds),
    ensures
        packets@.contains_key(k) ==> bounds is Some,
        bounds matches Some((first, last)) ==> {
            &&& packets@.contains_key(first) && packets@.contains_key(last)
            &&& packets@.contains_key(k) ==> first <= k <= last
        },
{
    if packets@.contains_key(k) {
        assert(packets@.dom().contains(k));
    }
}

/// What is older than a limit is dropped, and nothing else: the rest stays what it was.
pub proof fn law_only_the_old_is_dropped(
    packets: &mut BTreeMap<u32, Vec<u8>>,
    lost: &mut BTreeSet<u32>,
    limit: u32,
    k: u32,
)
    requires
        call_ensures(crate::jitter::drop_packets_before, (packets, limit), ()),
        call_ensures(crate::jitter::drop_lost_before, (lost, limit), ()),
    ensures
        final(packets)@.contains_key(k) <==> old(packets)@.contains_key(k) && k >= limit,
        final(packets)@.contains_key(k) ==> final(packets)@[k] == old(packets)@[k],
        final(lost)@.contains(k) <==> old(lost)@.contains(k) && k >= limit,
{
}

/// What a client puts in a datagram, a reader takes out again.
pub proof fn law_client_packets_are_read_back<'a>(
    sequence: u32,
    payload: &[u8],
    data: Vec<u8>,
    received: &'a [u8],
    packet: Option<ClientAudioPacket<'a>>,
)
    requires
        call_ensures(ClientAudioPacket::serialize, (sequence, payload), data),
        received@ == data@,
        call_ensures(ClientAudioPacket::<'a>::deserialize, (received,), packet),
    ensures
        packet matches Some(p) && p.sequence == sequence && p.payload@ == payload@,
{
    assert(data@.subrange(0, 4) =~= crate::bytes::le_bytes(sequence));
    crate::bytes::lemma_le_round_trip(sequence, data@, 0);
    assert(data@.subrange(4, data@.len() as int) =~= payload@);
}

/// What the relay puts in a datagram, a client takes out again.
pub proof fn law_relayed_packets_are_read_back(
    sent: &ServerAudioPacket,
    data: Vec<u8>,
    received: &[u8],
    packet: Option<ServerAudioPacket>,
)
    requires
        call_ensures(ServerAudioPacket::serialize, (sent,), data),
        received@ == data@,
        call_ensures(ServerAudioPacket::deserialize, (received,), packet),
    ensures
        packet matches Some(p) && p.peer_id == sent.peer_id && p.sequence == sent.sequence
            && p.payload@ == sent.payload@,
{
    assert(data@.subrange(0, 4) =~= crate::bytes::le_bytes(sent.peer_id));
    crate::bytes::lemma_le_round_trip(sent.peer_id, data@, 0);
    assert(data@.subrange(4, 8) =~= crate::bytes::le_bytes(sent.sequence));
    crate::bytes::lemma_le_round_trip(sent.sequence, data@, 4);
    assert(data@.subrange(8, data@.len() as int) =~= sent.payload@);
}

/// The other layout is never the same, and the third method from any is the same again.
pub proof fn law_switches_come_round(
    channels: Channels,
    other: Channels,
    method: DenoiseMethod,
    next: DenoiseMethod,
)
    requires
        call_ensures(Channels::toggled, (&channels,), other),
        call_ensures(DenoiseMethod::next, (&method,), next),
    ensures
        channels is Mono <==> other is Stereo,
        method is Off <==> next is RNNoise,
        method is RNNoise <==> next is DFN3,
        method is DFN3 <==> next is Off,
{
}

/// A model that was loaded before is ready at once. Else the first directory that exists is named,
/// and what it holds is yet to be loaded.
pub proof fn law_clients_start_with_a_model_if_there_is_one(
    loaded: Option<String>,
    models: bool,
    model: bool,
    dfn3: bool,
    start: StartupModel,
)
    requires
        call_ensures(crate::models::startup_model, (loaded, models, model, dfn3), start),
    ensures
        start.ready <==> loaded is Some,
        loaded is Some ==> start.path == loaded,
        loaded is None ==> (start.path is Some <==> models || model || dfn3),
        loaded is None && models ==> start.path->Some_0@ == "models"@,
        loaded is None && !models && model ==> start.path->Some_0@ == "model"@,
        loaded is None && !models && !model && dfn3 ==> start.path->Some_0@ == "dfn3"@,
{
}

/// What is taken from a directory is a packed model.
pub proof fn law_packed_models_are_taken(
    names: &Vec<String>,
    unreadable: bool,
    index: Result<usize, ArchiveError>,
)
    requires
        call_ensures(crate::models::find_archive, (names, unreadable), index),
    ensures
        index matches Ok(i) ==> {
            &&& i < names@.len()
            &&& names@[i as int]@.len() >= 7
            &&& names@[i as int]@.skip(names@[i as int]@.len() - 7) == ".tar.gz"@
        },
{
    reveal_strlit(".tar.gz");
}

/// A directory without a packed model gives none, and says whether all of it could be read.
pub proof fn law_directories_without_models_give_none(
    names: &Vec<String>,
    unreadable: bool,
    index: Result<usize, ArchiveError>,
)
    requires
        call_ensures(crate::models::find_archive, (names, unreadable), index),
        forall|j: int|
            0 <= j < names@.len() ==> !crate::models::is_archive((#[trigger] names@[j])@),
    ensures
        index is Err,
        index->Err_0 is Unreadable <==> unreadable,
        index->Err_0 is Missing <==> !unreadable,
{
}

/// A message names the reason last, word for word, and messages of different failures differ in
/// what stands before it.
pub proof fn law_messages_end_with_their_reason(reason: String, text: String, error: ProxaError)
    requires
        error == ProxaError::Network(reason) || error == ProxaError::BitrateChange(reason) || error
            == ProxaError::ChannelSwitch(reason) || error == ProxaError::AudioInit(reason) || error
            == ProxaError::ClientInit(reason) || error == ProxaError::Internal(reason),
        call_ensures(ProxaError::message, (&error,), text),
    ensures
        text@.len() > reason@.len(),
        text@.skip(text@.len() - reason@.len()) =~= reason@,
        error is Network ==> text@ == "network session error: "@ + reason@,
        error is BitrateChange ==> text@ == "failed to change bitrate: "@ + reason@,
        error is ChannelSwitch ==> text@ == "failed to change audio channels: "@ + reason@,
        error is AudioInit ==> text@ == "failed to initialize audio backend: "@ + reason@,
        error is ClientInit ==> text@ == "failed to create client object: "@ + reason@,
        error is Internal ==> text@ == "internal logic error: "@ + reason@,
{
    reveal_strlit("network session error: ");
    reveal_strlit("failed to change bitrate: ");
    reveal_strlit("failed to change audio channels: ");
    reveal_strlit("failed to initialize audio backend: ");
    reveal_strlit("failed to create client object: ");
    reveal_strlit("internal logic error: ");
}

} // verus!
