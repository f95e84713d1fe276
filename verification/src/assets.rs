//! Sounds: what an Ogg file holds, and the sounds that were decoded already.

use crate::peer_model::MAX_FRAME;
use crate::refill::{ask, FrameDecoder};
use crate::samples::append_samples;
use vstd::hash_map::StringHashMap;
use vstd::prelude::*;
use vstd::slice::slice_subrange;

verus! {

/// The packets that stand in front of the audio: the header and the tags.
pub const HEADER_PACKETS: usize = 2;

/// A sound that cannot be used.
#[derive(Debug, Clone, Copy, PartialEq, Eq, Structural)]
pub enum AssetError {
    /// The file is no intact Ogg file.
    Container,
}

/// The Ogg reader's error.
#[verifier::external_type_specification]
#[verifier::external_body]
pub struct ExOggReadError(ogg::OggReadError);

/// The packets of an Ogg file that were not read yet: `ogg::PacketReader` on a file in memory.
/// Nothing of the reader is known but what the contracts below say by the names `ogg_contents`
/// and `unread`.
#[verifier::external_body]
pub struct PacketStream {
    reader: ogg::PacketReader<std::io::Cursor<Vec<u8>>>,
}

/// What an Ogg reader makes of a file: the packets that it yields, in order, and whether it then
/// comes to the end of the file rather than to a fault.
pub uninterp spec fn ogg_contents(data: Seq<u8>) -> (Seq<Seq<u8>>, bool);

/// What a reader has yet to yield, in the same form.
pub uninterp spec fn unread(stream: PacketStream) -> (Seq<Seq<u8>>, bool);

/// `ogg::PacketReader::new` on a copy of the file. Nothing was read yet.
#[verifier::external_body]
fn open_stream(data: &[u8]) -> (stream: PacketStream)
    ensures
        unread(stream) == ogg_contents(data@),
{
    PacketStream { reader: ogg::PacketReader::new(std::io::Cursor::new(data.to_vec())) }
}

/// `ogg::PacketReader::read_packet`, which yields the next packet's data. When none is left, it
/// tells the end of the file from a fault.
#[verifier::external_body]
fn read_packet(stream: &mut PacketStream) -> (packet: Result<Option<Vec<u8>>, ogg::OggReadError>)
    ensures
        match packet {
            Ok(Some(data)) => {
                &&& unread(*old(stream)).0.len() > 0
                &&& data@ == unread(*old(stream)).0[0]
                &&& unread(*final(stream)) == (
                    unread(*old(stream)).0.skip(1),
                    unread(*old(stream)).1,
                )
            },
            Ok(None) => unread(*old(stream)).0.len() == 0 && unread(*old(stream)).1,
            Err(_) => unread(*old(stream)).0.len() == 0 && !unread(*old(stream)).1,
        },
{
    match stream.reader.read_packet() {
        Ok(Some(packet)) => Ok(Some(packet.data)),
        Ok(None) => Ok(None),
        Err(error) => Err(error),
    }
}

/// The bytes of every packet.
pub open spec fn packet_views(packets: Seq<Vec<u8>>) -> Seq<Seq<u8>> {
    packets.map_values(|packet: Vec<u8>| packet@)
}

/// The packets behind the headers.
pub open spec fn audio_of(packets: Seq<Seq<u8>>) -> Seq<Seq<u8>> {
    if packets.len() <= HEADER_PACKETS {
        Seq::empty()
    } else {
        packets.skip(HEADER_PACKETS as int)
    }
}

/// All packets of an Ogg file. A fault anywhere spoils the whole file.
fn file_packets(data: &[u8]) -> (packets: Result<Vec<Vec<u8>>, AssetError>)
    ensures
        match packets {
            Ok(found) => (packet_views(found@), true) == ogg_contents(data@),
            Err(error) => !ogg_contents(data@).1 && error == AssetError::Container,
        },
{
    let mut stream = open_stream(data);
    let ghost all = unread(stream).0;
    let ghost intact = unread(stream).1;
    let mut packets: Vec<Vec<u8>> = Vec::new();
    assert(packet_views(packets@) + unread(stream).0 =~= all);
    loop
        invariant
            ogg_contents(data@) == (all, intact),
            packet_views(packets@) + unread(stream).0 == all,
            unread(stream).1 == intact,
        decreases unread(stream).0.len(),
    {
        let ghost left = unread(stream).0;
        match read_packet(&mut stream) {
            Ok(Some(packet)) => {
                let ghost before = packets@;
                packets.push(packet);
                assert(packet_views(packets@) =~= packet_views(before).push(packet@));
                assert(packet_views(packets@) + left.skip(1) =~= packet_views(before) + left);
            },
            Ok(None) => {
                assert(packet_views(packets@) + left =~= packet_views(packets@));
                return Ok(packets);
            },
            Err(_) => {
                return Err(AssetError::Container);
            },
        }
    }
}

/// Drops the headers.
pub fn skip_headers(packets: Vec<Vec<u8>>) -> (audio: Vec<Vec<u8>>)
    ensures
        packet_views(audio@) == audio_of(packet_views(packets@)),
{
    let mut all = packets;
    if all.len() <= HEADER_PACKETS {
        let audio: Vec<Vec<u8>> = Vec::new();
        assert(packet_views(audio@) =~= audio_of(packet_views(packets@)));
        return audio;
    }
    let audio = all.split_off(HEADER_PACKETS);
    assert(packet_views(audio@) =~= audio_of(packet_views(packets@)));
    audio
}

/// The audio packets of an Ogg file. A fault anywhere spoils the whole file.
pub fn audio_packets(data: &[u8]) -> (packets: Result<Vec<Vec<u8>>, AssetError>)
    ensures
        match packets {
            Ok(found) => ogg_contents(data@).1 && packet_views(found@) == audio_of(
                ogg_contents(data@).0,
            ),
            Err(error) => !ogg_contents(data@).1 && error == AssetError::Container,
        },
{
    match file_packets(data) {
        Ok(packets) => Ok(skip_headers(packets)),
        Err(error) => Err(error),
    }
}

/// Appends the first `frames` stereo frames of what a decoder gave.
pub fn append_frames<S: Copy>(pcm: &mut Vec<S>, decoded: &[S], frames: usize)
    requires
        2 * frames <= decoded@.len(),
    ensures
        final(pcm)@ == old(pcm)@ + decoded@.take(2 * frames as int),
{
    let available: usize = decoded.len();
    assert(2 * frames <= available);
    append_samples(pcm, slice_subrange(decoded, 0, 2 * frames));
    assert(decoded@.subrange(0, 2 * frames as int) =~= decoded@.take(2 * frames as int));
}

/// The samples of the frames that a decoder gave, one behind the other.
pub open spec fn joined<S>(frames: Seq<Option<(int, Seq<S>)>>) -> Seq<S>
    decreases frames.len(),
{
    if frames.len() == 0 {
        Seq::empty()
    } else {
        match frames.last() {
            Some((_, samples)) => joined(frames.drop_last()) + samples,
            None => joined(frames.drop_last()),
        }
    }
}

/// A decoder, in the states given, was handed every packet and gave these frames in stereo.
pub open spec fn decodes_all<S, D: FrameDecoder<S>>(
    packets: Seq<Seq<u8>>,
    decoders: Seq<D>,
    frames: Seq<Option<(int, Seq<S>)>>,
) -> bool {
    &&& decoders.len() == packets.len() + 1
    &&& frames.len() == packets.len()
    &&& forall|i: int|
        0 <= i < packets.len() ==> crate::refill::replies(
            decoders[i],
            decoders[i + 1],
            #[trigger] packets[i],
            2 * MAX_FRAME,
            false,
            2,
            MAX_FRAME as int,
            frames[i],
        )
}

/// `pcm` is what a decoder makes of packets. A packet that it cannot decode is passed over.
pub open spec fn is_decoded<S, D: FrameDecoder<S>>(
    decoder: D,
    packets: Seq<Seq<u8>>,
    pcm: Seq<S>,
) -> bool {
    exists|decoders: Seq<D>, frames: Seq<Option<(int, Seq<S>)>>| #[trigger]
        decodes_all(packets, decoders, frames) && decoders[0] == decoder && pcm == joined(frames)
}

/// Decodes packets to stereo, which is what an output is made of.
pub fn decode_packets<S: Copy, D: FrameDecoder<S>>(decoder: D, packets: &Vec<Vec<u8>>) -> (pcm: Vec<
    S,
>)
    ensures
        is_decoded(decoder, packet_views(packets@), pcm@),
{
    let ghost views = packet_views(packets@);
    let ghost mut decoders: Seq<D> = seq![decoder];
    let ghost mut frames: Seq<Option<(int, Seq<S>)>> = Seq::empty();
    let mut current: D = decoder;
    let mut pcm: Vec<S> = Vec::new();
    let mut i: usize = 0;
    assert(decodes_all(views.take(0), decoders, frames));
    while i < packets.len()
        invariant
            i <= packets@.len(),
            views == packet_views(packets@),
            decoders[0] == decoder,
            decoders.last() == current,
            decodes_all(views.take(i as int), decoders, frames),
            pcm@ == joined(frames),
        decreases packets@.len() - i,
    {
        let ghost read = views.take(i as int);
        let (next, frame) = ask::<S, D>(
            current,
            &packets[i],
            2 * MAX_FRAME,
            false,
            2,
            MAX_FRAME,
        );
        current = next;
        proof {
            let given = crate::refill::frame_view(frame);
            let states = decoders;
            let earlier = frames;
            decoders = decoders.push(next);
            frames = frames.push(given);
            assert(views.take(i + 1) =~= read.push(packets@[i as int]@));
            assert forall|j: int| 0 <= j < i + 1 implies crate::refill::replies(
                decoders[j],
                decoders[j + 1],
                #[trigger] views.take(i + 1)[j],
                2 * MAX_FRAME,
                false,
                2,
                MAX_FRAME as int,
                frames[j],
            ) by {
                if j < i {
                    assert(read[j] == views.take(i + 1)[j]);
                    assert(decoders[j] == states[j] && decoders[j + 1] == states[j + 1]);
                    assert(frames[j] == earlier[j]);
                }
            }
            assert(frames.drop_last() =~= earlier);
        }
        if let Some((n, samples)) = frame {
            append_frames(&mut pcm, samples.as_slice(), n);
            assert(samples@.take(2 * n as int) =~= samples@);
        }
        i = i + 1;
    }
    assert(views.take(i as int) =~= views);
    pcm
}

/// Decodes an Ogg file to stereo. A fault anywhere spoils the whole file.
pub fn decode_sound<S: Copy, D: FrameDecoder<S>>(decoder: D, data: &[u8]) -> (pcm: Result<
    Vec<S>,
    AssetError,
>)
    ensures
        match pcm {
            Ok(samples) => ogg_contents(data@).1 && is_decoded(
                decoder,
                audio_of(ogg_contents(data@).0),
                samples@,
            ),
            Err(error) => !ogg_contents(data@).1 && error == AssetError::Container,
        },
{
    match audio_packets(data) {
        Ok(packets) => Ok(decode_packets(decoder, &packets)),
        Err(error) => Err(error),
    }
}

/// The sounds that were decoded already.
#[verifier::reject_recursive_types(S)]
pub struct SfxCache<S> {
    pub entries: StringHashMap<Vec<S>>,
}

impl<S> View for SfxCache<S> {
    type V = Map<Seq<char>, Seq<S>>;

    open spec fn view(&self) -> Map<Seq<char>, Seq<S>> {
        self.entries@.map_values(|pcm: Vec<S>| pcm@)
    }
}

impl<S: Copy> SfxCache<S> {
    pub fn new() -> (cache: Self)
        ensures
            cache@ == Map::<Seq<char>, Seq<S>>::empty(),
    {
        let cache = SfxCache { entries: StringHashMap::new() };
        assert(cache@ =~= Map::<Seq<char>, Seq<S>>::empty());
        cache
    }

    /// A copy of the sound that was kept under a path.
    pub fn get(&self, path: &str) -> (pcm: Option<Vec<S>>)
        ensures
            match pcm {
                Some(samples) => self@.contains_key(path@) && samples@ == self@[path@],
                None => !self@.contains_key(path@),
            },
    {
        match self.entries.get(path) {
            Some(kept) => {
                let mut samples: Vec<S> = Vec::new();
                append_samples(&mut samples, kept.as_slice());
                assert(samples@ =~= kept@);
                Some(samples)
            },
            None => None,
        }
    }

    /// Keeps a sound, in place of what was kept under the same path.
    pub fn insert(&mut self, path: String, pcm: Vec<S>)
        ensures
            final(self)@ == old(self)@.insert(path@, pcm@),
    {
        self.entries.insert(path, pcm);
        assert(self@ =~= old(self)@.insert(path@, pcm@));
    }

    /// The sound under a path: what is kept there, or else what a decoder makes of the file, which
    /// is then kept. There is none where the file is missing or broken, or no decoder could be
    /// made; nothing is kept then.
    pub fn fetch<D: FrameDecoder<S>>(
        &mut self,
        path: &str,
        data: Option<&[u8]>,
        decoder: Option<D>,
    ) -> (pcm: Option<Vec<S>>)
        ensures
            if old(self)@.contains_key(path@) {
                &&& pcm matches Some(samples) && samples@ == old(self)@[path@]
                &&& final(self)@ == old(self)@
            } else {
                match (data, decoder) {
                    (Some(file), Some(fresh)) => if ogg_contents(file@).1 {
                        &&& pcm matches Some(samples) && is_decoded(
                            fresh,
                            audio_of(ogg_contents(file@).0),
                            samples@,
                        ) && final(self)@ == old(self)@.insert(path@, samples@)
                    } else {
                        pcm is None && final(self)@ == old(self)@
                    },
                    _ => pcm is None && final(self)@ == old(self)@,
                }
            },
    {
        if let Some(kept) = self.get(path) {
            return Some(kept);
        }
        match (data, decoder) {
            (Some(file), Some(fresh)) => match decode_sound(fresh, file) {
                Ok(samples) => {
                    let mut copy: Vec<S> = Vec::new();
                    append_samples(&mut copy, samples.as_slice());
                    assert(copy@ =~= samples@);
                    self.insert(path.to_string(), copy);
                    Some(samples)
                },
                Err(_) => None,
            },
            _ => None,
        }
    }
}

} // verus!
