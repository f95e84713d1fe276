use ogg::{PacketWriteEndInfo, PacketWriter};
use proxa::assets::{
    append_frames, audio_packets, decode_packets, decode_sound, skip_headers, AssetError, SfxCache,
};
use proxa::refill::FrameDecoder;

fn file(packets: &[Vec<u8>]) -> Vec<u8> {
    let mut writer = PacketWriter::new(Vec::new());
    for (i, packet) in packets.iter().enumerate() {
        let end = if i + 1 == packets.len() {
            PacketWriteEndInfo::EndStream
        } else {
            PacketWriteEndInfo::EndPage
        };
        writer.write_packet(packet.clone(), 1, end, i as u64).unwrap();
    }
    writer.into_inner()
}

#[test]
fn audio_stands_behind_the_headers() {
    let packets: Vec<Vec<u8>> = vec![vec![1; 19], vec![2; 40], vec![3, 3], vec![4], vec![5; 600]];
    let audio = audio_packets(&file(&packets)).unwrap();
    assert_eq!(audio, packets[2..].to_vec());
}

#[test]
fn long_packets_span_pages() {
    let packets: Vec<Vec<u8>> = vec![vec![1; 19], vec![2; 40], vec![9; 100000], vec![7]];
    let audio = audio_packets(&file(&packets)).unwrap();
    assert_eq!(audio.len(), 2);
    assert_eq!(audio[0], vec![9; 100000]);
    assert_eq!(audio[1], vec![7]);
}

#[test]
fn headers_alone_are_no_audio() {
    let packets: Vec<Vec<u8>> = vec![vec![1; 19], vec![2; 40]];
    assert_eq!(audio_packets(&file(&packets)), Ok(vec![]));
    assert_eq!(audio_packets(&file(&packets[..1])), Ok(vec![]));
}

#[test]
fn other_files_are_refused() {
    assert_eq!(audio_packets(&[]), Err(AssetError::Container));
    assert_eq!(audio_packets(b"no container at all"), Err(AssetError::Container));
}

#[test]
fn a_fault_spoils_the_file() {
    let packets: Vec<Vec<u8>> = vec![vec![1; 19], vec![2; 40], vec![3; 10], vec![4; 10]];
    let mut data = file(&packets);
    let last = data.len() - 1;
    data[last] ^= 1;
    assert_eq!(audio_packets(&data), Err(AssetError::Container));
    let whole = file(&packets);
    assert_eq!(audio_packets(&whole[..whole.len() - 1]), Err(AssetError::Container));
}

#[test]
fn headers_are_skipped() {
    assert_eq!(skip_headers(vec![]), Vec::<Vec<u8>>::new());
    assert_eq!(skip_headers(vec![vec![1]]), Vec::<Vec<u8>>::new());
    assert_eq!(skip_headers(vec![vec![1], vec![2]]), Vec::<Vec<u8>>::new());
    assert_eq!(skip_headers(vec![vec![1], vec![2], vec![3]]), vec![vec![3]]);
}

#[test]
fn decoded_frames_are_collected() {
    let mut pcm = vec![0.5f32];
    append_frames(&mut pcm, &[1.0, 2.0, 3.0, 4.0, 5.0, 6.0], 2);
    assert_eq!(pcm, vec![0.5, 1.0, 2.0, 3.0, 4.0]);
    append_frames(&mut pcm, &[], 0);
    assert_eq!(pcm.len(), 5);
}

#[test]
fn sounds_are_kept() {
    let mut cache: SfxCache<i32> = SfxCache::new();
    let a = "a".to_string();
    let b = "b".to_string();
    assert_eq!(cache.get(&a), None);
    cache.insert(a.clone(), vec![1, 2]);
    cache.insert(b.clone(), vec![3]);
    assert_eq!(cache.get(&a), Some(vec![1, 2]));
    assert_eq!(cache.get(&b), Some(vec![3]));
    cache.insert(a.clone(), vec![]);
    assert_eq!(cache.get(&a), Some(vec![]));
    assert_eq!(cache.get(&b), Some(vec![3]));
    assert_eq!(cache.entries.len(), 2);
}

/// A decoder that counts, and gives as many frames as a packet has bytes.
struct Counter(i32);

impl FrameDecoder<i32> for Counter {
    fn decode(self, packet: &Vec<u8>, capacity: usize, fec: bool) -> (Self, Option<(usize, Vec<i32>)>) {
        assert_eq!(capacity, 11520);
        assert!(!fec);
        let count = packet.len();
        if packet.first() == Some(&0) {
            return (self, None);
        }
        let samples = vec![self.0; 2 * count];
        (Counter(self.0 + 1), Some((count, samples)))
    }

    fn reset(self) -> Self {
        Counter(0)
    }
}

#[test]
fn packets_are_decoded_in_order() {
    let packets = vec![vec![1], vec![0, 1], vec![7, 7], vec![1; 5761], vec![2]];
    assert_eq!(decode_packets(Counter(5), &packets), vec![5, 5, 6, 6, 6, 6, 8, 8]);
    assert!(decode_packets(Counter(5), &vec![]).is_empty());
}

#[test]
fn sounds_are_decoded() {
    let data = file(&[vec![9], vec![9], vec![1, 1], vec![2]]);
    assert_eq!(decode_sound(Counter(1), &data), Ok(vec![1, 1, 1, 1, 2, 2]));
    assert_eq!(decode_sound(Counter(1), b"no sound"), Err(AssetError::Container));
}

#[test]
fn sounds_are_fetched_once() {
    let mut cache: SfxCache<i32> = SfxCache::new();
    let data = file(&[vec![9], vec![9], vec![1]]);
    assert_eq!(cache.fetch::<Counter>("a", None, Some(Counter(1))), None);
    assert_eq!(cache.fetch::<Counter>("a", Some(&data), None), None);
    assert_eq!(cache.fetch("a", Some(b"no sound".as_slice()), Some(Counter(1))), None);
    assert_eq!(cache.entries.len(), 0);
    assert_eq!(cache.fetch("a", Some(&data), Some(Counter(4))), Some(vec![4, 4]));
    assert_eq!(cache.fetch("a", Some(&data), Some(Counter(5))), Some(vec![4, 4]));
    assert_eq!(cache.fetch::<Counter>("a", None, None), Some(vec![4, 4]));
    assert_eq!(cache.fetch("b", Some(&data), Some(Counter(5))), Some(vec![5, 5]));
    assert_eq!(cache.entries.len(), 2);
}
