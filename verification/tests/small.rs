use proxa::cli::{command, is_self_signed_allowed, Command, EmptyRoom, Key, LogSink};
use proxa::error::ProxaError;
use proxa::jitter::{drop_lost_before, drop_packets_before, sequence_bounds};
use proxa::models::{ends_with, find_archive, startup_model, ArchiveError};
use proxa::paths::{names_same_place, same_place};
use proxa::routing::{route_input, route_output, stereo_samples, InputRoute, OutputRoute};
use proxa::samples::{
    append_samples, duplicate_channels, first_two_channels, pad, spread_stereo, take_front,
};
use proxa::types::{Channels, DenoiseMethod, FRAME_DURATION_MS, OPUS_SAMPLE_RATE, SILENCE_BITRATE};
use std::collections::{BTreeMap, BTreeSet};

#[test]
fn constants() {
    assert_eq!(OPUS_SAMPLE_RATE, 48000);
    assert_eq!(FRAME_DURATION_MS, 20);
    assert_eq!(SILENCE_BITRATE, 8000);
}

#[test]
fn denoise_methods_cycle() {
    assert_eq!(DenoiseMethod::Off.next(), DenoiseMethod::RNNoise);
    assert_eq!(DenoiseMethod::RNNoise.next(), DenoiseMethod::DFN3);
    assert_eq!(DenoiseMethod::DFN3.next(), DenoiseMethod::Off);
}

#[test]
fn channel_counts() {
    assert_eq!(Channels::from_count(0), Channels::Mono);
    assert_eq!(Channels::from_count(1), Channels::Mono);
    assert_eq!(Channels::from_count(2), Channels::Stereo);
    assert_eq!(Channels::from_count(255), Channels::Stereo);
    assert_eq!(Channels::Mono.count(), 1);
    assert_eq!(Channels::Stereo.count(), 2);
    assert_eq!(Channels::Mono.toggled(), Channels::Stereo);
    assert_eq!(Channels::Stereo.toggled(), Channels::Mono);
}

#[test]
fn error_messages() {
    let why = || "why".to_string();
    let cases = vec![
        (ProxaError::AudioInit(why()), "failed to initialize audio backend: why"),
        (ProxaError::ClientInit(why()), "failed to create client object: why"),
        (ProxaError::ChannelSwitch(why()), "failed to change audio channels: why"),
        (ProxaError::BitrateChange(why()), "failed to change bitrate: why"),
        (ProxaError::Network(why()), "network session error: why"),
        (ProxaError::Internal(why()), "internal logic error: why"),
        (ProxaError::InvalidRoom, "room name is empty or invalid"),
    ];
    for (error, text) in cases {
        assert_eq!(error.message(), text);
    }
}

#[test]
fn loaded_models_come_first() {
    let start = startup_model(Some("here".to_string()), true, true, true);
    assert_eq!(start.path, Some("here".to_string()));
    assert!(start.ready);
}

#[test]
fn model_directories_in_order() {
    let path = |a, b, c| startup_model(None, a, b, c).path;
    assert_eq!(path(true, true, true), Some("models".to_string()));
    assert_eq!(path(false, true, true), Some("model".to_string()));
    assert_eq!(path(false, false, true), Some("dfn3".to_string()));
    assert_eq!(path(false, false, false), None);
    assert!(!startup_model(None, true, false, false).ready);
}

#[test]
fn archives() {
    assert!(ends_with("model.tar.gz", ".tar.gz"));
    assert!(ends_with(".tar.gz", ".tar.gz"));
    assert!(!ends_with("tar.gz", ".tar.gz"));
    assert!(!ends_with("model.tar.gzz", ".tar.gz"));
    assert!(ends_with("änderung", "ung"));
    assert!(ends_with("x", ""));
    let names = |list: &[&str]| list.iter().map(|n| n.to_string()).collect::<Vec<String>>();
    let list = names(&["a.txt", "b.tar.gz", "c.tar.gz"]);
    assert_eq!(find_archive(&list, false), Ok(1));
    assert_eq!(find_archive(&list, true), Ok(1));
    assert_eq!(find_archive(&names(&["a.txt"]), false), Err(ArchiveError::Missing));
    assert_eq!(find_archive(&names(&["a.txt"]), true), Err(ArchiveError::Unreadable));
    assert_eq!(find_archive(&names(&[]), false), Err(ArchiveError::Missing));
}

#[test]
fn microphone_routes() {
    assert_eq!(route_input(1, Channels::Mono), InputRoute::Direct);
    assert_eq!(route_input(2, Channels::Stereo), InputRoute::Direct);
    assert_eq!(route_input(1, Channels::Stereo), InputRoute::Duplicate);
    assert_eq!(route_input(2, Channels::Mono), InputRoute::Average);
    assert_eq!(route_input(6, Channels::Mono), InputRoute::Average);
    assert_eq!(route_input(4, Channels::Stereo), InputRoute::FirstTwo);
}

#[test]
fn speaker_routes() {
    assert_eq!(route_output(1), OutputRoute::Average);
    assert_eq!(route_output(2), OutputRoute::Direct);
    assert_eq!(route_output(8), OutputRoute::Spread);
    assert_eq!(stereo_samples(1, 256), 512);
    assert_eq!(stereo_samples(2, 256), 256);
    assert_eq!(stereo_samples(6, 601), 200);
}

#[test]
fn sample_moves() {
    let mut v = vec![1];
    append_samples(&mut v, &[2, 3]);
    pad(&mut v, 9, 2);
    assert_eq!(v, vec![1, 2, 3, 9, 9]);
    assert_eq!(take_front(&mut v, 2), vec![1, 2]);
    assert_eq!(v, vec![3, 9, 9]);
    assert!(take_front(&mut v, 0).is_empty());
    assert_eq!(take_front(&mut v, 3), vec![3, 9, 9]);
    assert!(v.is_empty());
}

#[test]
fn channel_layouts() {
    assert_eq!(duplicate_channels(&[1, 2]), vec![1, 1, 2, 2]);
    assert_eq!(first_two_channels(&[1, 2, 3, 4, 5, 6, 7], 3), vec![1, 2, 4, 5]);
    assert_eq!(first_two_channels(&[1, 2], 1), vec![1, 1, 2, 2]);
    assert_eq!(spread_stereo(&[1, 2, 3, 4], 4, 0), vec![1, 2, 0, 0, 3, 4, 0, 0]);
    assert_eq!(spread_stereo(&[1, 2, 3], 2, 0), vec![1, 2]);
}

#[test]
fn packets_by_number() {
    let mut packets: BTreeMap<u32, Vec<u8>> = BTreeMap::new();
    assert_eq!(sequence_bounds(&packets), None);
    for k in [7, 3, 9] {
        packets.insert(k, vec![]);
    }
    assert_eq!(sequence_bounds(&packets), Some((3, 9)));
    drop_packets_before(&mut packets, 7);
    assert_eq!(sequence_bounds(&packets), Some((7, 9)));
    let mut lost: BTreeSet<u32> = [1, 5, 6].into_iter().collect();
    drop_lost_before(&mut lost, 5);
    assert_eq!(lost.into_iter().collect::<Vec<u32>>(), vec![5, 6]);
}

#[test]
fn self_signed_relays() {
    assert!(!is_self_signed_allowed(true, true, true));
    assert!(is_self_signed_allowed(false, true, false));
    assert!(is_self_signed_allowed(false, false, true));
    assert!(!is_self_signed_allowed(false, false, false));
}

#[test]
fn keys() {
    assert_eq!(command(Key::Char('x'), false, false), Command::LeaveRoom);
    assert_eq!(command(Key::Char('c'), true, false), Command::Exit);
    assert_eq!(command(Key::Char('c'), false, false), Command::Nothing);
    assert_eq!(command(Key::Char('n'), false, false), Command::CycleDenoise);
    assert_eq!(command(Key::Char('e'), false, false), Command::ToggleEcho);
    assert_eq!(command(Key::Char('m'), false, false), Command::ToggleChannels);
    assert_eq!(command(Key::Char('q'), true, true), Command::Nothing);
    assert_eq!(command(Key::Up, false, false), Command::RaiseLoss(10));
    assert_eq!(command(Key::Up, false, true), Command::RaiseLoss(1));
    assert_eq!(command(Key::Down, false, false), Command::LowerLoss(10));
    assert_eq!(command(Key::Down, false, true), Command::LowerLoss(1));
    assert_eq!(command(Key::Right, false, false), Command::RaiseJitter(5));
    assert_eq!(command(Key::Right, false, true), Command::RaiseJitter(1));
    assert_eq!(command(Key::Left, false, false), Command::LowerJitter(20));
    assert_eq!(command(Key::Left, false, true), Command::LowerJitter(1));
    assert_eq!(command(Key::Other, true, true), Command::Nothing);
}

#[test]
fn the_log_keeps_the_newest() {
    let mut sink: LogSink<u32> = LogSink::new(3);
    for line in 1..=5 {
        sink.push(line);
    }
    assert_eq!(sink.lines.iter().copied().collect::<Vec<u32>>(), vec![3, 4, 5]);
}

#[test]
fn an_empty_room_speaks() {
    let texts = vec!["one".to_string(), "two".to_string(), "three".to_string()];
    let mut room = EmptyRoom::new(&texts);
    assert!(texts.contains(&room.message));
    assert!(room.was_empty);
    let first = room.message.clone();
    room.update(true, &texts);
    assert_eq!(room.message, first);
    room.update(false, &texts);
    assert_eq!(room.message, first);
    assert!(!room.was_empty);
    room.update(true, &texts);
    assert!(texts.contains(&room.message));
    assert!(room.was_empty);
}

#[test]
fn a_new_text_is_chosen_when_the_room_empties() {
    let mut room = EmptyRoom { message: "old".to_string(), was_empty: false };
    room.update(true, &vec!["new".to_string()]);
    assert_eq!(room.message, "new");
}

#[test]
fn chosen_texts_are_noted() {
    let mut room = EmptyRoom { message: "old".to_string(), was_empty: true };
    room.note(true, "a".to_string());
    assert_eq!(room.message, "old");
    room.note(false, "b".to_string());
    assert_eq!(room.message, "old");
    room.note(true, "c".to_string());
    assert_eq!(room.message, "c");
}

#[test]
fn a_room_without_texts_says_so() {
    let none: Vec<String> = vec![];
    let mut room = EmptyRoom::new(&none);
    assert!(room.was_empty);
    assert_eq!(
        room.message,
        "we've failed to perform a task that is deterministic to pass and as such cannot fail \
         normally, your hardware is likely severly messed up as this should be impossible to \
         trigger without faulty ram, memory corruption, or glitching your CPU"
    );
    room.update(false, &none);
    room.update(true, &none);
    assert_eq!(
        room.message,
        "your hardware is severly messed up or something this should be impossible to trigger"
    );
}

#[test]
fn paths_to_the_same_place() {
    let same = |a: &str, b: &str| same_place(&a.to_string(), &b.to_string());
    assert!(same("models", "models"));
    assert!(same("models", "models/"));
    assert!(same("a//b", "a/b"));
    assert!(same("a/./b/.", "a/b"));
    assert!(same("/a", "//a/"));
    assert!(same("/./a", "/a"));
    assert!(same(".", "./"));
    assert!(!same("models", "model"));
    assert!(!same("models", "/models"));
    assert!(!same("./models", "models"));
    assert!(!same("a/../b", "b"));
    assert!(!same("a/b", "ab"));
    assert!(!same("a", "a/b"));
    assert!(!same("", "/"));
    assert!(same("", ""));
    assert!(!same(".", ""));
    for a in ["", "/", ".", "a", "./a", "a/.", "a/./b", "//a//b/", "..", "a/..", "/.", "größe/ß/"] {
        for b in ["", "/", ".", "a", "./a", "a/.", "a/b", "/a/b", "..", "a/..", "/", "größe/ß"] {
            assert_eq!(same(a, b), std::path::Path::new(a) == std::path::Path::new(b), "{a} {b}");
        }
    }
}

#[test]
fn paths_are_compared_as_the_system_does() {
    let spellings = [
        "a", "a/", "./a", "/a", "//a", "//a/b", "/a/b", "a\\b", "a/b", "a\\b/", "c:", "c:/", "C:/", "c:a",
        "c:/a", "c:/./a", "", ".", "..", "\\\\h\\s",
    ];
    for a in spellings {
        for b in spellings {
            assert_eq!(
                names_same_place(&a.to_string(), &b.to_string()),
                std::path::Path::new(a) == std::path::Path::new(b),
                "{a} {b}"
            );
        }
    }
    assert!(names_same_place(&"c:a/".to_string(), &"c:a".to_string()));
    assert!(!names_same_place(&"c:a".to_string(), &"c:b".to_string()));
}
