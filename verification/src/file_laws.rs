//! What holds of sound files, of models and their paths, of keys and of log lines.

use crate::cli::{Command, Key};
use crate::refill::FrameDecoder;
use vstd::prelude::*;

verus! {

/// The first two packets of a sound file are headers; all behind them is audio, in order.
pub proof fn law_two_headers_are_skipped(packets: Seq<Seq<u8>>)
    ensures
        ({
            let audio = crate::assets::audio_of(packets);
            &&& packets.len() <= 2 ==> audio.len() == 0
            &&& packets.len() > 2 ==> audio.len() == packets.len() - 2
            &&& forall|i: int| 0 <= i < audio.len() ==> #[trigger] audio[i] == packets[i + 2]
        }),
{
}

/// Frames are joined in order; one that could not be decoded leaves no gap.
pub proof fn law_frames_are_joined_in_order<S>(
    frames: Seq<Option<(int, Seq<S>)>>,
    n: int,
    samples: Seq<S>,
)
    ensures
        crate::assets::joined(Seq::<Option<(int, Seq<S>)>>::empty()).len() == 0,
        crate::assets::joined(frames.push(Some((n, samples)))) == crate::assets::joined(frames)
            + samples,
        crate::assets::joined(frames.push(None)) == crate::assets::joined(frames),
{
    assert(frames.push(Some((n, samples))).drop_last() =~= frames);
    assert(frames.push(None).drop_last() =~= frames);
}

/// Every packet of a sound goes to the decoder as it is, in order and in stereo, with room for the
/// longest frame and not as redundancy; the decoder goes on as it is from one to the next.
pub proof fn law_sounds_are_decoded_packet_by_packet<S, D: FrameDecoder<S>>(
    rule: spec_fn(D, Seq<u8>, int, bool) -> (D, Option<(int, Seq<S>)>),
    packets: Seq<Seq<u8>>,
    decoders: Seq<D>,
    frames: Seq<Option<(int, Seq<S>)>>,
    i: int,
)
    requires
        crate::refill_laws::answers_by(rule),
        crate::assets::decodes_all(packets, decoders, frames),
        0 <= i < packets.len(),
    ensures
        frames.len() == packets.len(),
        decoders[i + 1] == rule(decoders[i], packets[i], 11520, false).0,
        frames[i] == crate::refill_laws::counting(
            rule(decoders[i], packets[i], 11520, false).1,
            2,
            5760,
        ),
{
    let _ = packets[i];
    crate::refill_laws::lemma_reply(
        rule,
        decoders[i],
        decoders[i + 1],
        packets[i],
        11520,
        false,
        2,
        5760,
        frames[i],
    );
}

/// Each key has its meaning, and any other has none: the arrows change simulated loss and jitter,
/// by one unit with shift and else by more; control is needed to exit.
pub proof fn law_keys_have_one_meaning(key: Key, control: bool, shift: bool)
    ensures
        ({
            let meaning = crate::cli::meaning(key, control, shift);
            &&& meaning is LeaveRoom <==> key == Key::Char('x')
            &&& meaning is Exit <==> key == Key::Char('c') && control
            &&& meaning is CycleDenoise <==> key == Key::Char('n')
            &&& meaning is ToggleEcho <==> key == Key::Char('e')
            &&& meaning is ToggleChannels <==> key == Key::Char('m')
            &&& meaning is RaiseLoss <==> key is Up
            &&& meaning is LowerLoss <==> key is Down
            &&& meaning is RaiseJitter <==> key is Right
            &&& meaning is LowerJitter <==> key is Left
            &&& match meaning {
                Command::RaiseLoss(step) | Command::LowerLoss(step) => step == if shift {
                    1u32
                } else {
                    10
                },
                Command::RaiseJitter(step) => step == if shift {
                    1u32
                } else {
                    5
                },
                Command::LowerJitter(step) => step == if shift {
                    1u32
                } else {
                    20
                },
                _ => true,
            }
        }),
{
}

/// A log keeps the newest lines in order: one more line comes last, and the first goes only where
/// there is no room for it.
pub proof fn law_the_newest_lines_are_kept<T>(lines: Seq<T>, limit: int, line: T)
    requires
        0 < limit,
        lines.len() <= limit,
    ensures
        ({
            let after = crate::cli::logged(lines, limit, line);
            let gone = if lines.len() == limit {
                1int
            } else {
                0
            };
            &&& after.len() == lines.len() + 1 - gone
            &&& after.last() == line
            &&& forall|i: int|
                0 <= i < after.len() - 1 ==> #[trigger] after[i] == lines[i + gone]
        }),
{
}

/// The model to start with is in the first directory of `models`, `model` and `dfn3` that exists.
pub proof fn law_models_are_searched_in_order(models: bool, model: bool, dfn3: bool)
    ensures
        ({
            let found = crate::models::found_model(models, model, dfn3);
            &&& found is None <==> !models && !model && !dfn3
            &&& models ==> found == Some("models"@)
            &&& !models && model ==> found == Some("model"@)
            &&& !models && !model && dfn3 ==> found == Some("dfn3"@)
        }),
{
}

/// A packed model is known by its last seven letters.
pub proof fn law_packed_models_are_known_by_their_ending(name: Seq<char>)
    ensures
        crate::models::is_archive(name + seq!['.', 't', 'a', 'r', '.', 'g', 'z']),
        crate::models::is_archive(name) ==> name.len() >= 7 && name.skip(name.len() - 7) == seq![
            '.',
            't',
            'a',
            'r',
            '.',
            'g',
            'z',
        ],
{
    reveal_strlit(".tar.gz");
    let suffix = seq!['.', 't', 'a', 'r', '.', 'g', 'z'];
    assert(".tar.gz"@ =~= suffix);
    let full = name + suffix;
    assert(full.skip(full.len() - 7) =~= suffix);
}

/// More of a path, behind a slash.
proof fn lemma_piece_added(path: Seq<char>, more: Seq<char>)
    requires
        forall|i: int| 0 <= i < more.len() ==> more[i] != '/',
    ensures
        crate::paths::pieces(path.push('/') + more) == crate::paths::pieces(path).push(more),
    decreases more.len(),
{
    let start = path.push('/');
    if more.len() == 0 {
        assert(start + more =~= start);
        assert(start.drop_last() =~= path);
        assert(more =~= Seq::<char>::empty());
    } else {
        let less = more.drop_last();
        lemma_piece_added(path, less);
        assert((start + more).drop_last() =~= start + less);
        assert((start + more).last() == more.last());
        let earlier = crate::paths::pieces(path).push(less);
        assert(earlier.drop_last() =~= crate::paths::pieces(path));
        assert(less.push(more.last()) =~= more);
    }
}

/// A path has at least one piece.
proof fn lemma_some_piece(path: Seq<char>)
    ensures
        crate::paths::pieces(path).len() > 0,
    decreases path.len(),
{
    if path.len() > 0 {
        lemma_some_piece(path.drop_last());
    }
}

/// A piece behind a slash leads one step further, unless it is empty or a dot, which leads nowhere.
pub proof fn law_pieces_lead_on(path: Seq<char>, piece: Seq<char>)
    requires
        path.len() > 0,
        forall|i: int| 0 <= i < piece.len() ==> piece[i] != '/',
    ensures
        ({
            let (rooted, way) = crate::paths::place(path);
            crate::paths::place(path.push('/') + piece) == if piece.len() == 0 || piece
                == seq!['.'] {
                (rooted, way)
            } else {
                (rooted, way.push(piece))
            }
        }),
{
    lemma_some_piece(path);
    lemma_piece_added(path, piece);
    let all = crate::paths::pieces(path).push(piece);
    assert(all.drop_last() =~= crate::paths::pieces(path));
    assert((path.push('/') + piece)[0] == path[0]);
}

/// A name alone is where it says, even a single dot; only the empty path leads nowhere.
pub proof fn law_names_lead_to_themselves(name: Seq<char>)
    requires
        forall|i: int| 0 <= i < name.len() ==> name[i] != '/',
    ensures
        crate::paths::place(name) == if name.len() == 0 {
            (false, Seq::<Seq<char>>::empty())
        } else {
            (false, seq![name])
        },
    decreases name.len(),
{
    lemma_one_piece(name);
    let all = seq![name];
    assert(all.drop_last() =~= Seq::<Seq<char>>::empty());
    assert(crate::paths::telling(all.drop_last()) =~= Seq::<Seq<char>>::empty());
    assert(Seq::<Seq<char>>::empty().push(name) =~= seq![name]);
}

/// A name without a slash is one piece.
proof fn lemma_one_piece(name: Seq<char>)
    requires
        forall|i: int| 0 <= i < name.len() ==> name[i] != '/',
    ensures
        crate::paths::pieces(name) == seq![name],
    decreases name.len(),
{
    if name.len() > 0 {
        let less = name.drop_last();
        lemma_one_piece(less);
        assert(seq![less].drop_last() =~= Seq::<Seq<char>>::empty());
        assert(less.push(name.last()) =~= name);
        assert(Seq::<Seq<char>>::empty().push(name) =~= seq![name]);
    } else {
        assert(name =~= Seq::<char>::empty());
    }
}

/// A slash in front is where the root is, and nowhere else.
pub proof fn law_roots_start_with_a_slash(path: Seq<char>)
    ensures
        crate::paths::place(seq!['/'] + path).0,
        path.len() > 0 && path[0] != '/' ==> !crate::paths::place(path).0,
{
}

/// The spellings that are left to the system are those with a backslash or a colon and those with
/// two slashes in front, and no others.
pub proof fn law_plain_spellings_are_known(path: Seq<char>, i: int)
    ensures
        0 <= i < path.len() && (path[i] == '\\' || path[i] == ':') ==> !crate::paths::is_plain(path),
        path.len() > 1 && path[0] == '/' && path[1] == '/' ==> !crate::paths::is_plain(path),
        (forall|j: int| 0 <= j < path.len() ==> path[j] != '\\' && path[j] != ':') && !(path.len()
            > 1 && path[0] == '/' && path[1] == '/') ==> crate::paths::is_plain(path),
{
}

/// A number travels as four bytes, the lowest first, and a control message behind its length.
pub proof fn law_numbers_travel_lowest_byte_first(x: u32, body: Seq<u8>)
    requires
        body.len() <= u32::MAX,
    ensures
        ({
            let bytes = crate::bytes::le_bytes(x);
            &&& bytes.len() == 4
            &&& bytes[0] + 0x100 * bytes[1] + 0x10000 * bytes[2] + 0x1000000 * bytes[3] == x
        }),
        ({
            let frame = crate::protocol::control_frame_bytes(body);
            &&& frame.len() == body.len() + 4
            &&& frame[0] + 0x100 * frame[1] + 0x10000 * frame[2] + 0x1000000 * frame[3]
                == body.len()
            &&& frame.skip(4) == body
        }),
{
    crate::bytes::lemma_le_round_trip(x, crate::bytes::le_bytes(x), 0);
    assert(crate::bytes::le_bytes(x).subrange(0, 4) =~= crate::bytes::le_bytes(x));
    let len = body.len() as u32;
    let frame = crate::protocol::control_frame_bytes(body);
    assert(frame.subrange(0, 4) =~= crate::bytes::le_bytes(len));
    crate::bytes::lemma_le_round_trip(len, frame, 0);
    assert(frame.skip(4) =~= body);
}

/// A relayed packet carries the number of its peer, then its own, both lowest byte first, and then
/// the payload.
pub proof fn law_relayed_packets_carry_both_numbers(peer_id: u32, sequence: u32, payload: Seq<u8>)
    ensures
        ({
            let data = crate::protocol::server_packet_bytes(peer_id, sequence, payload);
            &&& data.len() == payload.len() + 8
            &&& data[0] + 0x100 * data[1] + 0x10000 * data[2] + 0x1000000 * data[3] == peer_id
            &&& data[4] + 0x100 * data[5] + 0x10000 * data[6] + 0x1000000 * data[7] == sequence
            &&& data.skip(8) == payload
        }),
{
    let data = crate::protocol::server_packet_bytes(peer_id, sequence, payload);
    assert(data.subrange(0, 4) =~= crate::bytes::le_bytes(peer_id));
    assert(data.subrange(4, 8) =~= crate::bytes::le_bytes(sequence));
    crate::bytes::lemma_le_round_trip(peer_id, data, 0);
    crate::bytes::lemma_le_round_trip(sequence, data, 4);
    assert(data.skip(8) =~= payload);
}

} // verus!
