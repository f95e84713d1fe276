//! What holds of the routes between sound devices and the client, and of small decisions.

use crate::encode::EncodeState;
use crate::peer::PeerState;
use crate::routing::{InputRoute, OutputRoute};
use crate::types::{Channels, VoiceState};
use vstd::prelude::*;

verus! {

/// What a microphone records becomes what the client wants: left as it is where the channels agree,
/// doubled from one to two, averaged from many to one, and cut to the first two of many.
pub proof fn law_microphones_are_routed(hardware: usize, client: Channels, route: InputRoute)
    requires
        hardware > 0,
        call_ensures(crate::routing::route_input, (hardware, client), route),
    ensures
        route is Direct <==> hardware == 1 && client is Mono || hardware == 2 && client is Stereo,
        route is Duplicate <==> hardware == 1 && client is Stereo,
        route is Average <==> hardware > 1 && client is Mono,
        route is FirstTwo <==> hardware > 2 && client is Stereo,
{
}

/// Speakers of two channels get what the client plays, a single one gets the mean, and any more get
/// it on the first two. The client is asked for as many stereo samples as the speakers have frames.
pub proof fn law_speakers_are_routed(
    hardware: usize,
    len: usize,
    route: OutputRoute,
    samples: usize,
)
    requires
        hardware > 0,
        2 * len <= usize::MAX,
        call_ensures(crate::routing::route_output, (hardware,), route),
        call_ensures(crate::routing::stereo_samples, (hardware, len), samples),
    ensures
        route is Direct <==> hardware == 2,
        route is Average <==> hardware == 1,
        route is Spread <==> hardware > 2,
        route is Direct ==> samples == len,
        route is Average ==> samples == len + len,
        route is Spread ==> samples % 2 == 0 && samples / 2 * hardware <= len < (samples / 2 + 1)
            * hardware,
{
    if hardware > 2 {
        let frames = len as int / hardware as int;
        assert(frames * hardware <= len < (frames + 1) * hardware) by (nonlinear_arith)
            requires
                frames == len as int / hardware as int,
                hardware > 0,
        ;
    } else if hardware == 1 {
        assert(len as int / 1 == len);
    }
}

/// A count of channels from the wire is stereo from two on, and a layout stands for its count.
pub proof fn law_counts_are_layouts(count: u8, channels: Channels, n: usize)
    requires
        call_ensures(Channels::from_count, (count,), channels),
        call_ensures(Channels::count, (&channels,), n),
    ensures
        count >= 2 ==> channels is Stereo && n == 2,
        count < 2 ==> channels is Mono && n == 1,
{
}

/// A relay may vouch for itself if that is allowed or the build is for debugging, and never where
/// it is forbidden.
pub proof fn law_a_ban_wins(disallow: bool, allow: bool, debug_build: bool, allowed: bool)
    requires
        call_ensures(
            crate::cli::is_self_signed_allowed,
            (disallow, allow, debug_build),
            allowed,
        ),
    ensures
        disallow ==> !allowed,
        !disallow && allow ==> allowed,
        !disallow && !allow ==> allowed == debug_build,
{
}

/// A microphone is shown as silenced while it is throttled, however loud it is. Else it is shown as
/// speaking while it is loud, and as waiting while it is not.
pub proof fn law_voice_is_shown<S: Copy>(state: &EncodeState<S>, loud: bool, shown: VoiceState)
    requires
        call_ensures(EncodeState::<S>::get_voice_state, (state, loud), shown),
    ensures
        shown is Silenced <==> state.is_throttled,
        shown is Speaking <==> !state.is_throttled && loud,
        shown is Waiting <==> !state.is_throttled && !loud,
{
}

/// A peer is idle once it is silent and nothing of it is left to be heard, and settled once it has
/// played a hundred frames.
pub proof fn law_idle_and_settled_peers_are_known<S: Copy>(
    peer: &PeerState<S>,
    idle: bool,
    settled: bool,
)
    requires
        call_ensures(PeerState::<S>::is_idle, (peer,), idle),
        call_ensures(PeerState::<S>::has_settled, (peer,), settled),
    ensures
        idle ==> peer.is_silenced && peer.buffer@.len() == 0 && forall|k: u32|
            !#[trigger] peer.jitter_buffer@.contains_key(k),
        peer.is_silenced && peer.buffer@.len() == 0 && peer@.jitter.dom() == Set::<u32>::empty()
            ==> idle,
        settled <==> peer.played_frames_since_silence >= 100,
{
    assert(crate::peer_model::payloads(peer.jitter_buffer@).dom() =~= peer.jitter_buffer@.dom());
    if idle {
        assert forall|k: u32| !#[trigger] peer.jitter_buffer@.contains_key(k) by {
            assert(!peer@.jitter.dom().contains(k));
        }
    }
}

} // verus!
