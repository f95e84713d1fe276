//! How the channels of a sound device and those of the client are brought together.

use crate::types::Channels;
use vstd::prelude::*;

verus! {

/// What becomes of a microphone's channels.
#[derive(Debug, Clone, Copy, PartialEq, Eq, Structural)]
pub enum InputRoute {
    /// They are what the client wants.
    Direct,
    /// The one channel goes to both ears.
    Duplicate,
    /// The mean of all channels is taken.
    Average,
    /// The first two channels are taken.
    FirstTwo,
}

/// The route from a microphone of so many channels to a client.
pub fn route_input(hardware: usize, client: Channels) -> (route: InputRoute)
    requires
        hardware > 0,
    ensures
        route == match client {
            Channels::Mono => if hardware == 1 {
                InputRoute::Direct
            } else {
                InputRoute::Average
            },
            Channels::Stereo => if hardware == 1 {
                InputRoute::Duplicate
            } else if hardware == 2 {
                InputRoute::Direct
            } else {
                InputRoute::FirstTwo
            },
        },
{
    let wanted: usize = client.count();
    if hardware == wanted {
        InputRoute::Direct
    } else if hardware == 1 && wanted == 2 {
        InputRoute::Duplicate
    } else if hardware > 1 && wanted == 1 {
        InputRoute::Average
    } else {
        InputRoute::FirstTwo
    }
}

/// What becomes of the client's two channels.
#[derive(Debug, Clone, Copy, PartialEq, Eq, Structural)]
pub enum OutputRoute {
    /// They are what the speaker wants.
    Direct,
    /// The mean of both is taken.
    Average,
    /// They go to the first two channels, and the others are silent.
    Spread,
}

/// The route from the client to a speaker of so many channels.
pub fn route_output(hardware: usize) -> (route: OutputRoute)
    requires
        hardware > 0,
    ensures
        route == if hardware == 1 {
            OutputRoute::Average
        } else if hardware == 2 {
            OutputRoute::Direct
        } else {
            OutputRoute::Spread
        },
{
    if hardware == 2 {
        OutputRoute::Direct
    } else if hardware == 1 {
        OutputRoute::Average
    } else {
        OutputRoute::Spread
    }
}

/// How many stereo samples a speaker of so many channels needs for an output of so many samples.
pub fn stereo_samples(hardware: usize, len: usize) -> (samples: usize)
    requires
        hardware > 0,
        2 * len <= usize::MAX,
    ensures
        samples == if hardware == 2 {
            len as int
        } else {
            len as int / hardware as int * 2
        },
{
    if hardware == 2 {
        return len;
    }
    let frames: usize = len / hardware;
    assert(frames <= len) by (nonlinear_arith)
        requires
            frames == len / hardware,
            hardware > 0,
    ;
    frames * 2
}

} // verus!
