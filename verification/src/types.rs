//! Constants and small types that the rest of the client shares.

use vstd::prelude::*;

verus! {

/// Samples a second and channel, everywhere in the client.
pub const OPUS_SAMPLE_RATE: u32 = 48000;

pub const FRAME_DURATION_MS: usize = 20;

/// The bitrate that suffices while nobody speaks.
pub const SILENCE_BITRATE: i32 = 8000;

/// Mono or stereo.
#[derive(Debug, Clone, Copy, PartialEq, Eq, Structural)]
pub enum Channels {
    Mono,
    Stereo,
}

impl Channels {
    pub open spec fn width(self) -> int {
        match self {
            Channels::Mono => 1,
            Channels::Stereo => 2,
        }
    }

    /// How many samples a frame of time holds.
    pub fn count(&self) -> (n: usize)
        ensures
            n == self.width(),
    {
        match self {
            Channels::Mono => 1,
            Channels::Stereo => 2,
        }
    }

    /// The layout that a channel count on the wire stands for: two or more is stereo.
    pub fn from_count(count: u8) -> (channels: Channels)
        ensures
            channels == if count >= 2 {
                Channels::Stereo
            } else {
                Channels::Mono
            },
    {
        if count >= 2 {
            Channels::Stereo
        } else {
            Channels::Mono
        }
    }

    /// The other layout.
    pub fn toggled(&self) -> (channels: Channels)
        ensures
            channels != *self,
    {
        match self {
            Channels::Mono => Channels::Stereo,
            Channels::Stereo => Channels::Mono,
        }
    }
}

/// How the microphone signal is cleaned.
#[derive(Debug, Clone, Copy, PartialEq, Eq, Structural)]
pub enum DenoiseMethod {
    Off,
    RNNoise,
    DFN3,
}

impl DenoiseMethod {
    pub open spec fn successor(self) -> DenoiseMethod {
        match self {
            DenoiseMethod::Off => DenoiseMethod::RNNoise,
            DenoiseMethod::RNNoise => DenoiseMethod::DFN3,
            DenoiseMethod::DFN3 => DenoiseMethod::Off,
        }
    }

    /// The method that follows when a user cycles through them.
    pub fn next(&self) -> (method: Self)
        ensures
            method == self.successor(),
    {
        match self {
            DenoiseMethod::Off => DenoiseMethod::RNNoise,
            DenoiseMethod::RNNoise => DenoiseMethod::DFN3,
            DenoiseMethod::DFN3 => DenoiseMethod::Off,
        }
    }
}

/// Cycling visits every method and returns after three steps, not before.
pub proof fn law_denoise_methods_cycle(start: DenoiseMethod, method: DenoiseMethod)
    ensures
        start.successor().successor().successor() == start,
        start.successor() != start,
        start.successor().successor() != start,
        method == start || method == start.successor() || method
            == start.successor().successor(),
{
}

/// What the local microphone does at the moment.
#[derive(Debug, Clone, Copy, PartialEq, Eq, Structural)]
pub enum VoiceState {
    Waiting,
    Speaking,
    Silenced,
}

/// A sound device of the machine.
#[derive(Debug, Clone, PartialEq)]
pub struct AudioDevice {
    pub name: String,
    pub id: String,
}

} // verus!
