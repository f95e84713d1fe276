//! The verified core of a low-latency voice chat client.

pub mod assets;
pub mod backend;
pub mod blocks;
pub mod bytes;
pub mod cli;
pub mod client;
pub mod device_laws;
pub mod encode;
pub mod error;
pub mod file_laws;
pub mod jitter;
pub mod level;
pub mod mix;
pub mod mix_laws;
pub mod models;
pub mod output;
pub mod output_laws;
pub mod packet_laws;
pub mod paths;
pub mod peer;
pub mod peer_laws;
pub mod peer_model;
pub mod pipeline;
pub mod playback_laws;
pub mod protocol;
pub mod refill;
pub mod refill_laws;
pub mod resample;
pub mod resample_laws;
pub mod room_laws;
pub mod routing;
pub mod sample_laws;
pub mod samples;
pub mod sending_laws;
pub mod session;
pub mod session_laws;
pub mod state_laws;
pub mod types;
pub mod upkeep_laws;
