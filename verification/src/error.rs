//! What can go wrong, and how it is put to the user.

use vstd::prelude::*;
use vstd::string::StringExecFns;

verus! {

#[derive(Debug, Clone, PartialEq, Eq)]
pub enum ProxaError {
    AudioInit(String),
    ClientInit(String),
    ChannelSwitch(String),
    BitrateChange(String),
    Network(String),
    Internal(String),
    InvalidRoom,
}

impl ProxaError {
    /// The message for the user: what failed, and the reason if there is one.
    pub open spec fn text(self) -> Seq<char> {
        match self {
            ProxaError::AudioInit(reason) => "failed to initialize audio backend: "@ + reason@,
            ProxaError::ClientInit(reason) => "failed to create client object: "@ + reason@,
            ProxaError::ChannelSwitch(reason) => "failed to change audio channels: "@ + reason@,
            ProxaError::BitrateChange(reason) => "failed to change bitrate: "@ + reason@,
            ProxaError::Network(reason) => "network session error: "@ + reason@,
            ProxaError::Internal(reason) => "internal logic error: "@ + reason@,
            ProxaError::InvalidRoom => "room name is empty or invalid"@,
        }
    }

    pub fn message(&self) -> (text: String)
        ensures
            text@ == self.text(),
    {
        let (what, reason) = match self {
            ProxaError::AudioInit(reason) => (
                "failed to initialize audio backend: ",
                reason.as_str(),
            ),
            ProxaError::ClientInit(reason) => ("failed to create client object: ", reason.as_str()),
            ProxaError::ChannelSwitch(reason) => (
                "failed to change audio channels: ",
                reason.as_str(),
            ),
            ProxaError::BitrateChange(reason) => ("failed to change bitrate: ", reason.as_str()),
            ProxaError::Network(reason) => ("network session error: ", reason.as_str()),
            ProxaError::Internal(reason) => ("internal logic error: ", reason.as_str()),
            ProxaError::InvalidRoom => {
                return "room name is empty or invalid".to_string();
            },
        };
        let mut text = what.to_string();
        text.append(reason);
        text
    }
}

} // verus!
