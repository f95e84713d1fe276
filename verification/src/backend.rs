//! The sound devices of the machine, behind whatever backend was registered for them.

use crate::error::ProxaError;
use crate::types::AudioDevice;
use vstd::prelude::*;

verus! {

/// Access to the sound devices of a machine.
pub trait AudioBackend: Send + Sync {
    fn enumerate_input_devices(&self) -> Vec<AudioDevice>;

    fn enumerate_output_devices(&self) -> Vec<AudioDevice>;

    fn set_input_device(&self, id: &str) -> Result<(), ProxaError>;

    fn set_output_device(&self, id: &str) -> Result<(), ProxaError>;

    fn get_current_input_device(&self) -> Option<AudioDevice>;

    fn get_current_output_device(&self) -> Option<AudioDevice>;
}

/// The place of the backend that is in use.
pub struct BackendSlot<B: AudioBackend + ?Sized> {
    pub backend: Option<Box<B>>,
}

/// Puts a backend to use, in place of an earlier one.
pub fn register_audio_backend<B: AudioBackend + ?Sized>(
    slot: &mut BackendSlot<B>,
    backend: Box<B>,
)
    ensures
        final(slot).backend == Some(backend),
{
    slot.backend = Some(backend);
}

/// What is reported when there is no backend.
pub open spec fn is_unregistered(error: ProxaError) -> bool {
    error matches ProxaError::AudioInit(reason) && reason@ == "no audio backend registered"@
}

fn unregistered() -> (error: ProxaError)
    ensures
        is_unregistered(error),
{
    ProxaError::AudioInit("no audio backend registered".to_string())
}

impl<B: AudioBackend + ?Sized> BackendSlot<B> {
    /// The machine's microphones, as far as the backend knows them. What the backend answers is its
    /// own business.
    pub fn enumerate_input_devices(&self) -> (devices: Vec<AudioDevice>)
        ensures
            match self.backend {
                Some(backend) => call_ensures(B::enumerate_input_devices, (&*backend,), devices),
                None => devices@.len() == 0,
            },
    {
        match &self.backend {
            Some(backend) => backend.enumerate_input_devices(),
            None => Vec::new(),
        }
    }

    /// The machine's speakers, as far as the backend knows them. What the backend answers is its
    /// own business.
    pub fn enumerate_output_devices(&self) -> (devices: Vec<AudioDevice>)
        ensures
            match self.backend {
                Some(backend) => call_ensures(B::enumerate_output_devices, (&*backend,), devices),
                None => devices@.len() == 0,
            },
    {
        match &self.backend {
            Some(backend) => backend.enumerate_output_devices(),
            None => Vec::new(),
        }
    }

    /// Chooses a microphone. What the backend answers is its
    /// own business.
    pub fn set_input_device(&self, id: &str) -> (done: Result<(), ProxaError>)
        ensures
            match self.backend {
                Some(backend) => call_ensures(B::set_input_device, (&*backend, id), done),
                None => done matches Err(error) && is_unregistered(error),
            },
    {
        match &self.backend {
            Some(backend) => backend.set_input_device(id),
            None => Err(unregistered()),
        }
    }

    /// Chooses a speaker. What the backend answers is its
    /// own business.
    pub fn set_output_device(&self, id: &str) -> (done: Result<(), ProxaError>)
        ensures
            match self.backend {
                Some(backend) => call_ensures(B::set_output_device, (&*backend, id), done),
                None => done matches Err(error) && is_unregistered(error),
            },
    {
        match &self.backend {
            Some(backend) => backend.set_output_device(id),
            None => Err(unregistered()),
        }
    }

    /// The microphone in use. What the backend answers is its
    /// own business.
    pub fn get_current_input_device(&self) -> (device: Option<AudioDevice>)
        ensures
            match self.backend {
                Some(backend) => call_ensures(B::get_current_input_device, (&*backend,), device),
                None => device is None,
            },
    {
        match &self.backend {
            Some(backend) => backend.get_current_input_device(),
            None => None,
        }
    }

    /// The speaker in use. What the backend answers is its
    /// own business.
    pub fn get_current_output_device(&self) -> (device: Option<AudioDevice>)
        ensures
            match self.backend {
                Some(backend) => call_ensures(B::get_current_output_device, (&*backend,), device),
                None => device is None,
            },
    {
        match &self.backend {
            Some(backend) => backend.get_current_output_device(),
            None => None,
        }
    }
}

} // verus!
