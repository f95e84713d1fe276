use proxa::backend::{register_audio_backend, AudioBackend, BackendSlot};
use proxa::error::ProxaError;
use proxa::types::AudioDevice;

struct Fake {
    name: &'static str,
}

fn device(name: &str) -> AudioDevice {
    AudioDevice { name: name.to_string(), id: "7".to_string() }
}

impl AudioBackend for Fake {
    fn enumerate_input_devices(&self) -> Vec<AudioDevice> {
        vec![device(self.name), device("other")]
    }

    fn enumerate_output_devices(&self) -> Vec<AudioDevice> {
        vec![device(self.name)]
    }

    fn set_input_device(&self, id: &str) -> Result<(), ProxaError> {
        if id == "7" {
            Ok(())
        } else {
            Err(ProxaError::AudioInit(id.to_string()))
        }
    }

    fn set_output_device(&self, id: &str) -> Result<(), ProxaError> {
        Err(ProxaError::Internal(id.to_string()))
    }

    fn get_current_input_device(&self) -> Option<AudioDevice> {
        Some(device(self.name))
    }

    fn get_current_output_device(&self) -> Option<AudioDevice> {
        None
    }
}

#[test]
fn no_backend() {
    let slot: BackendSlot<dyn AudioBackend> = BackendSlot { backend: None };
    let missing = Err(ProxaError::AudioInit("no audio backend registered".to_string()));
    assert!(slot.enumerate_input_devices().is_empty());
    assert!(slot.enumerate_output_devices().is_empty());
    assert_eq!(slot.set_input_device("7"), missing);
    assert_eq!(slot.set_output_device("7"), missing);
    assert_eq!(slot.get_current_input_device(), None);
    assert_eq!(slot.get_current_output_device(), None);
}

#[test]
fn a_backend_answers() {
    let mut slot: BackendSlot<dyn AudioBackend> = BackendSlot { backend: None };
    register_audio_backend(&mut slot, Box::new(Fake { name: "mic" }));
    assert_eq!(slot.enumerate_input_devices(), vec![device("mic"), device("other")]);
    assert_eq!(slot.enumerate_output_devices(), vec![device("mic")]);
    assert_eq!(slot.set_input_device("7"), Ok(()));
    assert_eq!(slot.set_input_device("8"), Err(ProxaError::AudioInit("8".to_string())));
    assert_eq!(slot.set_output_device("7"), Err(ProxaError::Internal("7".to_string())));
    assert_eq!(slot.get_current_input_device(), Some(device("mic")));
    assert_eq!(slot.get_current_output_device(), None);
    register_audio_backend(&mut slot, Box::new(Fake { name: "line" }));
    assert_eq!(slot.get_current_input_device(), Some(device("line")));
}
