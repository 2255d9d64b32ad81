//! The runtime state the platform reports: remote connection, audio output,
//! Raw Input and button mapping, as the status page and the diagnostic
//! report read them.
use vstd::prelude::*;
use crate::raw_input::RawInputSnapshot;

verus! {

/// Lifecycle of the connection to the remote.
#[derive(Debug, Clone, Copy, PartialEq, Eq, Structural)]
pub enum ConnectionPhase {
    Disconnected,
    Ready,
    Streaming,
    Draining,
}

/// Lifecycle of the audio output towards the virtual cable.
#[derive(Debug, Clone, Copy, PartialEq, Eq, Structural)]
pub enum AudioPhase {
    Idle,
    Ready,
    Streaming,
    Draining,
}

/// State of the voice session on the remote's audio stream.
#[derive(Debug, Clone, Copy, PartialEq, Eq, Structural)]
pub enum VoiceSessionState {
    Idle,
    Streaming,
    Draining,
}

/// Remote models.
#[derive(Debug, Clone, Copy, PartialEq, Eq, Structural)]
pub enum RemoteModel {
    Unknown,
    Rc001,
    Rc003,
}

/// The audio stream parameters the remote confirmed.
#[derive(Debug, Clone, Copy, PartialEq, Eq, Structural)]
pub struct AtvvCapabilities {
    pub sample_rate: u32,
    pub frame_size: usize,
}

/// The connection to the remote.
#[derive(Debug, Clone)]
pub struct ConnectionSnapshot {
    pub phase: ConnectionPhase,
    pub remote_name: Option<String>,
    pub remote_model: RemoteModel,
    pub capabilities: Option<AtvvCapabilities>,
    pub voice_state: VoiceSessionState,
    pub generation: u64,
    pub reconnect_attempt: u32,
    pub power_notifications_available: bool,
    pub decoded_samples: u64,
    pub last_error: Option<String>,
}

impl Default for ConnectionSnapshot {
    fn default() -> (s: Self)
        ensures
            s.phase == ConnectionPhase::Disconnected,
            s.remote_name is None,
            s.remote_model == RemoteModel::Unknown,
            s.capabilities is None,
            s.voice_state == VoiceSessionState::Idle,
            s.generation == 0,
            s.reconnect_attempt == 0,
            !s.power_notifications_available,
            s.decoded_samples == 0,
            s.last_error is None,
    {
        ConnectionSnapshot {
            phase: ConnectionPhase::Disconnected,
            remote_name: None,
            remote_model: RemoteModel::Unknown,
            capabilities: None,
            voice_state: VoiceSessionState::Idle,
            generation: 0,
            reconnect_attempt: 0,
            power_notifications_available: false,
            decoded_samples: 0,
            last_error: None,
        }
    }
}

/// The audio output.
#[derive(Debug, Clone)]
pub struct AudioSnapshot {
    pub phase: AudioPhase,
    pub selected_endpoint_id: Option<String>,
    pub selected_endpoint_name: Option<String>,
    pub queued_samples: u64,
    pub submitted_samples: u64,
    pub generation: u64,
    pub last_error: Option<String>,
}

impl Default for AudioSnapshot {
    fn default() -> (s: Self)
        ensures
            s.phase == AudioPhase::Idle,
            s.selected_endpoint_id is None,
            s.selected_endpoint_name is None,
            s.queued_samples == 0,
            s.submitted_samples == 0,
            s.generation == 0,
            s.last_error is None,
    {
        AudioSnapshot {
            phase: AudioPhase::Idle,
            selected_endpoint_id: None,
            selected_endpoint_name: None,
            queued_samples: 0,
            submitted_samples: 0,
            generation: 0,
            last_error: None,
        }
    }
}

/// The button mapping engine and its key gate.
#[derive(Debug, Clone)]
pub struct ButtonMappingSnapshot {
    pub enabled: bool,
    pub gate_active: bool,
    pub listener_active: bool,
    pub swallowed_edges: u64,
    pub leaked_downs: u64,
    pub fired_gestures: u64,
    pub last_error: Option<String>,
}

/// Everything the platform reports at once.
#[derive(Debug, Clone)]
pub struct PlatformSnapshot {
    pub platform: String,
    pub windows_api_available: bool,
    pub ble_scan_available: bool,
    pub ble_voice_ready: bool,
    pub wasapi_ready: bool,
    pub raw_input_ready: bool,
    pub send_input_ready: bool,
    pub verification_status: String,
    pub connection: ConnectionSnapshot,
    pub audio: AudioSnapshot,
    pub raw_input: RawInputSnapshot,
    pub button_mapping: ButtonMappingSnapshot,
}

/// The identity of the selected endpoint, which is saved only when the
/// audio output reports both its id and its name.
pub fn selected_endpoint_identity(audio: &AudioSnapshot) -> (r: Result<(String, String), String>)
    ensures
        match (audio.selected_endpoint_id, audio.selected_endpoint_name) {
            (Some(id), Some(name)) => r matches Ok((i, n)) && i@ == id@ && n@ == name@,
            _ => r matches Err(m) && m@ == "WASAPI 已初始化，但未返回所选端点身份"@,
        },
{
    match (&audio.selected_endpoint_id, &audio.selected_endpoint_name) {
        (Some(id), Some(name)) => Ok((id.clone(), name.clone())),
        _ => Err(String::from_str("WASAPI 已初始化，但未返回所选端点身份")),
    }
}

} // verus!
