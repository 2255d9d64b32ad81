//! The diagnostic report a user can copy into a bug report. It carries
//! phases, counters and whether an error is present, never a device name,
//! endpoint identity, path or error text: its only text is the application
//! version, the platform name, the verification status and the remote
//! profile id.
use vstd::prelude::*;
use crate::platform_state::{AudioPhase, ConnectionPhase, PlatformSnapshot};
use crate::raw_input::{RawInputPhase, RemoteButton};
use crate::send_input::SendInputSnapshot;
use crate::text::{copy_opt_string, opt_string_view};

verus! {

#[derive(Debug, Clone)]
pub struct DiagnosticReport {
    pub schema_version: u32,
    pub app_version: String,
    pub platform: String,
    pub verification_status: String,
    pub capabilities: DiagnosticCapabilities,
    pub connection: ConnectionDiagnostic,
    pub audio: AudioDiagnostic,
    pub raw_input: RawInputDiagnostic,
    pub send_input: SendInputDiagnostic,
    pub button_mapping: ButtonMappingDiagnostic,
}

#[derive(Debug, Clone, Copy, PartialEq, Eq, Structural)]
pub struct DiagnosticCapabilities {
    pub windows_api_available: bool,
    pub ble_scan_available: bool,
    pub ble_voice_ready: bool,
    pub wasapi_ready: bool,
    pub raw_input_ready: bool,
    pub send_input_ready: bool,
}

#[derive(Debug, Clone, Copy, PartialEq, Eq, Structural)]
pub struct ConnectionDiagnostic {
    pub phase: ConnectionPhase,
    pub capabilities_confirmed: bool,
    pub sample_rate: Option<u32>,
    pub frame_size: Option<usize>,
    pub decoded_samples: u64,
    pub generation: u64,
    pub reconnect_attempt: u32,
    pub power_notifications_available: bool,
    pub error_present: bool,
}

#[derive(Debug, Clone, Copy, PartialEq, Eq, Structural)]
pub struct AudioDiagnostic {
    pub phase: AudioPhase,
    pub endpoint_configured: bool,
    pub queued_samples: u64,
    pub submitted_samples: u64,
    pub generation: u64,
    pub error_present: bool,
}

#[derive(Debug, Clone)]
pub struct RawInputDiagnostic {
    pub phase: RawInputPhase,
    /// Id of the recognised remote profile, to tell which remote is in use.
    pub profile_id: Option<String>,
    pub matched_device_count: u32,
    pub raw_event_count: u64,
    pub semantic_edge_count: u64,
    pub last_button: Option<RemoteButton>,
    pub last_is_pressed: Option<bool>,
    pub error_present: bool,
}

#[derive(Debug, Clone, Copy, PartialEq, Eq, Structural)]
pub struct SendInputDiagnostic {
    pub available: bool,
    pub submitted_batches: u64,
    pub submitted_events: u64,
    pub error_present: bool,
}

#[derive(Debug, Clone, Copy, PartialEq, Eq, Structural)]
pub struct ButtonMappingDiagnostic {
    pub enabled: bool,
    pub gate_active: bool,
    pub listener_active: bool,
    pub swallowed_edges: u64,
    pub leaked_downs: u64,
    pub fired_gestures: u64,
    pub error_present: bool,
}

impl DiagnosticReport {
    /// The report for the current platform and injection state.
    pub fn capture(
        app_version: &str,
        platform: &PlatformSnapshot,
        send_input: &SendInputSnapshot,
    ) -> (r: Self)
        ensures
            r.schema_version == 1,
            r.app_version@ == app_version@,
            r.platform@ == platform.platform@,
            r.verification_status@ == platform.verification_status@,
            r.capabilities == (DiagnosticCapabilities {
                windows_api_available: platform.windows_api_available,
                ble_scan_available: platform.ble_scan_available,
                ble_voice_ready: platform.ble_voice_ready,
                wasapi_ready: platform.wasapi_ready,
                raw_input_ready: platform.raw_input_ready,
                send_input_ready: platform.send_input_ready,
            }),
            r.connection == (ConnectionDiagnostic {
                phase: platform.connection.phase,
                capabilities_confirmed: platform.connection.capabilities is Some,
                sample_rate: match platform.connection.capabilities {
                    Some(c) => Some(c.sample_rate),
                    None => None,
                },
                frame_size: match platform.connection.capabilities {
                    Some(c) => Some(c.frame_size),
                    None => None,
                },
                decoded_samples: platform.connection.decoded_samples,
                generation: platform.connection.generation,
                reconnect_attempt: platform.connection.reconnect_attempt,
                power_notifications_available: platform.connection.power_notifications_available,
                error_present: platform.connection.last_error is Some,
            }),
            r.audio == (AudioDiagnostic {
                phase: platform.audio.phase,
                endpoint_configured: platform.audio.selected_endpoint_id is Some
                    && platform.audio.selected_endpoint_name is Some,
                queued_samples: platform.audio.queued_samples,
                submitted_samples: platform.audio.submitted_samples,
                generation: platform.audio.generation,
                error_present: platform.audio.last_error is Some,
            }),
            r.raw_input.phase == platform.raw_input.phase,
            opt_string_view(r.raw_input.profile_id) == opt_string_view(
                platform.raw_input.profile_id,
            ),
            r.raw_input.matched_device_count == platform.raw_input.matched_device_count,
            r.raw_input.raw_event_count == platform.raw_input.raw_event_count,
            r.raw_input.semantic_edge_count == platform.raw_input.semantic_edge_count,
            r.raw_input.last_button == platform.raw_input.last_button,
            r.raw_input.last_is_pressed == platform.raw_input.last_is_pressed,
            r.raw_input.error_present == platform.raw_input.last_error is Some,
            r.send_input == (SendInputDiagnostic {
                available: send_input.available,
                submitted_batches: send_input.submitted_batches,
                submitted_events: send_input.submitted_events,
                error_present: send_input.last_error is Some,
            }),
            r.button_mapping == (ButtonMappingDiagnostic {
                enabled: platform.button_mapping.enabled,
                gate_active: platform.button_mapping.gate_active,
                listener_active: platform.button_mapping.listener_active,
                swallowed_edges: platform.button_mapping.swallowed_edges,
                leaked_downs: platform.button_mapping.leaked_downs,
                fired_gestures: platform.button_mapping.fired_gestures,
                error_present: platform.button_mapping.last_error is Some,
            }),
    {
        let atvv = platform.connection.capabilities;
        DiagnosticReport {
            schema_version: 1,
            app_version: String::from_str(app_version),
            platform: platform.platform.clone(),
            verification_status: platform.verification_status.clone(),
            capabilities: DiagnosticCapabilities {
                windows_api_available: platform.windows_api_available,
                ble_scan_available: platform.ble_scan_available,
                ble_voice_ready: platform.ble_voice_ready,
                wasapi_ready: platform.wasapi_ready,
                raw_input_ready: platform.raw_input_ready,
                send_input_ready: platform.send_input_ready,
            },
            connection: ConnectionDiagnostic {
                phase: platform.connection.phase,
                capabilities_confirmed: atvv.is_some(),
                sample_rate: match atvv {
                    Some(c) => Some(c.sample_rate),
                    None => None,
                },
                frame_size: match atvv {
                    Some(c) => Some(c.frame_size),
                    None => None,
                },
                decoded_samples: platform.connection.decoded_samples,
                generation: platform.connection.generation,
                reconnect_attempt: platform.connection.reconnect_attempt,
                power_notifications_available: platform.connection.power_notifications_available,
                error_present: platform.connection.last_error.is_some(),
            },
            audio: AudioDiagnostic {
                phase: platform.audio.phase,
                endpoint_configured: platform.audio.selected_endpoint_id.is_some()
                    && platform.audio.selected_endpoint_name.is_some(),
                queued_samples: platform.audio.queued_samples,
                submitted_samples: platform.audio.submitted_samples,
                generation: platform.audio.generation,
                error_present: platform.audio.last_error.is_some(),
            },
            raw_input: RawInputDiagnostic {
                phase: platform.raw_input.phase,
                profile_id: copy_opt_string(&platform.raw_input.profile_id),
                matched_device_count: platform.raw_input.matched_device_count,
                raw_event_count: platform.raw_input.raw_event_count,
                semantic_edge_count: platform.raw_input.semantic_edge_count,
                last_button: platform.raw_input.last_button,
                last_is_pressed: platform.raw_input.last_is_pressed,
                error_present: platform.raw_input.last_error.is_some(),
            },
            send_input: SendInputDiagnostic {
                available: send_input.available,
                submitted_batches: send_input.submitted_batches,
                submitted_events: send_input.submitted_events,
                error_present: send_input.last_error.is_some(),
            },
            button_mapping: ButtonMappingDiagnostic {
                enabled: platform.button_mapping.enabled,
                gate_active: platform.button_mapping.gate_active,
                listener_active: platform.button_mapping.listener_active,
                swallowed_edges: platform.button_mapping.swallowed_edges,
                leaked_downs: platform.button_mapping.leaked_downs,
                fired_gestures: platform.button_mapping.fired_gestures,
                error_present: platform.button_mapping.last_error.is_some(),
            },
        }
    }
}

} // verus!
