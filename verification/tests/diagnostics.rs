use sayall::platform_state::selected_endpoint_identity;
use sayall::diagnostics::DiagnosticReport;
use sayall::platform_state::{
    AtvvCapabilities, AudioSnapshot, ButtonMappingSnapshot, ConnectionSnapshot, PlatformSnapshot,
};
use sayall::raw_input::{RawInputPhase, RawInputSnapshot, RemoteButton};
use sayall::send_input::SendInputSnapshot;

#[test]
fn diagnostic_report_excludes_device_identity_paths_and_error_text() {
    let platform = PlatformSnapshot {
        platform: "windows".to_owned(),
        windows_api_available: true,
        ble_scan_available: true,
        ble_voice_ready: false,
        wasapi_ready: false,
        raw_input_ready: true,
        send_input_ready: true,
        verification_status: "真机验证中".to_owned(),
        connection: ConnectionSnapshot {
            remote_name: Some("私人遥控器名称".to_owned()),
            last_error: Some("蓝牙地址 AA:BB:CC:DD:EE:FF".to_owned()),
            generation: 7,
            reconnect_attempt: 2,
            ..ConnectionSnapshot::default()
        },
        audio: AudioSnapshot {
            selected_endpoint_id: Some("private-endpoint-id".to_owned()),
            selected_endpoint_name: Some("私人音频端点".to_owned()),
            last_error: Some("%LOCALAPPDATA%\\SayAll\\fixture\\private-path".to_owned()),
            submitted_samples: 320,
            ..AudioSnapshot::default()
        },
        raw_input: RawInputSnapshot {
            phase: RawInputPhase::Ready,
            profile_id: None,
            matched_device_count: 1,
            raw_event_count: 4,
            semantic_edge_count: 2,
            last_button: Some(RemoteButton::Confirm),
            last_is_pressed: Some(false),
            active_buttons: Vec::new(),
            last_error: Some("\\\\?\\HID#private-device-path".to_owned()),
        },
        button_mapping: ButtonMappingSnapshot {
            enabled: true,
            gate_active: true,
            listener_active: true,
            swallowed_edges: 3,
            leaked_downs: 1,
            fired_gestures: 2,
            last_error: Some("内部注入细节".to_owned()),
        },
    };
    let send_input = SendInputSnapshot {
        available: true,
        submitted_batches: 1,
        submitted_events: 4,
        last_error: Some("private SendInput backend details".to_owned()),
    };

    let report = DiagnosticReport::capture("0.1.0", &platform, &send_input);
    let text = format!("{report:?}");

    assert_eq!(report.connection.generation, 7);
    assert!(report.audio.endpoint_configured);
    assert_eq!(report.raw_input.last_button, Some(RemoteButton::Confirm));
    assert!(report.connection.error_present);
    assert!(report.audio.error_present);
    assert!(report.raw_input.error_present);
    assert!(report.send_input.error_present);
    for secret in [
        "私人遥控器名称",
        "AA:BB:CC:DD:EE:FF",
        "private-endpoint-id",
        "私人音频端点",
        "private-path",
        "private-device-path",
        "private SendInput backend details",
        "内部注入细节",
    ] {
        assert!(!text.contains(secret), "diagnostic leaked {secret}");
    }
}

#[test]
fn stream_parameters_and_profile_id_are_reported() {
    let platform = PlatformSnapshot {
        platform: "windows".to_owned(),
        windows_api_available: true,
        ble_scan_available: false,
        ble_voice_ready: true,
        wasapi_ready: true,
        raw_input_ready: false,
        send_input_ready: false,
        verification_status: "ok".to_owned(),
        connection: ConnectionSnapshot {
            capabilities: Some(AtvvCapabilities {
                sample_rate: 16_000,
                frame_size: 120,
            }),
            ..ConnectionSnapshot::default()
        },
        audio: AudioSnapshot {
            selected_endpoint_id: Some("id".to_owned()),
            ..AudioSnapshot::default()
        },
        raw_input: RawInputSnapshot {
            profile_id: Some("xiaomi".to_owned()),
            ..RawInputSnapshot::stopped()
        },
        button_mapping: ButtonMappingSnapshot {
            enabled: false,
            gate_active: false,
            listener_active: false,
            swallowed_edges: 0,
            leaked_downs: 0,
            fired_gestures: 0,
            last_error: None,
        },
    };
    let report = DiagnosticReport::capture("2.0.0", &platform, &SendInputSnapshot::default());
    assert_eq!(report.schema_version, 1);
    assert_eq!(report.app_version, "2.0.0");
    assert!(report.connection.capabilities_confirmed);
    assert_eq!(report.connection.sample_rate, Some(16_000));
    assert_eq!(report.connection.frame_size, Some(120));
    assert!(!report.audio.endpoint_configured);
    assert_eq!(report.raw_input.profile_id.as_deref(), Some("xiaomi"));
    assert!(!report.connection.error_present);
    assert!(!report.send_input.error_present);
}

#[test]
fn an_endpoint_is_saved_only_with_id_and_name() {
    let audio = AudioSnapshot {
        selected_endpoint_id: Some("id".to_owned()),
        selected_endpoint_name: Some("CABLE Input".to_owned()),
        ..AudioSnapshot::default()
    };
    assert_eq!(
        selected_endpoint_identity(&audio),
        Ok(("id".to_owned(), "CABLE Input".to_owned()))
    );
    let partial = AudioSnapshot {
        selected_endpoint_id: Some("id".to_owned()),
        ..AudioSnapshot::default()
    };
    assert_eq!(
        selected_endpoint_identity(&partial),
        Err("WASAPI 已初始化，但未返回所选端点身份".to_owned())
    );
}
