use sayall::platform_state::{ConnectionPhase, ConnectionSnapshot, RemoteModel};
use sayall::rc003_hook::hook_wanted;
use sayall::raw_input::{ButtonEdge, RemoteButton};
use sayall::rc003_hook::{parse_edge, HookCommand, HookSupervisor, FAILURE_COOLDOWN_MS};

#[test]
fn parses_target_button_edges() {
    assert_eq!(
        parse_edge("back 1"),
        Some(ButtonEdge {
            button: RemoteButton::Back,
            is_pressed: true
        })
    );
    assert_eq!(
        parse_edge("volume_up 0"),
        Some(ButtonEdge {
            button: RemoteButton::VolumeUp,
            is_pressed: false
        })
    );
    assert_eq!(
        parse_edge("volume_down 1"),
        Some(ButtonEdge {
            button: RemoteButton::VolumeDown,
            is_pressed: true
        })
    );
}

#[test]
fn rejects_ready_unknown_and_malformed() {
    assert_eq!(parse_edge("ready"), None);
    assert_eq!(parse_edge(""), None);
    assert_eq!(parse_edge("ok 1"), None);
    assert_eq!(parse_edge("back 2"), None);
    assert_eq!(parse_edge("back"), None);
}

#[test]
fn a_failed_start_waits_for_the_cooldown() {
    let mut supervisor = HookSupervisor::new(1_000);
    assert_eq!(supervisor.poll(true, 1_000), HookCommand::Start);
    supervisor.started(false, 1_000);
    assert_eq!(supervisor.poll(true, 1_000 + FAILURE_COOLDOWN_MS - 1), HookCommand::Idle);
    assert_eq!(supervisor.poll(true, 1_000 + FAILURE_COOLDOWN_MS), HookCommand::Start);
    supervisor.started(true, 1_000 + FAILURE_COOLDOWN_MS);
    assert_eq!(supervisor.poll(true, 20_000), HookCommand::Idle);
    assert_eq!(supervisor.poll(false, 20_000), HookCommand::Stop);
    assert_eq!(supervisor.poll(false, 20_001), HookCommand::Idle);
}

#[test]
fn the_hook_is_wanted_only_for_a_ready_rc003() {
    let mut snapshot = ConnectionSnapshot {
        phase: ConnectionPhase::Ready,
        remote_model: RemoteModel::Rc003,
        ..ConnectionSnapshot::default()
    };
    assert!(hook_wanted(&snapshot));
    snapshot.phase = ConnectionPhase::Streaming;
    assert!(hook_wanted(&snapshot));
    snapshot.phase = ConnectionPhase::Disconnected;
    assert!(!hook_wanted(&snapshot));
    snapshot.phase = ConnectionPhase::Ready;
    snapshot.remote_model = RemoteModel::Rc001;
    assert!(!hook_wanted(&snapshot));
}
