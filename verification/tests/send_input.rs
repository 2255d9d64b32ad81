use sayall::hotkey::KeyChordError;
use sayall::raw_input::RemoteButton;
use sayall::send_input::{
    build_mouse_inputs, build_text_inputs, clamp_injection_hold_ms, native_key, plan_key_down,
    plan_text, plan_key_tap,
    plan_key_up, submit_result, ButtonAction, ButtonActions, ButtonMappings, ButtonTrigger,
    KeyChord, KeyCode, MouseAction, MouseEventKind, PlannedKeyEvent, PlatformError,
    SendInputError, SendInputRuntime, DEFAULT_INJECTION_HOLD_MS, MAX_INJECTION_HOLD_MS,
    WHEEL_DELTA,
};

fn down(key: KeyCode) -> PlannedKeyEvent {
    PlannedKeyEvent {
        key,
        is_key_up: false,
    }
}

fn up(key: KeyCode) -> PlannedKeyEvent {
    PlannedKeyEvent {
        key,
        is_key_up: true,
    }
}

#[test]
fn wheel_actions_carry_signed_wheel_delta() {
    let up_events = build_mouse_inputs(MouseAction::WheelUp);
    assert_eq!(up_events.len(), 1);
    assert_eq!(up_events[0].kind, MouseEventKind::Wheel);
    assert_eq!(up_events[0].data, WHEEL_DELTA);

    let down_events = build_mouse_inputs(MouseAction::WheelDown);
    assert_eq!(down_events[0].data, -WHEEL_DELTA);

    assert_eq!(build_mouse_inputs(MouseAction::LeftClick).len(), 2);
}

#[test]
fn text_is_submitted_as_utf16_unicode_pairs() {
    assert_eq!(build_text_inputs("a").len(), 2);
    let inputs = build_text_inputs("🙂");
    assert_eq!(inputs.len(), 4);
    assert!(!inputs[0].is_key_up);
    assert!(inputs[1].is_key_up);
    assert_eq!(inputs[0].unit, inputs[1].unit);
    assert_eq!(inputs[0].unit, 0xD83D);
    assert_eq!(inputs[2].unit, 0xDE42);
    assert!(build_text_inputs("").is_empty());
}

#[test]
fn chords_press_in_order_and_release_in_reverse() {
    let chord = KeyChord {
        keys: vec![KeyCode::LeftControl, KeyCode::LeftWindows],
    };
    assert_eq!(
        plan_key_down(&chord).unwrap(),
        vec![down(KeyCode::LeftControl), down(KeyCode::LeftWindows)]
    );
    assert_eq!(
        plan_key_up(&chord).unwrap(),
        vec![up(KeyCode::LeftWindows), up(KeyCode::LeftControl)]
    );
    assert_eq!(
        plan_key_tap(&chord).unwrap(),
        vec![
            down(KeyCode::LeftControl),
            down(KeyCode::LeftWindows),
            up(KeyCode::LeftWindows),
            up(KeyCode::LeftControl)
        ]
    );
    let empty = KeyChord { keys: vec![] };
    assert_eq!(plan_key_down(&empty), Err(SendInputError::EmptyChord));
    assert_eq!(plan_key_up(&empty), Err(SendInputError::EmptyChord));
    assert_eq!(plan_key_tap(&empty), Err(SendInputError::EmptyChord));
}

#[test]
fn partial_delivery_is_an_error() {
    assert_eq!(submit_result(4, 4), Ok(4));
    assert_eq!(
        submit_result(1, 4),
        Err(SendInputError::PartialDelivery {
            sent: 1,
            expected: 4
        })
    );
}

#[test]
fn runtime_counts_batches_and_keeps_the_last_error() {
    let mut runtime = SendInputRuntime::new();
    assert_eq!(runtime.injection_hold(), DEFAULT_INJECTION_HOLD_MS);
    runtime.set_injection_hold(5_000);
    assert_eq!(runtime.injection_hold(), MAX_INJECTION_HOLD_MS);
    runtime.set_injection_hold(80);
    assert_eq!(runtime.injection_hold(), 80);

    let snapshot = runtime.record_success(4);
    assert_eq!(snapshot.submitted_batches, 1);
    assert_eq!(snapshot.submitted_events, 4);
    let error = runtime.record_failure("SendInput", "partial");
    assert_eq!(error, PlatformError::SendInput("partial".to_owned()));
    let snapshot = runtime.snapshot();
    assert_eq!(snapshot.submitted_batches, 1);
    assert_eq!(snapshot.last_error, Some("SendInput：partial".to_owned()));
    assert!(runtime.record_success(2).last_error.is_none());
}

#[test]
fn settings_clamp_the_key_hold_to_one_second() {
    assert_eq!(clamp_injection_hold_ms(30), 30);
    assert_eq!(clamp_injection_hold_ms(1_000), 1_000);
    assert_eq!(clamp_injection_hold_ms(60_000), 1_000);
}

#[test]
fn mapping_reads_back_what_was_written() {
    let mut mappings = ButtonMappings::new();
    assert!(mappings.actions(RemoteButton::Home).is_none());
    mappings.set_actions(
        RemoteButton::Home,
        ButtonActions {
            single: vec![ButtonAction::Native],
            double: vec![ButtonAction::Delay { ms: 200 }, ButtonAction::Native],
            long: vec![],
        },
    );
    mappings.set_actions(RemoteButton::Back, ButtonActions::single(ButtonAction::Disabled));
    mappings.set_actions(
        RemoteButton::Home,
        ButtonActions::single(ButtonAction::Text {
            value: "你好".to_owned(),
        }),
    );
    assert_eq!(
        mappings.sequence_for(RemoteButton::Home, ButtonTrigger::Single),
        &[ButtonAction::Text {
            value: "你好".to_owned()
        }]
    );
    assert!(mappings
        .sequence_for(RemoteButton::Home, ButtonTrigger::Double)
        .is_empty());
    assert!(mappings
        .sequence_for(RemoteButton::Up, ButtonTrigger::Single)
        .is_empty());
    assert!(!mappings.actions(RemoteButton::Back).unwrap().any_configured());
    assert!(mappings.actions(RemoteButton::Home).unwrap().any_configured());
}

fn chord_action(keys: Vec<KeyCode>) -> ButtonAction {
    ButtonAction::Shortcut {
        chord: KeyChord { keys },
    }
}

#[test]
fn native_keys_exist_only_for_buttons_with_a_key_of_their_own() {
    assert_eq!(native_key(RemoteButton::Confirm), Some(KeyCode::Enter));
    assert_eq!(native_key(RemoteButton::Menu), Some(KeyCode::Apps));
    assert_eq!(native_key(RemoteButton::VolumeUp), Some(KeyCode::VolumeUp));
    for button in [
        RemoteButton::Back,
        RemoteButton::Power,
        RemoteButton::Tv,
        RemoteButton::Youtube,
        RemoteButton::Netflix,
    ] {
        assert_eq!(native_key(button), None);
    }
}

#[test]
fn normalization_keeps_one_entry_per_button_in_button_order() {
    let mut mappings = ButtonMappings {
        enabled: false,
        actions: Vec::new(),
    };
    mappings.actions.push((
        RemoteButton::Up,
        ButtonActions::single(chord_action(vec![KeyCode::A])),
    ));
    mappings.actions.push((
        RemoteButton::Back,
        ButtonActions::single(chord_action(vec![KeyCode::Escape])),
    ));
    mappings.actions.push((
        RemoteButton::Up,
        ButtonActions::single(chord_action(vec![KeyCode::B])),
    ));
    let normalized = mappings.normalized().unwrap();
    assert!(!normalized.enabled);
    let buttons: Vec<RemoteButton> = normalized.actions.iter().map(|(b, _)| *b).collect();
    assert_eq!(buttons, vec![RemoteButton::Back, RemoteButton::Up]);
    assert_eq!(
        normalized.actions(RemoteButton::Up).unwrap().single,
        vec![chord_action(vec![KeyCode::B])]
    );
}

#[test]
fn normalization_drops_native_steps_on_buttons_without_a_key() {
    let mut mappings = ButtonMappings::default();
    mappings.set_actions(
        RemoteButton::Power,
        ButtonActions {
            single: vec![ButtonAction::Native, chord_action(vec![KeyCode::F11])],
            double: vec![ButtonAction::Native],
            long: Vec::new(),
        },
    );
    mappings.set_actions(RemoteButton::Up, ButtonActions::single(ButtonAction::Native));
    let normalized = mappings.normalized().unwrap();
    let power = normalized.actions(RemoteButton::Power).unwrap();
    assert_eq!(power.single, vec![chord_action(vec![KeyCode::F11])]);
    assert!(power.double.is_empty());
    assert_eq!(
        normalized.actions(RemoteButton::Up).unwrap().single,
        vec![ButtonAction::Native]
    );
}

#[test]
fn normalization_reports_the_first_invalid_chord_in_button_order() {
    let mut mappings = ButtonMappings::default();
    mappings.set_actions(
        RemoteButton::Up,
        ButtonActions::single(ButtonAction::HoldShortcut {
            chord: KeyChord { keys: Vec::new() },
        }),
    );
    mappings.set_actions(
        RemoteButton::Confirm,
        ButtonActions {
            single: vec![chord_action(vec![KeyCode::A])],
            double: vec![chord_action(vec![KeyCode::C, KeyCode::C])],
            long: vec![chord_action(Vec::new())],
        },
    );
    assert_eq!(
        mappings.normalized(),
        Err(KeyChordError::DuplicateKey { key: KeyCode::C })
    );
    let mut only_up = ButtonMappings::default();
    only_up.set_actions(
        RemoteButton::Up,
        ButtonActions::single(chord_action(Vec::new())),
    );
    assert_eq!(only_up.normalized(), Err(KeyChordError::Empty));
}

#[test]
fn text_plans_refuse_empty_text() {
    assert_eq!(plan_text(""), Err(SendInputError::EmptyChord));
    assert_eq!(plan_text("好a").unwrap(), build_text_inputs("好a"));
    assert_eq!(plan_text("a").unwrap().len(), 2);
}
