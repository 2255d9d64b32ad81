use sayall::button_gestures::{
    clamp_double_click_window, double_click_window, GestureConfig, GestureRecognizer,
    DOUBLE_CLICK_WINDOW_CEILING_MS, DOUBLE_CLICK_WINDOW_FLOOR_MS, LONG_PRESS_THRESHOLD_MS,
    REPEAT_START_DELAY_MS,
};
use sayall::raw_input::RemoteButton;
use sayall::send_input::{
    ButtonAction, ButtonActions, ButtonMappings, ButtonTrigger, KeyChord, KeyCode, MouseAction,
    WHEEL_REPEAT_INTERVAL_MS,
};

/// Fixed double-click window for tests; the production value follows the system setting.
const TEST_DOUBLE_WINDOW: u64 = DOUBLE_CLICK_WINDOW_FLOOR_MS;

/// Start of each scenario, in milliseconds.
const T0: u64 = 10_000;

fn mappings_with(
    button: RemoteButton,
    single: Option<KeyCode>,
    double: Option<KeyCode>,
    long: Option<KeyCode>,
) -> ButtonMappings {
    let action = |keys: Option<KeyCode>| match keys {
        Some(key) => vec![ButtonAction::Shortcut {
            chord: KeyChord { keys: vec![key] },
        }],
        None => Vec::new(),
    };
    let mut mappings = ButtonMappings::default();
    mappings.set_actions(
        button,
        ButtonActions {
            single: action(single),
            double: action(double),
            long: action(long),
        },
    );
    mappings
}

fn mappings_with_single(button: RemoteButton, single: ButtonAction) -> ButtonMappings {
    let mut mappings = ButtonMappings::default();
    mappings.set_actions(button, ButtonActions::single(single));
    mappings
}

#[test]
fn double_click_window_follows_the_system_setting_within_bounds() {
    assert_eq!(clamp_double_click_window(320), DOUBLE_CLICK_WINDOW_FLOOR_MS);
    assert_eq!(clamp_double_click_window(700), 700);
    assert_eq!(clamp_double_click_window(5_000), DOUBLE_CLICK_WINDOW_CEILING_MS);
    // The system reading is taken by the caller; the recognizer follows it.
    for reading in [None, Some(0), Some(320), Some(500), Some(700), Some(900), Some(5_000)] {
        let window = double_click_window(reading);
        assert!(window >= DOUBLE_CLICK_WINDOW_FLOOR_MS && window <= DOUBLE_CLICK_WINDOW_CEILING_MS);
        assert_eq!(GestureRecognizer::new(reading).double_click_window(), window);
    }
    assert_eq!(GestureRecognizer::new(Some(700)).double_click_window(), 700);
    assert_eq!(GestureRecognizer::new(None).double_click_window(), DOUBLE_CLICK_WINDOW_FLOOR_MS);
}

#[test]
fn a_natural_bluetooth_double_tap_at_378ms_is_recognized() {
    let t0 = T0;
    let mut recognizer = GestureRecognizer::with_double_click_window(DOUBLE_CLICK_WINDOW_FLOOR_MS);
    recognizer.configure(&mappings_with(
        RemoteButton::Confirm,
        Some(KeyCode::Enter),
        Some(KeyCode::Escape),
        None,
    ));

    assert!(recognizer.press(RemoteButton::Confirm, t0).is_empty());
    assert!(recognizer.release(RemoteButton::Confirm, t0 + 40).is_empty());
    let second = t0 + 378;
    assert!(recognizer.advance(second).is_empty(), "the window must still be open at 378ms");
    assert!(recognizer.press(RemoteButton::Confirm, second).is_empty());
    assert_eq!(
        recognizer.release(RemoteButton::Confirm, second + 40),
        vec![ButtonTrigger::Double]
    );
}

#[test]
fn wheel_repeats_even_on_buttons_without_a_native_repeat_interval() {
    assert_eq!(RemoteButton::Confirm.repeat_interval(), None);
    let config = GestureConfig::for_button(
        &mappings_with_single(
            RemoteButton::Confirm,
            ButtonAction::Mouse {
                kind: MouseAction::WheelDown,
            },
        ),
        RemoteButton::Confirm,
    )
    .unwrap();
    assert_eq!(config.repeat, Some(WHEEL_REPEAT_INTERVAL_MS));

    let config = GestureConfig::for_button(
        &mappings_with_single(
            RemoteButton::Confirm,
            ButtonAction::Mouse {
                kind: MouseAction::LeftClick,
            },
        ),
        RemoteButton::Confirm,
    )
    .unwrap();
    assert_eq!(config.repeat, None);
}

#[test]
fn hold_shortcut_is_not_a_gesture() {
    let mappings = mappings_with_single(
        RemoteButton::Confirm,
        ButtonAction::HoldShortcut {
            chord: KeyChord {
                keys: vec![KeyCode::Space],
            },
        },
    );
    assert!(GestureConfig::for_button(&mappings, RemoteButton::Confirm).is_none());

    let mut recognizer = GestureRecognizer::with_double_click_window(TEST_DOUBLE_WINDOW);
    recognizer.configure(&mappings);
    let now = T0;
    assert!(recognizer.press(RemoteButton::Confirm, now).is_empty());
    assert!(recognizer.release(RemoteButton::Confirm, now).is_empty());
}

#[test]
fn raw_single_path_fires_on_press_and_repeats_while_held() {
    let t0 = T0;
    let mut recognizer = GestureRecognizer::with_double_click_window(TEST_DOUBLE_WINDOW);
    recognizer.configure(&mappings_with(RemoteButton::Up, Some(KeyCode::Up), None, None));

    assert_eq!(recognizer.press(RemoteButton::Up, t0), vec![ButtonTrigger::Single]);
    assert_eq!(recognizer.advance(t0 + 340), vec![]);
    let t1 = t0 + REPEAT_START_DELAY_MS;
    assert_eq!(
        recognizer.advance(t1),
        vec![(RemoteButton::Up, ButtonTrigger::Single)]
    );
    assert_eq!(recognizer.advance(t1 + 99), vec![]);
    assert_eq!(
        recognizer.advance(t1 + 100),
        vec![(RemoteButton::Up, ButtonTrigger::Single)]
    );
    assert_eq!(recognizer.release(RemoteButton::Up, t1 + 200), vec![]);
    assert_eq!(recognizer.advance(t1 + 400), vec![]);
}

#[test]
fn back_repeats_at_50ms_and_non_repeat_buttons_do_not_repeat() {
    let t0 = T0;
    let mut mappings = ButtonMappings::default();
    for (button, key) in [
        (RemoteButton::Back, KeyCode::Escape),
        (RemoteButton::Confirm, KeyCode::Enter),
    ] {
        mappings.set_actions(
            button,
            ButtonActions::single(ButtonAction::Shortcut {
                chord: KeyChord { keys: vec![key] },
            }),
        );
    }
    let mut recognizer = GestureRecognizer::with_double_click_window(TEST_DOUBLE_WINDOW);
    recognizer.configure(&mappings);

    assert_eq!(recognizer.press(RemoteButton::Back, t0), vec![ButtonTrigger::Single]);
    assert_eq!(recognizer.press(RemoteButton::Confirm, t0), vec![ButtonTrigger::Single]);
    let t1 = t0 + REPEAT_START_DELAY_MS + 500;
    let fired = recognizer.advance(t1);
    assert_eq!(fired, vec![(RemoteButton::Back, ButtonTrigger::Single)]);
}

#[test]
fn long_press_only_config_fires_single_on_release_and_long_at_threshold() {
    let t0 = T0;
    let mut recognizer = GestureRecognizer::with_double_click_window(TEST_DOUBLE_WINDOW);
    recognizer.configure(&mappings_with(
        RemoteButton::Menu,
        Some(KeyCode::Enter),
        None,
        Some(KeyCode::Escape),
    ));

    assert_eq!(recognizer.press(RemoteButton::Menu, t0), vec![]);
    assert_eq!(
        recognizer.release(RemoteButton::Menu, t0 + 120),
        vec![ButtonTrigger::Single]
    );

    assert_eq!(recognizer.press(RemoteButton::Menu, t0 + 1_000), vec![]);
    assert_eq!(
        recognizer.advance(t0 + 1_000 + LONG_PRESS_THRESHOLD_MS),
        vec![(RemoteButton::Menu, ButtonTrigger::Long)]
    );
    assert_eq!(recognizer.release(RemoteButton::Menu, t0 + 1_000 + 700), vec![]);
}

#[test]
fn double_click_window_defers_single_and_second_release_fires_double() {
    let t0 = T0;
    let mut recognizer = GestureRecognizer::with_double_click_window(TEST_DOUBLE_WINDOW);
    recognizer.configure(&mappings_with(
        RemoteButton::Confirm,
        Some(KeyCode::Enter),
        Some(KeyCode::Space),
        None,
    ));

    recognizer.press(RemoteButton::Confirm, t0);
    assert_eq!(recognizer.release(RemoteButton::Confirm, t0 + 80), vec![]);
    let t1 = t0 + 80 + 120;
    assert_eq!(recognizer.press(RemoteButton::Confirm, t1), vec![]);
    assert_eq!(
        recognizer.release(RemoteButton::Confirm, t1 + 60),
        vec![ButtonTrigger::Double]
    );

    let t2 = t0 + 2_000;
    recognizer.press(RemoteButton::Confirm, t2);
    assert_eq!(recognizer.release(RemoteButton::Confirm, t2 + 50), vec![]);
    assert_eq!(
        recognizer.advance(t2 + 50 + TEST_DOUBLE_WINDOW),
        vec![(RemoteButton::Confirm, ButtonTrigger::Single)]
    );
}

#[test]
fn second_press_hold_can_still_trigger_long_press() {
    let t0 = T0;
    let mut recognizer = GestureRecognizer::with_double_click_window(TEST_DOUBLE_WINDOW);
    recognizer.configure(&mappings_with(
        RemoteButton::Home,
        Some(KeyCode::Enter),
        Some(KeyCode::Space),
        Some(KeyCode::Escape),
    ));

    recognizer.press(RemoteButton::Home, t0);
    recognizer.release(RemoteButton::Home, t0 + 60);
    let t1 = t0 + 200;
    recognizer.press(RemoteButton::Home, t1);
    assert_eq!(
        recognizer.advance(t1 + LONG_PRESS_THRESHOLD_MS),
        vec![(RemoteButton::Home, ButtonTrigger::Long)]
    );
    assert_eq!(
        recognizer.release(RemoteButton::Home, t1 + LONG_PRESS_THRESHOLD_MS + 100),
        vec![]
    );
}

#[test]
fn configuring_double_or_long_disables_repeat() {
    let t0 = T0;
    let mut recognizer = GestureRecognizer::with_double_click_window(TEST_DOUBLE_WINDOW);
    recognizer.configure(&mappings_with(
        RemoteButton::Up,
        Some(KeyCode::Up),
        Some(KeyCode::Space),
        None,
    ));
    assert_eq!(recognizer.press(RemoteButton::Up, t0), vec![]);
    assert_eq!(recognizer.release(RemoteButton::Up, t0 + 50), vec![]);
    assert_eq!(
        recognizer.advance(t0 + 50 + TEST_DOUBLE_WINDOW),
        vec![(RemoteButton::Up, ButtonTrigger::Single)]
    );
    assert_eq!(
        recognizer.advance(t0 + 2_000),
        vec![],
        "no repeat after the double-click window closed"
    );
}

#[test]
fn release_all_cancels_pending_windows_and_repeat_without_firing() {
    let t0 = T0;
    let mut recognizer = GestureRecognizer::with_double_click_window(TEST_DOUBLE_WINDOW);
    recognizer.configure(&mappings_with(
        RemoteButton::Back,
        Some(KeyCode::Escape),
        Some(KeyCode::Space),
        None,
    ));
    recognizer.press(RemoteButton::Back, t0);
    recognizer.release(RemoteButton::Back, t0 + 40);
    recognizer.release_all();
    assert_eq!(
        recognizer.advance(t0 + 2_000),
        vec![],
        "a released recognizer must not fire the pending single"
    );
}

#[test]
fn unconfigured_and_disabled_buttons_are_ignored() {
    let t0 = T0;
    let mut recognizer = GestureRecognizer::with_double_click_window(TEST_DOUBLE_WINDOW);
    recognizer.configure(&ButtonMappings::default());
    assert_eq!(recognizer.press(RemoteButton::Confirm, t0), vec![]);
    assert_eq!(recognizer.release(RemoteButton::Confirm, t0), vec![]);
    assert_eq!(recognizer.advance(t0 + 5_000), vec![]);
    assert_eq!(recognizer.next_deadline(), None);

    let mut mappings = ButtonMappings::default();
    mappings.set_actions(RemoteButton::Confirm, ButtonActions::default());
    recognizer.configure(&mappings);
    assert_eq!(recognizer.press(RemoteButton::Confirm, t0), vec![]);
}

#[test]
fn enabled_toggle_off_disables_everything() {
    let t0 = T0;
    let mut mappings = mappings_with(RemoteButton::Up, Some(KeyCode::Up), None, None);
    let mut recognizer = GestureRecognizer::with_double_click_window(TEST_DOUBLE_WINDOW);
    recognizer.configure(&mappings);
    mappings.enabled = false;
    recognizer.configure(&mappings);
    assert_eq!(recognizer.press(RemoteButton::Up, t0), vec![]);
    assert_eq!(recognizer.release(RemoteButton::Up, t0), vec![]);
}

#[test]
fn next_deadline_is_the_earliest_timer() {
    let t0 = T0;
    let mut mappings = mappings_with(RemoteButton::Up, Some(KeyCode::Up), None, None);
    mappings.set_actions(
        RemoteButton::Down,
        ButtonActions {
            single: vec![ButtonAction::Shortcut {
                chord: KeyChord {
                    keys: vec![KeyCode::Down],
                },
            }],
            double: vec![ButtonAction::Shortcut {
                chord: KeyChord {
                    keys: vec![KeyCode::Space],
                },
            }],
            long: Vec::new(),
        },
    );
    let mut recognizer = GestureRecognizer::with_double_click_window(TEST_DOUBLE_WINDOW);
    recognizer.configure(&mappings);
    recognizer.press(RemoteButton::Up, t0);
    recognizer.press(RemoteButton::Down, t0);
    recognizer.release(RemoteButton::Down, t0 + 30);
    let up_repeat = t0 + REPEAT_START_DELAY_MS;
    let down_double = t0 + 30 + TEST_DOUBLE_WINDOW;
    assert_eq!(recognizer.next_deadline(), Some(up_repeat.min(down_double)));
}

#[test]
fn window_timeout_fires_single_exactly_once() {
    let mut recognizer = GestureRecognizer::with_double_click_window(600);
    assert_eq!(recognizer.double_click_window(), 600);
    recognizer.configure(&mappings_with(
        RemoteButton::Confirm,
        Some(KeyCode::Enter),
        Some(KeyCode::Space),
        None,
    ));
    recognizer.press(RemoteButton::Confirm, T0);
    assert!(recognizer.is_pressed(RemoteButton::Confirm));
    recognizer.release(RemoteButton::Confirm, T0 + 10);
    assert!(!recognizer.is_pressed(RemoteButton::Confirm));
    assert_eq!(recognizer.next_deadline(), Some(T0 + 610));
    assert_eq!(recognizer.advance(T0 + 609), vec![]);
    assert_eq!(
        recognizer.advance(T0 + 610),
        vec![(RemoteButton::Confirm, ButtonTrigger::Single)]
    );
    assert_eq!(recognizer.advance(T0 + 5_000), vec![]);
}

#[test]
fn system_double_click_speed_is_clamped_and_zero_means_unknown() {
    assert_eq!(double_click_window(Some(0)), DOUBLE_CLICK_WINDOW_FLOOR_MS);
    assert_eq!(double_click_window(Some(650)), 650);
    assert_eq!(double_click_window(Some(2_000)), DOUBLE_CLICK_WINDOW_CEILING_MS);
    assert_eq!(
        GestureRecognizer::with_double_click_window(100).double_click_window(),
        DOUBLE_CLICK_WINDOW_FLOOR_MS
    );
}
