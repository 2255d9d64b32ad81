use sayall::hotkey::{default_voice_hold_hotkey, KeyChordError, VoiceHotkeyMode, VoiceHotkeySettings};
use sayall::send_input::{KeyChord, KeyCode};

const ALL_KEYS: [KeyCode; 79] = [
    KeyCode::Enter, KeyCode::Escape, KeyCode::Space, KeyCode::Tab, KeyCode::Backspace,
    KeyCode::Delete, KeyCode::Insert, KeyCode::Home, KeyCode::End, KeyCode::PageUp,
    KeyCode::PageDown, KeyCode::Up, KeyCode::Down, KeyCode::Left, KeyCode::Right,
    KeyCode::LeftControl, KeyCode::RightControl, KeyCode::LeftShift, KeyCode::RightShift,
    KeyCode::LeftAlt, KeyCode::RightAlt, KeyCode::LeftWindows, KeyCode::RightWindows,
    KeyCode::Control, KeyCode::Shift, KeyCode::Alt, KeyCode::A, KeyCode::B, KeyCode::C,
    KeyCode::D, KeyCode::E, KeyCode::F, KeyCode::G, KeyCode::H, KeyCode::I, KeyCode::J,
    KeyCode::K, KeyCode::L, KeyCode::M, KeyCode::N, KeyCode::O, KeyCode::P, KeyCode::Q,
    KeyCode::R, KeyCode::S, KeyCode::T, KeyCode::U, KeyCode::V, KeyCode::W, KeyCode::X,
    KeyCode::Y, KeyCode::Z, KeyCode::Digit0, KeyCode::Digit1, KeyCode::Digit2, KeyCode::Digit3,
    KeyCode::Digit4, KeyCode::Digit5, KeyCode::Digit6, KeyCode::Digit7, KeyCode::Digit8,
    KeyCode::Digit9, KeyCode::F1, KeyCode::F2, KeyCode::F3, KeyCode::F4, KeyCode::F5,
    KeyCode::F6, KeyCode::F7, KeyCode::F8, KeyCode::F9, KeyCode::F10, KeyCode::F11, KeyCode::F12,
    KeyCode::Apps, KeyCode::BrowserHome, KeyCode::VolumeMute, KeyCode::VolumeUp,
    KeyCode::VolumeDown,
];

#[test]
fn virtual_key_codes_round_trip() {
    for key in ALL_KEYS {
        assert_eq!(KeyCode::from_virtual_key(key.virtual_key()), Some(key));
    }
    assert_eq!(KeyCode::from_virtual_key(81), Some(KeyCode::Q));
    assert_eq!(KeyCode::RightControl.virtual_key(), 0xA3);
    assert_eq!(KeyCode::from_virtual_key(0), None);
    assert_eq!(KeyCode::from_virtual_key(0xFF), None);
}

#[test]
fn chords_must_be_non_empty_without_repeats() {
    let chord = KeyChord {
        keys: vec![KeyCode::LeftControl, KeyCode::C],
    };
    assert_eq!(chord.clone().validated(), Ok(chord));
    assert_eq!(KeyChord { keys: vec![] }.validated(), Err(KeyChordError::Empty));
    assert_eq!(
        KeyChord {
            keys: vec![KeyCode::A, KeyCode::B, KeyCode::B, KeyCode::A]
        }
        .validated(),
        Err(KeyChordError::DuplicateKey { key: KeyCode::B })
    );
    assert_eq!(KeyChordError::Empty.message(), "快捷键不能为空");
}

#[test]
fn voice_hotkey_defaults_and_validation() {
    let default = default_voice_hold_hotkey();
    assert_eq!(
        default.chord.as_ref().unwrap().keys,
        vec![KeyCode::LeftControl, KeyCode::LeftWindows]
    );
    assert_eq!(default.mode, VoiceHotkeyMode::Hold);
    assert!(default.activate_wetype);
    assert_eq!(default.key_count(), 2);
    assert!(default.is_enabled());

    let disabled = VoiceHotkeySettings::disabled();
    assert!(!disabled.is_enabled());
    assert_eq!(disabled.key_count(), 0);
    assert_eq!(disabled.clone().validated(), Ok(disabled.clone()));

    let invalid = VoiceHotkeySettings {
        chord: Some(KeyChord { keys: vec![] }),
        ..VoiceHotkeySettings::disabled()
    };
    assert_eq!(invalid.validated(), Err(KeyChordError::Empty));

    let toggle = VoiceHotkeySettings {
        chord: Some(KeyChord {
            keys: vec![KeyCode::RightAlt],
        }),
        mode: VoiceHotkeyMode::Toggle,
        activate_wetype: false,
    };
    assert_eq!(toggle.clone().validated(), Ok(toggle));

    let detected = VoiceHotkeySettings::from_ime(KeyChord {
        keys: vec![KeyCode::RightControl],
    });
    assert_eq!(detected.mode, VoiceHotkeyMode::Hold);
    assert!(!detected.activate_wetype);
}
