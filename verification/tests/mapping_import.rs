use sayall::hotkey::KeyChordError;
use sayall::mapping_import::{
    check_mapping_import, import_size_allowed, MappingImportError,
    BUTTON_MAPPING_EXPORT_VERSION, MAX_BUTTON_MAPPING_IMPORT_BYTES,
};
use sayall::presets::build;
use sayall::raw_input::RemoteButton;
use sayall::send_input::{ButtonAction, ButtonActions, ButtonMappings, KeyChord, KeyCode};

fn mapping_with_chord(keys: Vec<KeyCode>) -> ButtonMappings {
    let mut mappings = ButtonMappings::default();
    mappings.set_actions(
        RemoteButton::Up,
        ButtonActions::single(ButtonAction::Shortcut {
            chord: KeyChord { keys },
        }),
    );
    mappings
}

#[test]
fn import_limits_are_one_mebibyte_and_version_one() {
    assert_eq!(MAX_BUTTON_MAPPING_IMPORT_BYTES, 1024 * 1024);
    assert_eq!(BUTTON_MAPPING_EXPORT_VERSION, 1);
    assert!(import_size_allowed(1024 * 1024));
    assert!(!import_size_allowed(1024 * 1024 + 1));
}

#[test]
fn oversized_files_are_refused_before_anything_else() {
    let r = check_mapping_import(2 * 1024 * 1024, 7, mapping_with_chord(Vec::new()));
    assert_eq!(r, Err(MappingImportError::TooLarge));
    assert_eq!(r.unwrap_err().message(), "按键映射配置文件过大");
}

#[test]
fn other_format_versions_are_refused() {
    let r = check_mapping_import(100, 2, build("generic", true).unwrap());
    assert_eq!(r, Err(MappingImportError::UnsupportedVersion { version: 2 }));
    assert_eq!(r.unwrap_err().message(), "不支持的按键映射配置版本：2");
}

#[test]
fn invalid_mappings_are_refused_with_their_chord_problem() {
    let r = check_mapping_import(100, 1, mapping_with_chord(vec![KeyCode::A, KeyCode::A]));
    assert_eq!(
        r,
        Err(MappingImportError::InvalidMapping {
            reason: KeyChordError::DuplicateKey { key: KeyCode::A }
        })
    );
    assert_eq!(r.unwrap_err().message(), "按键映射无效：快捷键包含重复的按键");
}

#[test]
fn accepted_imports_come_back_normalized() {
    let mut mappings = mapping_with_chord(vec![KeyCode::LeftControl, KeyCode::C]);
    mappings.set_actions(RemoteButton::Back, ButtonActions::single(ButtonAction::Native));
    let imported = check_mapping_import(100, 1, mappings).unwrap();
    assert_eq!(imported.actions(RemoteButton::Back).unwrap().single, Vec::new());
    let buttons: Vec<RemoteButton> = imported.actions.iter().map(|(b, _)| *b).collect();
    assert_eq!(buttons, vec![RemoteButton::Back, RemoteButton::Up]);
    let preset = build("reading", true).unwrap();
    assert_eq!(check_mapping_import(10, 1, preset.clone()), Ok(preset));
}
