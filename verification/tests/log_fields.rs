use sayall::log_fields::{
    button_mapping_log_summary, diagnostic_token, sanitized_readiness_item_id,
    sanitized_theme_operation_id,
};
use sayall::raw_input::RemoteButton;
use sayall::send_input::{ButtonAction, ButtonActions, ButtonMappings, KeyChord, KeyCode};
use sayall::theme::{
    effective_theme_name, theme_action_name, theme_preference_name, theme_result_reason_name,
    theme_terminal_result_name, EffectiveTheme, ThemeAction, ThemePreference, ThemeResultReason,
    ThemeTerminalResult,
};

#[test]
fn tokens_pass_only_when_short_and_safe() {
    assert_eq!(diagnostic_token("page_load-1.ok"), "page_load-1.ok");
    assert_eq!(diagnostic_token(""), "invalid");
    assert_eq!(diagnostic_token("two words"), "invalid");
    assert_eq!(diagnostic_token("line\nbreak"), "invalid");
    assert_eq!(diagnostic_token("主题"), "invalid");
    assert_eq!(diagnostic_token(&"a".repeat(64)), "a".repeat(64));
    assert_eq!(diagnostic_token(&"a".repeat(65)), "invalid");
}

#[test]
fn theme_operation_ids_are_checked() {
    assert_eq!(sanitized_theme_operation_id("op-1_a"), "op-1_a");
    assert_eq!(sanitized_theme_operation_id("op.1"), "invalid");
    assert_eq!(sanitized_theme_operation_id(&"b".repeat(48)), "b".repeat(48));
    assert_eq!(sanitized_theme_operation_id(&"b".repeat(49)), "invalid");
}

#[test]
fn readiness_ids_keep_safe_characters_up_to_32() {
    assert_eq!(sanitized_readiness_item_id("virtual_cable"), "virtual_cable");
    assert_eq!(sanitized_readiness_item_id("a b\nc-d"), "abcd");
    assert_eq!(sanitized_readiness_item_id(&"x".repeat(40)), "x".repeat(32));
    assert_eq!(sanitized_readiness_item_id("语音"), "");
}

#[test]
fn theme_names_are_stable() {
    assert_eq!(theme_preference_name(ThemePreference::default()), "system");
    assert_eq!(theme_preference_name(ThemePreference::Dark), "dark");
    assert_eq!(theme_action_name(ThemeAction::Initialize), "initialize");
    assert_eq!(effective_theme_name(EffectiveTheme::Light), "light");
    assert_eq!(theme_terminal_result_name(ThemeTerminalResult::Failed), "failed");
    assert_eq!(
        theme_result_reason_name(ThemeResultReason::NativeApplyFailed),
        "native_apply_failed"
    );
}

#[test]
fn mapping_summary_counts_cells_not_contents() {
    assert_eq!(
        button_mapping_log_summary(&ButtonMappings::default()),
        "enabled=true button_count=0 shortcut_count=0 open_app_count=0 native_count=0 disabled_cell_count=0"
    );
    let mut mappings = ButtonMappings::default();
    mappings.enabled = false;
    mappings.set_actions(
        RemoteButton::Confirm,
        ButtonActions {
            single: vec![ButtonAction::Shortcut {
                chord: KeyChord {
                    keys: vec![KeyCode::Enter],
                },
            }],
            double: vec![ButtonAction::OpenApp {
                target: "secret.exe".to_owned(),
            }],
            long: vec![ButtonAction::Disabled, ButtonAction::Native],
        },
    );
    mappings.set_actions(RemoteButton::Back, ButtonActions::single(ButtonAction::Native));
    let summary = button_mapping_log_summary(&mappings);
    assert_eq!(
        summary,
        "enabled=false button_count=2 shortcut_count=1 open_app_count=1 native_count=2 disabled_cell_count=1"
    );
    assert!(!summary.contains("secret"));
}
