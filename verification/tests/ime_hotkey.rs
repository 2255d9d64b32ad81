use std::path::PathBuf;

use sayall::ime_hotkey::{
    config_document, detect_outcome, parse_doubao, parse_sogou, sogou_token_to_key, ConfigRead,
    DetectError, ImeTool,
};
use sayall::send_input::KeyCode;

#[test]
fn reads_the_sogou_hold_to_talk_shortcut() {
    let chord = parse_sogou(r#"{"setting":{"shortcutKeysPress":["RightCtrl"]}}"#).unwrap();
    assert_eq!(chord.keys, vec![KeyCode::RightControl]);

    let chord = parse_sogou(r#"{"setting":{"shortcutKeysPress":["LeftCtrl","LeftMeta"]}}"#).unwrap();
    assert_eq!(chord.keys, vec![KeyCode::LeftControl, KeyCode::LeftWindows]);

    assert_eq!(
        parse_sogou(r#"{"setting":{"shortcutKeysPress":["LeftAlt","F8"]}}"#)
            .unwrap()
            .keys,
        vec![KeyCode::LeftAlt, KeyCode::F8]
    );
}

#[test]
fn sogou_read_failures_say_why_instead_of_guessing() {
    assert!(parse_sogou("not json").unwrap_err().contains("JSON"));
    assert!(parse_sogou(r#"{"setting":{}}"#)
        .unwrap_err()
        .contains("shortcutKeysPress"));
    assert!(parse_sogou(r#"{"setting":{"shortcutKeysPress":[]}}"#)
        .unwrap_err()
        .contains("没有配置"));
    assert!(
        parse_sogou(r#"{"setting":{"shortcutKeysPress":["NumpadEnter"]}}"#)
            .unwrap_err()
            .contains("NumpadEnter")
    );
}

#[test]
fn reads_the_doubao_hold_to_talk_shortcut() {
    let chord = parse_doubao(
        r#"{"voice":{"voiceLongPressShortcut":{"modifierFlags":2048,"keyCode":0}}}"#,
    )
    .unwrap();
    assert_eq!(chord.keys, vec![KeyCode::RightAlt]);

    let chord = parse_doubao(
        r#"{"voice":{"voiceLongPressShortcut":{"modifierFlags":2,"keyCode":81}}}"#,
    )
    .unwrap();
    assert_eq!(chord.keys, vec![KeyCode::Control, KeyCode::Q]);

    let chord = parse_doubao(
        r#"{"voice":{"voiceLongPressShortcut":{"modifierFlags":2049,"keyCode":0}}}"#,
    )
    .unwrap();
    assert_eq!(chord.keys, vec![KeyCode::RightAlt]);
}

#[test]
fn doubao_read_failures_say_why_instead_of_guessing() {
    assert!(parse_doubao(r#"{}"#)
        .unwrap_err()
        .contains("voiceLongPressShortcut"));
    assert!(parse_doubao(
        r#"{"voice":{"voiceLongPressShortcut":{"modifierFlags":0,"keyCode":0}}}"#
    )
    .unwrap_err()
    .contains("没有配置"));
    assert!(parse_doubao(
        r#"{"voice":{"voiceLongPressShortcut":{"modifierFlags":65536,"keyCode":0}}}"#
    )
    .unwrap_err()
    .contains("修饰键标记"));
}

#[test]
fn config_paths_match_the_documented_locations() {
    assert_eq!(
        ImeTool::Sogou
            .config_relative_path()
            .iter()
            .collect::<PathBuf>(),
        PathBuf::from("sogou_voice_assistant_pc").join("config.json")
    );
    assert_eq!(
        ImeTool::Doubao
            .config_relative_path()
            .iter()
            .collect::<PathBuf>(),
        PathBuf::from("DoubaoIme").join("conf").join("config.json")
    );
}

#[test]
fn missing_file_is_not_found_and_other_failures_say_why() {
    assert_eq!(
        detect_outcome(ImeTool::Sogou, ConfigRead::Missing),
        Err(DetectError::NotFound("搜狗语音输入"))
    );
    assert_eq!(
        detect_outcome(ImeTool::Doubao, ConfigRead::Unreadable("denied".to_owned())),
        Err(DetectError::ReadFailed {
            tool: "豆包输入法",
            reason: "denied".to_owned()
        })
    );
    assert_eq!(
        detect_outcome(ImeTool::Sogou, ConfigRead::Malformed("eof".to_owned())),
        Err(DetectError::ReadFailed {
            tool: "搜狗语音输入",
            reason: "配置不是合法 JSON：eof".to_owned()
        })
    );
    let chord = detect_outcome(
        ImeTool::Sogou,
        config_document(r#"{"setting":{"shortcutKeysPress":["RightCtrl"]}}"#),
    )
    .unwrap();
    assert_eq!(chord.keys, vec![KeyCode::RightControl]);
    assert_eq!(
        DetectError::NotFound("搜狗语音输入").message(),
        "没有找到搜狗语音输入的配置文件，可能没装或还没设置过语音热键"
    );
}

#[test]
fn sogou_tokens_cover_names_letters_digits_and_function_keys() {
    assert_eq!(sogou_token_to_key("RightMeta"), Some(KeyCode::RightWindows));
    assert_eq!(sogou_token_to_key("a"), Some(KeyCode::A));
    assert_eq!(sogou_token_to_key("Z"), Some(KeyCode::Z));
    assert_eq!(sogou_token_to_key("7"), Some(KeyCode::Digit7));
    assert_eq!(sogou_token_to_key("f12"), Some(KeyCode::F12));
    assert_eq!(sogou_token_to_key("F10"), Some(KeyCode::F10));
    assert_eq!(sogou_token_to_key("F13"), None);
    assert_eq!(sogou_token_to_key("leftctrl"), None);
    assert_eq!(sogou_token_to_key(""), None);
}

#[test]
fn a_byte_order_mark_is_skipped_and_errors_are_exact() {
    assert_eq!(
        parse_sogou("\u{feff}{\"setting\":{\"shortcutKeysPress\":[\"Space\"]}}")
            .unwrap()
            .keys,
        vec![KeyCode::Space]
    );
    assert_eq!(
        parse_sogou(r#"{"setting":{"shortcutKeysPress":[1]}}"#),
        Err("热键词元不是字符串".to_owned())
    );
    assert_eq!(
        parse_sogou(r#"{"setting":{"shortcutKeysPress":["A","A"]}}"#),
        Err("快捷键包含重复的按键".to_owned())
    );
    assert_eq!(
        parse_doubao(r#"{"voice":{"voiceLongPressShortcut":{"modifierFlags":16,"keyCode":0}}}"#),
        Err("暂不识别的修饰键标记：16".to_owned())
    );
    assert_eq!(
        parse_doubao(r#"{"voice":{"voiceLongPressShortcut":{"modifierFlags":0,"keyCode":255}}}"#),
        Err("暂不识别的虚拟键码：255".to_owned())
    );
    assert_eq!(
        parse_doubao(r#"{"voice":{"voiceLongPressShortcut":{"modifierFlags":256,"keyCode":162}}}"#)
            .unwrap()
            .keys,
        vec![KeyCode::LeftControl]
    );
}

#[test]
fn configuration_text_is_parsed_into_a_document_or_a_reason() {
    assert!(matches!(config_document("{}"), ConfigRead::Document(_)));
    assert!(matches!(config_document("\u{feff}[1, 2]"), ConfigRead::Document(_)));
    match config_document("{") {
        ConfigRead::Malformed(reason) => assert!(!reason.is_empty()),
        other => panic!("unexpected {other:?}"),
    }
    assert!(parse_doubao("[}").unwrap_err().starts_with("配置不是合法 JSON："));
}
