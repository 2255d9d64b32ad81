use sayall::app_profiles::{
    normalize_process, overlay_mappings, AppProfileBindings, OverlayChange, ProfileOverlay,
};
use sayall::presets::build;
use sayall::raw_input::RemoteButton;
use sayall::send_input::{ButtonAction, ButtonActions, ButtonMappings};

fn bindings(pairs: &[(&str, &str)]) -> AppProfileBindings {
    AppProfileBindings {
        enabled: true,
        bindings: pairs
            .iter()
            .map(|(process, preset)| ((*process).to_owned(), (*preset).to_owned()))
            .collect(),
    }
    .normalized()
}

#[test]
fn process_names_normalize_away_path_case_and_extension() {
    assert_eq!(
        normalize_process(r"C:\Program Files\Foo\Chrome.EXE"),
        "chrome"
    );
    assert_eq!(normalize_process("msedge"), "msedge");
    assert_eq!(normalize_process("  Notepad.exe  "), "notepad");
}

#[test]
fn unknown_presets_are_dropped_instead_of_failing_later() {
    let table = bindings(&[("chrome", "reading"), ("notepad", "no-such-preset")]);
    assert_eq!(table.resolve("Chrome.exe"), Some("reading"));
    assert_eq!(table.resolve("notepad.exe"), None);
}

#[test]
fn resolve_respects_the_master_switch() {
    let mut table = bindings(&[("chrome", "reading")]);
    assert_eq!(table.resolve("chrome.exe"), Some("reading"));
    table.enabled = false;
    assert_eq!(table.resolve("chrome.exe"), None);
}

#[test]
fn overlay_only_emits_a_change_when_the_target_changes() {
    let table = bindings(&[("chrome", "reading"), ("vlc", "media")]);
    let mut overlay = ProfileOverlay::default();

    assert_eq!(
        overlay.evaluate(&table, "chrome.exe"),
        Some(OverlayChange::Apply("reading".to_owned()))
    );
    assert_eq!(overlay.evaluate(&table, "chrome.exe"), None);
    assert_eq!(overlay.active(), Some("reading"));

    assert_eq!(
        overlay.evaluate(&table, "vlc.exe"),
        Some(OverlayChange::Apply("media".to_owned()))
    );
    assert_eq!(
        overlay.evaluate(&table, "explorer.exe"),
        Some(OverlayChange::Restore)
    );
    assert_eq!(overlay.evaluate(&table, "explorer.exe"), None);
    assert_eq!(overlay.active(), None);
}

#[test]
fn invalidate_forces_the_next_evaluation_to_re_apply() {
    let table = bindings(&[("chrome", "reading")]);
    let mut overlay = ProfileOverlay::default();
    overlay.evaluate(&table, "chrome.exe");
    assert_eq!(overlay.evaluate(&table, "chrome.exe"), None);
    overlay.invalidate();
    assert_eq!(
        overlay.evaluate(&table, "chrome.exe"),
        Some(OverlayChange::Apply("reading".to_owned()))
    );
}

#[test]
fn disabled_bindings_restore_the_baseline_once() {
    let mut table = bindings(&[("chrome", "reading")]);
    let mut overlay = ProfileOverlay::default();
    overlay.evaluate(&table, "chrome.exe");
    table.enabled = false;
    assert_eq!(
        overlay.evaluate(&table, "chrome.exe"),
        Some(OverlayChange::Restore)
    );
    assert_eq!(overlay.evaluate(&table, "chrome.exe"), None);
}

#[test]
fn normalize_keeps_the_last_binding_of_a_process_and_strips_paths() {
    let table = bindings(&[
        (r"C:\Apps\VLC.exe", "reading"),
        ("vlc", "media"),
        ("", "generic"),
    ]);
    assert_eq!(table.resolve("vlc.exe"), Some("media"));
    assert_eq!(table.resolve(""), None);
}

#[test]
fn new_bindings_are_switched_off_and_empty() {
    let table = AppProfileBindings::new();
    assert!(!table.enabled);
    assert!(table.bindings.is_empty());
    assert_eq!(table.resolve("chrome.exe"), None);
}

#[test]
fn overlay_changes_pick_the_preset_or_the_saved_mapping() {
    let mut baseline = ButtonMappings::default();
    baseline.enabled = false;
    baseline.set_actions(
        RemoteButton::Tv,
        ButtonActions::single(ButtonAction::Disabled),
    );
    let applied = overlay_mappings(&OverlayChange::Apply("media".to_owned()), baseline.clone())
        .expect("a known preset applies");
    assert!(!applied.enabled);
    assert_eq!(applied, build("media", false).unwrap());
    assert!(applied.actions(RemoteButton::Tv).is_none());
    assert_eq!(
        overlay_mappings(&OverlayChange::Restore, baseline.clone()),
        Some(baseline.clone())
    );
    assert_eq!(
        overlay_mappings(&OverlayChange::Apply("nope".to_owned()), baseline),
        None
    );
}

#[test]
fn normalized_bindings_hold_each_process_once_in_name_order() {
    let table = bindings(&[
        ("VLC.exe", "media"),
        ("chrome", "reading"),
        ("vlc", "generic"),
        ("Acrobat", "reading"),
    ]);
    let names: Vec<&str> = table.bindings.iter().map(|(p, _)| p.as_str()).collect();
    assert_eq!(names, vec!["acrobat", "chrome", "vlc"]);
    assert_eq!(table.resolve("vlc.exe"), Some("generic"));
}
