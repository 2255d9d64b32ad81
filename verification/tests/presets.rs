use sayall::presets::{build, catalog, preset_kind, PresetKind, RECOMMENDED_PRESET};
use sayall::raw_input::{all_buttons, RemoteButton};
use sayall::send_input::{native_key, ButtonAction, MouseAction};

#[test]
fn every_catalog_entry_builds_and_normalizes() {
    for info in catalog() {
        let mappings = build(&info.id, true).expect("every catalog preset builds");
        let normalized = mappings
            .clone()
            .normalized()
            .expect("presets pass chord validation and normalization");
        assert_eq!(
            normalized, mappings,
            "{}: normalization must not rewrite a preset",
            info.id
        );
    }
}

#[test]
fn presets_never_assign_native_to_buttons_without_one() {
    for info in catalog() {
        let mappings = build(&info.id, true).unwrap();
        for button in all_buttons() {
            if let Some(actions) = mappings.actions(button) {
                for action in &actions.single {
                    if *action == ButtonAction::Native {
                        assert!(
                            native_key(button).is_some(),
                            "{}: {:?} has no key of its own to let through",
                            info.id,
                            button
                        );
                    }
                }
            }
        }
    }
}

#[test]
fn unknown_preset_id_is_rejected() {
    assert!(build("nope", true).is_none());
    assert!(catalog().iter().any(|info| info.id == RECOMMENDED_PRESET));
}

#[test]
fn build_keeps_the_enabled_flag() {
    assert!(!build(RECOMMENDED_PRESET, false).unwrap().enabled);
    assert!(build(RECOMMENDED_PRESET, true).unwrap().enabled);
}

#[test]
fn presets_replace_the_whole_mapping() {
    let generic = build("generic", true).unwrap();
    assert_eq!(
        generic.actions(RemoteButton::Up).unwrap().single,
        vec![ButtonAction::Mouse {
            kind: MouseAction::WheelUp
        }]
    );
    assert!(generic.actions(RemoteButton::Tv).is_none());
    assert!(generic.actions(RemoteButton::Youtube).is_none());
    let media = build("media", false).unwrap();
    assert_eq!(
        media.actions(RemoteButton::Up).unwrap().single,
        vec![ButtonAction::Native]
    );
    assert!(media.actions(RemoteButton::Up).unwrap().double.is_empty());
    assert_eq!(preset_kind("reading"), Some(PresetKind::Reading));
    assert_eq!(preset_kind("Reading"), None);
}

#[test]
fn catalog_lists_the_three_presets_in_order() {
    let ids: Vec<String> = catalog().into_iter().map(|info| info.id).collect();
    assert_eq!(ids, vec!["generic", "reading", "media"]);
    assert_eq!(catalog()[0].name, "通用（浏览器 / 任意程序）");
}
