use sayall::default_capture::{is_virtual_cable_output_name, looks_like_stale_borrow, DefaultCaptureBorrow};

#[test]
fn stale_detection_matches_the_virtual_cable_naming_rule() {
    assert!(looks_like_stale_borrow("CABLE Output (VB-Audio Virtual Cable)"));
    assert!(!looks_like_stale_borrow("麦克风 (Realtek Audio)"));
}

#[test]
fn cable_output_name_ignores_ascii_case() {
    assert!(is_virtual_cable_output_name("cable output (vb-audio)"));
    assert!(!is_virtual_cable_output_name("CABLE Input (VB-Audio Virtual Cable)"));
}

#[test]
fn borrow_is_remembered_once_and_restored() {
    let mut borrow = DefaultCaptureBorrow::new();
    assert!(!borrow.is_enabled());
    assert_eq!(borrow.borrow_target(Some("cable".to_owned())), None);
    assert_eq!(borrow.set_enabled(true), None);
    assert_eq!(
        borrow.borrow_target(Some("cable".to_owned())),
        Some("cable".to_owned())
    );
    assert!(borrow.needs_switch("mic", "cable"));
    assert!(!borrow.needs_switch("cable", "cable"));
    borrow.remember("mic".to_owned());
    assert!(borrow.borrowed());
    assert!(!borrow.needs_switch("mic", "cable"));
    assert_eq!(borrow.restore(), Some("mic".to_owned()));
    assert!(!borrow.borrowed());
    assert_eq!(borrow.restore(), None);
}

#[test]
fn switching_off_restores_at_once() {
    let mut borrow = DefaultCaptureBorrow::new();
    borrow.set_enabled(true);
    borrow.remember("mic".to_owned());
    assert_eq!(borrow.set_enabled(false), Some("mic".to_owned()));
    assert!(!borrow.borrowed());
    assert!(!borrow.is_enabled());
}
