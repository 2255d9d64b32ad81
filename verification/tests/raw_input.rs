use std::collections::BTreeSet;

use sayall::raw_input::{
    decode_report_usages, device_path_matches_known_remote, device_path_matches_xiaomi_remote,
    parse_raw_hid_body, select_single_device_path, supervisor_should_start, ButtonEdge,
    ButtonStateMerger, DevicePathError, RawInputDecodeError, RawInputPhase, RawKeyboardEvent,
    RemoteButton,
};
use sayall::remote_profile::RemoteProfile;

fn report(usages: &[u16]) -> Vec<u8> {
    let mut bytes = vec![0x01, 0x00, 0x00, 0, 0, 0, 0, 0, 0];
    for (index, usage) in usages.iter().take(3).enumerate() {
        bytes[3 + index * 2..5 + index * 2].copy_from_slice(&usage.to_le_bytes());
    }
    bytes
}

fn keyboard(virtual_key: u16, message: u32) -> RawKeyboardEvent {
    RawKeyboardEvent {
        make_code: 0,
        flags: 0,
        virtual_key,
        message,
    }
}

#[test]
fn matches_both_windows_xiaomi_remote_device_path_shapes() {
    assert!(device_path_matches_xiaomi_remote(
        r"\\?\HID#VID_2717&PID_32B8&REV_00A4#instance"
    ));
    assert!(device_path_matches_xiaomi_remote(
        r"\\?\HID#{1812}_Dev_VID&012717_PID&32B8_REV&00A4_instance"
    ));
    assert!(!device_path_matches_xiaomi_remote(
        r"\\?\HID#VID_2717&PID_0001#instance"
    ));
}

#[test]
fn device_selection_fails_closed() {
    assert_eq!(select_single_device_path(&[]), Err(DevicePathError::Missing));
    let paths = vec![
        r"\\?\HID#VID_2717&PID_32B8#one".to_owned(),
        r"\\?\HID#VID_2717&PID_32B8#two".to_owned(),
    ];
    assert_eq!(
        select_single_device_path(&paths),
        Err(DevicePathError::Ambiguous(2))
    );
}

#[test]
fn decodes_all_supported_report_shapes_and_unknown_usages() {
    let full = report(&[0x0028, 0x0052, 0xFFFF]);
    let expected = BTreeSet::from([0x0028, 0x0052, 0xFFFF]);
    let compact = [&[0x01][..], &full[3..]].concat();
    assert_eq!(decode_report_usages(&full).unwrap(), expected);
    assert_eq!(decode_report_usages(&compact).unwrap(), expected);
    assert_eq!(decode_report_usages(&full[3..]).unwrap(), expected);
}

#[test]
fn splits_multiple_raw_hid_reports() {
    let first = report(&[0x0028]);
    let second = report(&[0x0052]);
    let mut body = Vec::from(9u32.to_le_bytes());
    body.extend_from_slice(&2u32.to_le_bytes());
    body.extend_from_slice(&first);
    body.extend_from_slice(&second);
    assert_eq!(
        parse_raw_hid_body(&body).unwrap(),
        vec![first.as_slice(), second.as_slice()]
    );
}

#[test]
fn repeated_keyboard_down_emits_one_edge() {
    let mut merger = ButtonStateMerger::default();
    assert_eq!(
        merger.update_keyboard(keyboard(0x26, 0x0100)),
        vec![ButtonEdge {
            button: RemoteButton::Up,
            is_pressed: true,
        }]
    );
    assert!(merger.update_keyboard(keyboard(0x26, 0x0100)).is_empty());
    assert_eq!(
        merger.update_keyboard(keyboard(0x26, 0x0101)),
        vec![ButtonEdge {
            button: RemoteButton::Up,
            is_pressed: false,
        }]
    );
}

#[test]
fn keyboard_and_hid_sources_share_one_logical_hold() {
    let mut merger = ButtonStateMerger::default();
    assert_eq!(merger.update_keyboard(keyboard(0x26, 0x0100)).len(), 1);
    assert!(merger
        .update_hid_report(&report(&[0x0052]))
        .unwrap()
        .is_empty());
    assert!(merger.update_keyboard(keyboard(0x26, 0x0101)).is_empty());
    assert_eq!(merger.update_hid_report(&report(&[])).unwrap().len(), 1);
}

#[test]
fn voice_key_is_excluded_from_ordinary_button_path() {
    let mut merger = ButtonStateMerger::default();
    assert!(merger.update_keyboard(keyboard(0x74, 0x0100)).is_empty());
    assert!(merger
        .update_hid_report(&report(&[0x003E]))
        .unwrap()
        .is_empty());
}

#[test]
fn switching_profile_reinterprets_usages_and_clears_stale_hid_state() {
    let mut merger = ButtonStateMerger::default();
    assert_eq!(merger.profile(), RemoteProfile::xiaomi());
    merger.update_hid_usages(BTreeSet::from([0x0052]));
    assert_eq!(merger.active_button_set(), vec![RemoteButton::Up]);

    let edges = merger.set_profile(RemoteProfile::google_tv());
    assert_eq!(
        edges,
        vec![ButtonEdge {
            button: RemoteButton::Up,
            is_pressed: false
        }]
    );
    assert!(merger.active_button_set().is_empty());

    merger.update_hid_usages(BTreeSet::from([0x0052]));
    assert!(merger.active_button_set().is_empty());
    merger.update_hid_usages(BTreeSet::from([0x0042]));
    assert_eq!(merger.active_button_set(), vec![RemoteButton::Up]);

    assert!(merger.set_profile(RemoteProfile::google_tv()).is_empty());
}

#[test]
fn release_all_clears_every_source_once() {
    let mut merger = ButtonStateMerger::default();
    merger.update_keyboard(keyboard(0x27, 0x0100));
    merger.update_hid_report(&report(&[0x0028])).unwrap();
    let releases = merger.release_all();
    assert_eq!(releases.len(), 2);
    assert!(releases.iter().all(|edge| !edge.is_pressed));
    assert!(merger.release_all().is_empty());
}

#[test]
fn malformed_reports_are_rejected_with_their_reason() {
    assert_eq!(
        decode_report_usages(&[0x01, 0x02]),
        Err(RawInputDecodeError::UnsupportedReportShape(2))
    );
    assert_eq!(
        decode_report_usages(&[0x02, 0, 0, 0x28, 0, 0, 0, 0, 0]),
        Err(RawInputDecodeError::InvalidReportPrefix)
    );
    assert_eq!(
        decode_report_usages(&[0x02, 0x28, 0, 0, 0, 0, 0]),
        Err(RawInputDecodeError::InvalidReportPrefix)
    );
    assert_eq!(
        parse_raw_hid_body(&[1, 2, 3]),
        Err(RawInputDecodeError::RawHidBodyTooShort)
    );
    let mut empty = Vec::from(0u32.to_le_bytes());
    empty.extend_from_slice(&1u32.to_le_bytes());
    assert_eq!(
        parse_raw_hid_body(&empty),
        Err(RawInputDecodeError::EmptyRawHidReport)
    );
    let mut truncated = Vec::from(9u32.to_le_bytes());
    truncated.extend_from_slice(&2u32.to_le_bytes());
    truncated.extend_from_slice(&report(&[0x0028]));
    assert_eq!(
        parse_raw_hid_body(&truncated),
        Err(RawInputDecodeError::TruncatedRawHidBody {
            expected: 26,
            actual: 17
        })
    );
}

#[test]
fn held_buttons_are_listed_in_button_order_and_edges_replay() {
    let mut merger = ButtonStateMerger::new();
    merger.update_hid_usages(BTreeSet::from([0x0052, 0x0028]));
    assert_eq!(
        merger.active_button_set(),
        vec![RemoteButton::Confirm, RemoteButton::Up]
    );
    let edges = merger.update_hid_usages(BTreeSet::from([0x0028]));
    assert_eq!(
        edges,
        vec![ButtonEdge {
            button: RemoteButton::Up,
            is_pressed: false
        }]
    );
    assert!(merger.update_hid_usages(BTreeSet::from([0x0028])).is_empty());
}

#[test]
fn single_known_remote_is_selected_and_others_ignored() {
    let paths = vec![
        r"\\?\HID#VID_046D&PID_C52B#mouse".to_owned(),
        r"  \\?\HID#VID_2717&PID_32B8#remote  ".to_owned(),
    ];
    assert_eq!(
        select_single_device_path(&paths),
        Ok(r"  \\?\HID#VID_2717&PID_32B8#remote  ".to_owned())
    );
    assert!(device_path_matches_known_remote(
        r"\\?\HID#VID_18D1&PID_9450#google"
    ));
}

#[test]
fn supervisor_restarts_failures_and_only_first_stopped() {
    assert!(supervisor_should_start(RawInputPhase::Failed, false));
    assert!(supervisor_should_start(RawInputPhase::Failed, true));
    assert!(supervisor_should_start(RawInputPhase::Stopped, true));
    assert!(!supervisor_should_start(RawInputPhase::Stopped, false));
    assert!(!supervisor_should_start(RawInputPhase::Ready, true));
}
