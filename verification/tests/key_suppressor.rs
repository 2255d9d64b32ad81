use sayall::key_suppressor::hook_key_edge;
use sayall::key_suppressor::f5_record_device;
use sayall::key_suppressor::{
    decide, track_down, SuppressorState, ARM_GRACE_MS, HOLD_LEAKED, HOLD_NONE, HOLD_SWALLOWED_ALL,
};

#[test]
fn only_remote_or_session_f5_down_is_swallowed() {
    assert!(!decide(0x41, false, false, false, HOLD_NONE));
    assert!(!decide(0x41, true, true, true, HOLD_SWALLOWED_ALL));
    assert!(!decide(0x74, false, false, false, HOLD_NONE));
    assert!(decide(0x74, false, true, false, HOLD_NONE));
    assert!(decide(0x74, false, false, true, HOLD_NONE));
}

#[test]
fn up_edge_follows_down_pairing_not_session_or_armed() {
    assert!(decide(0x74, true, false, false, HOLD_SWALLOWED_ALL));
    assert!(!decide(0x74, true, true, true, HOLD_LEAKED));
    assert!(!decide(0x74, true, true, true, HOLD_NONE));
    assert!(!decide(0x41, true, true, true, HOLD_SWALLOWED_ALL));
}

#[test]
fn any_leaked_down_poisons_the_hold() {
    assert_eq!(track_down(HOLD_NONE, true), HOLD_SWALLOWED_ALL);
    assert_eq!(track_down(HOLD_SWALLOWED_ALL, true), HOLD_SWALLOWED_ALL);
    assert_eq!(track_down(HOLD_SWALLOWED_ALL, false), HOLD_LEAKED);
    assert_eq!(track_down(HOLD_LEAKED, true), HOLD_LEAKED);
    assert_eq!(track_down(HOLD_NONE, false), HOLD_LEAKED);
}

#[test]
fn arming_lasts_for_the_grace_period() {
    let mut state = SuppressorState::new();
    assert!(!state.armed(1_000));
    state.arm_grace(1_000);
    assert!(state.armed(1_000 + ARM_GRACE_MS - 1));
    assert!(!state.armed(1_000 + ARM_GRACE_MS + 1));
}

#[test]
fn hook_messages_map_to_edges() {
    assert_eq!(hook_key_edge(0x0100), Some(false));
    assert_eq!(hook_key_edge(0x0104), Some(false));
    assert_eq!(hook_key_edge(0x0101), Some(true));
    assert_eq!(hook_key_edge(0x0105), Some(true));
    assert_eq!(hook_key_edge(0x0200), None);
}

#[test]
fn only_f5_keyboard_records_name_a_device() {
    let mut record = vec![0u8; 40];
    record[0] = 1;
    record[8..16].copy_from_slice(&0x0123_4567_89AB_CDEFu64.to_le_bytes());
    record[30] = 0x74;
    assert_eq!(f5_record_device(&record), Some(0x0123_4567_89AB_CDEF));
    assert_eq!(f5_record_device(&record[..31]), None);
    let mut mouse = record.clone();
    mouse[0] = 0;
    assert_eq!(f5_record_device(&mouse), None);
    let mut other_key = record.clone();
    other_key[30] = 0x41;
    assert_eq!(f5_record_device(&other_key), None);
}

#[test]
fn counters_track_swallowed_and_leaked_downs() {
    let mut state = SuppressorState::new();
    state.set_session_active(true, 0);
    assert!(state.swallow_ready(0));
    assert!(state.on_f5_down(false, true));
    assert_eq!(state.hold_pairing, HOLD_SWALLOWED_ALL);
    assert!(state.on_f5_up(10));
    assert_eq!(state.hold_pairing, HOLD_NONE);
    assert!(!state.on_f5_down(true, false));
    assert!(!state.on_f5_up(20));
    assert_eq!(state.downs_seen, 2);
    assert_eq!(state.downs_swallowed, 1);
    assert_eq!(state.downs_leaked, 1);
    state.set_session_active(false, 100);
    assert!(state.armed(100 + ARM_GRACE_MS - 1));
}
