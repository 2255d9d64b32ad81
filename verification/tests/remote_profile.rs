use sayall::raw_input::{button_for_usage, RemoteButton};
use sayall::remote_profile::{profile_by_id, profile_for_device_path, profiles, RemoteProfile};

#[test]
fn xiaomi_usage_table_matches_the_shipped_decoder() {
    let xiaomi = RemoteProfile::xiaomi();
    for usage in 0u16..=0x00FF {
        assert_eq!(
            xiaomi.button_for_usage(usage),
            button_for_usage(usage),
            "usage {usage:#06x} decodes differently"
        );
    }
}

#[test]
fn profiles_have_unique_ids_and_no_duplicate_usages() {
    for profile in profiles() {
        let table = profile.usages();
        let mut seen: Vec<u16> = table.iter().map(|(usage, _)| *usage).collect();
        let count = seen.len();
        seen.sort_unstable();
        seen.dedup();
        assert_eq!(count, seen.len(), "{} has a duplicate usage", profile.id());
        for (_, button) in &table {
            assert!(
                profile.has_button(*button),
                "{} maps a usage to {button:?}, which the model lacks",
                profile.id()
            );
        }
    }
    assert_eq!(profile_by_id("google_tv"), Some(RemoteProfile::google_tv()));
    assert_eq!(profile_by_id("nope"), None);
}

#[test]
fn device_paths_resolve_to_the_right_profile() {
    assert_eq!(
        profile_for_device_path(r"\\?\HID#VID_2717&PID_32B8&MI_01#7&x#{cls}"),
        Some(RemoteProfile::xiaomi())
    );
    assert_eq!(
        profile_for_device_path(
            r"\\?\HID#{00001812-0000-1000-8000-00805f9b34fb}_DEV_VID&0018d1_PID&9450_REV&0001"
        ),
        Some(RemoteProfile::google_tv())
    );
    assert_eq!(profile_for_device_path(r"\\?\HID#VID_046D&PID_C52B"), None);
}

#[test]
fn the_same_usage_decodes_differently_per_profile() {
    assert_eq!(RemoteProfile::xiaomi().button_for_usage(0x0041), None);
    assert_eq!(
        RemoteProfile::google_tv().button_for_usage(0x0041),
        Some(RemoteButton::Confirm)
    );
    assert_eq!(
        RemoteProfile::xiaomi().button_for_usage(0x0052),
        Some(RemoteButton::Up)
    );
    assert_eq!(RemoteProfile::google_tv().button_for_usage(0x0052), None);
}

#[test]
fn google_profile_is_marked_unverified_until_hardware_confirms_it() {
    assert!(RemoteProfile::xiaomi().verified());
    assert!(
        !RemoteProfile::google_tv().verified(),
        "the Google profile stays unverified until confirmed on hardware"
    );
}

#[test]
fn profile_ids_and_ids_round_trip() {
    for profile in profiles() {
        assert_eq!(profile_by_id(profile.id()), Some(profile));
    }
    assert_eq!(RemoteProfile::xiaomi().id(), "xiaomi");
    assert_eq!(RemoteProfile::google_tv().vendor_id(), 0x18D1);
    assert_eq!(RemoteProfile::google_tv().product_id(), 0x9450);
    assert_eq!(RemoteProfile::xiaomi().name(), "小米蓝牙遥控器 2 / 2 Pro");
}

#[test]
fn usage_table_inverts_the_decoder() {
    for profile in profiles() {
        for (usage, button) in profile.usages() {
            assert_eq!(profile.button_for_usage(usage), Some(button));
            assert_eq!(profile.usage_for_button(button), Some(usage));
        }
    }
    assert!(!RemoteProfile::xiaomi().has_button(RemoteButton::Youtube));
    assert!(!RemoteProfile::google_tv().has_button(RemoteButton::Menu));
    assert_eq!(RemoteProfile::xiaomi().buttons().len(), 13);
    assert_eq!(RemoteProfile::google_tv().buttons().len(), 14);
}
