use std::collections::HashMap;

use benchboss::controller::capture::{merge_device_list, record_xinput_polls, xinput_handles};
use benchboss::controller::enumerate::{
    enumerate_gamepads, is_gamepad, trim_nul_terminators, EnumerateError, HidUsage, RawInputDevice,
};
use benchboss::controller::vigem::{slot_report, SlotError};
use benchboss::controller::{GamepadState, PhysicalDevice, XInputGamepad};

fn device(handle: u64, path: &str, name: Option<&str>) -> PhysicalDevice {
    PhysicalDevice {
        handle,
        device_path: path.to_string(),
        player_name: name.map(|n| n.to_string()),
    }
}

fn report(buttons: u16) -> XInputGamepad {
    XInputGamepad { buttons, left_trigger: 1, right_trigger: 2, thumb_lx: -32768, thumb_ly: 32767, thumb_rx: 3, thumb_ry: -4 }
}

fn utf16(s: &str) -> Vec<u16> {
    s.encode_utf16().collect()
}

#[test]
fn default_state_is_neutral() {
    let s = GamepadState::default();
    assert_eq!(s, GamepadState { buttons: 0, left_trigger: 0, right_trigger: 0, left_thumb_x: 0, left_thumb_y: 0, right_thumb_x: 0, right_thumb_y: 0 });
    assert_eq!(s.to_xinput(), XInputGamepad { buttons: 0, left_trigger: 0, right_trigger: 0, thumb_lx: 0, thumb_ly: 0, thumb_rx: 0, thumb_ry: 0 });
}

#[test]
fn report_round_trip() {
    let r = report(0xF00F);
    let s = GamepadState::from_xinput(&r);
    assert_eq!(s.buttons, 0xF00F);
    assert_eq!(s.left_thumb_x, -32768);
    assert_eq!(s.to_xinput(), r);
}

#[test]
fn buttons_above_16_bits_are_dropped() {
    let s = GamepadState { buttons: 0x1_0001, left_trigger: 0, right_trigger: 0, left_thumb_x: 0, left_thumb_y: 0, right_thumb_x: 0, right_thumb_y: 0 };
    assert_eq!(s.to_xinput().buttons, 1);
    assert_ne!(GamepadState::from_xinput(&s.to_xinput()), s);
}

#[test]
fn slot_report_checks_slot() {
    let s = GamepadState::from_xinput(&report(7));
    assert_eq!(slot_report(3, &s), Ok(report(7)));
    assert_eq!(slot_report(4, &s), Err(SlotError::InvalidSlot(4)));
}

#[test]
fn xinput_handles_takes_first_four() {
    let devices: Vec<PhysicalDevice> = (1..=6).map(|h| device(h, "p", None)).collect();
    assert_eq!(xinput_handles(&devices), vec![1, 2, 3, 4]);
    assert_eq!(xinput_handles(&devices[..2].to_vec()), vec![1, 2]);
}

#[test]
fn polls_update_only_successful_indices() {
    let mut states = HashMap::new();
    states.insert(2u64, GamepadState::default());
    record_xinput_polls(&mut states, &vec![1, 2, 3], &vec![Some(report(1)), None, Some(report(3))]);
    assert_eq!(states.len(), 3);
    assert_eq!(states[&1], GamepadState::from_xinput(&report(1)));
    assert_eq!(states[&2], GamepadState::default());
    assert_eq!(states[&3], GamepadState::from_xinput(&report(3)));
}

#[test]
fn merge_keeps_known_names() {
    let existing = vec![device(1, "old1", Some("Ann")), device(2, "old2", None), device(1, "dup", Some("Bea"))];
    let fresh = vec![device(3, "new3", None), device(1, "new1", None), device(2, "new2", Some("x"))];
    let merged = merge_device_list(&existing, fresh);
    assert_eq!(merged, vec![device(3, "new3", None), device(1, "new1", Some("Bea")), device(2, "new2", None)]);
}

#[test]
fn gamepad_predicate() {
    assert!(is_gamepad(2, Some(HidUsage { usage_page: 1, usage: 4 })));
    assert!(is_gamepad(2, Some(HidUsage { usage_page: 1, usage: 5 })));
    assert!(!is_gamepad(2, Some(HidUsage { usage_page: 1, usage: 6 })));
    assert!(!is_gamepad(2, Some(HidUsage { usage_page: 12, usage: 5 })));
    assert!(!is_gamepad(2, None));
    assert!(!is_gamepad(0, Some(HidUsage { usage_page: 1, usage: 5 })));
}

#[test]
fn trim_removes_trailing_nuls_only() {
    let mut buf = vec![0, 65, 0, 66, 0, 0];
    trim_nul_terminators(&mut buf);
    assert_eq!(buf, vec![0, 65, 0, 66]);
    let mut all = vec![0, 0];
    trim_nul_terminators(&mut all);
    assert_eq!(all, Vec::<u16>::new());
}

fn raw(handle: u64, device_type: u32, usage: Option<(u16, u16)>, name: Vec<u16>) -> RawInputDevice {
    RawInputDevice {
        handle,
        device_type,
        hid_usage: usage.map(|(usage_page, usage)| HidUsage { usage_page, usage }),
        name,
    }
}

#[test]
fn enumerate_filters_and_decodes() {
    let mut pad = utf16("\\\\?\\HID#VID_045E");
    pad.push(0);
    let entries = vec![
        raw(10, 0, None, vec![]),
        raw(11, 2, Some((1, 5)), pad),
        raw(12, 2, Some((1, 2)), vec![]),
        raw(13, 2, None, vec![]),
        raw(14, 2, Some((1, 4)), vec![0xD800, 0x41, 0]),
        raw(15, 2, Some((1, 5)), utf16("late")),
    ];
    let devices = enumerate_gamepads(5, &entries).unwrap();
    assert_eq!(devices, vec![device(11, "\\\\?\\HID#VID_045E", None), device(14, "\u{FFFD}A", None)]);
}

#[test]
fn enumerate_empty_list() {
    assert_eq!(enumerate_gamepads(0, &vec![]), Ok(vec![]));
}

#[test]
fn enumerate_list_failure() {
    assert_eq!(enumerate_gamepads(u32::MAX, &vec![]), Err(EnumerateError::DeviceListFailed));
}
