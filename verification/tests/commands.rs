use std::collections::HashMap;

use benchboss::commands::{
    assign_player, assign_slot, forwarding_frame, forwarding_tick, start_forwarding, CommandError,
};
use benchboss::controller::{GamepadState, PhysicalDevice};
use benchboss::routing::table::RoutingTable;

fn device(handle: u64, path: &str, name: Option<&str>) -> PhysicalDevice {
    PhysicalDevice {
        handle,
        device_path: path.to_string(),
        player_name: name.map(|n| n.to_string()),
    }
}

fn pressed(buttons: u32) -> GamepadState {
    GamepadState { buttons, left_trigger: 10, right_trigger: 20, left_thumb_x: -5, left_thumb_y: 5, right_thumb_x: 100, right_thumb_y: -100 }
}

#[test]
fn assign_player_names_the_device() {
    let mut devices = vec![device(1, "a", None), device(2, "b", Some("old"))];
    assert_eq!(assign_player(&mut devices, 2, "Alice".to_string()), Ok(()));
    assert_eq!(devices[1], device(2, "b", Some("Alice")));
    assert_eq!(devices[0], device(1, "a", None));
}

#[test]
fn assign_player_renames_only_first_match() {
    let mut devices = vec![device(5, "a", None), device(5, "b", None)];
    assert_eq!(assign_player(&mut devices, 5, "Bob".to_string()), Ok(()));
    assert_eq!(devices[0].player_name, Some("Bob".to_string()));
    assert_eq!(devices[1].player_name, None);
}

#[test]
fn assign_player_unknown_handle_is_refused() {
    let mut devices = vec![device(1, "a", None)];
    assert_eq!(assign_player(&mut devices, 0x1f, "Eve".to_string()), Err(CommandError::NoDevice(0x1f)));
    assert_eq!(devices, vec![device(1, "a", None)]);
}

#[test]
fn assign_slot_in_range() {
    let mut table = RoutingTable::default();
    assert_eq!(assign_slot(&mut table, 3, 77), Ok(()));
    assert_eq!(table.slots, [None, None, None, Some(77)]);
}

#[test]
fn assign_slot_out_of_range_is_refused() {
    let mut table = RoutingTable::default();
    assert_eq!(assign_slot(&mut table, 4, 77), Err(CommandError::SlotOutOfRange(4)));
    assert_eq!(table.slots, [None, None, None, None]);
    assert_eq!(table.bench, None);
}

#[test]
fn start_forwarding_spawns_once() {
    let mut running = false;
    assert!(start_forwarding(&mut running));
    assert!(running);
    assert!(!start_forwarding(&mut running));
    assert!(running);
}

#[test]
fn frame_follows_routing() {
    let table = RoutingTable { slots: [Some(1), None, Some(2), Some(3)], bench: Some(4) };
    let mut states = HashMap::new();
    states.insert(1u64, pressed(1));
    states.insert(2u64, pressed(2));
    states.insert(4u64, pressed(4));
    let frame = forwarding_frame(&table, &states);
    assert_eq!(frame, vec![pressed(1), GamepadState::default(), pressed(2), GamepadState::default()]);
}

#[test]
fn frame_after_hot_swap_feeds_benched_player() {
    let mut table = RoutingTable { slots: [Some(1), None, None, None], bench: Some(4) };
    let mut states = HashMap::new();
    states.insert(1u64, pressed(1));
    states.insert(4u64, pressed(4));
    table.swap(1, 4);
    assert_eq!(forwarding_frame(&table, &states)[0], pressed(4));
}

#[test]
fn tick_stops_when_not_running() {
    let table = RoutingTable::default();
    let states = HashMap::new();
    assert_eq!(forwarding_tick(false, &table, &states), None);
    assert_eq!(forwarding_tick(true, &table, &states), Some(vec![GamepadState::default(); 4]));
}
