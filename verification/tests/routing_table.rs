use benchboss::routing::table::RoutingTable;

fn table_of(slots: [Option<u64>; 4], bench: Option<u64>) -> RoutingTable {
    RoutingTable { slots, bench }
}

#[test]
fn swap_slot_to_bench() {
    let mut table = RoutingTable::default();
    table.assign_slot(0, 10);
    table.assign_slot(1, 20);
    table.assign_bench(50);

    table.swap(10, 50);

    assert_eq!(table.slots[0], Some(50));
    assert_eq!(table.bench, Some(10));
    assert_eq!(table.slots[1], Some(20));
}

#[test]
fn swap_slot_to_slot() {
    let mut table = RoutingTable::default();
    table.assign_slot(0, 1);
    table.assign_slot(3, 4);

    table.swap(1, 4);

    assert_eq!(table.slots[0], Some(4));
    assert_eq!(table.slots[3], Some(1));
}

#[test]
fn swap_missing_handle_is_noop() {
    let mut table = RoutingTable::default();
    table.assign_slot(0, 99);

    table.swap(99, 999); // 999 not in table

    assert_eq!(table.slots[0], Some(99)); // unchanged
}

#[test]
fn default_table_is_empty() {
    let table = RoutingTable::default();
    assert_eq!(table.slots, [None, None, None, None]);
    assert_eq!(table.bench, None);
}

#[test]
fn swap_bench_to_slot() {
    let mut table = table_of([Some(1), Some(2), None, Some(3)], Some(7));
    table.swap(7, 3);
    assert_eq!(table.slots, [Some(1), Some(2), None, Some(7)]);
    assert_eq!(table.bench, Some(3));
}

#[test]
fn swap_both_missing_is_noop() {
    let mut table = table_of([Some(1), None, Some(2), None], Some(3));
    table.swap(8, 9);
    assert_eq!(table.slots, [Some(1), None, Some(2), None]);
    assert_eq!(table.bench, Some(3));
}

#[test]
fn swap_handle_with_itself_is_noop() {
    let mut table = table_of([Some(1), Some(2), None, None], Some(5));
    table.swap(2, 2);
    table.swap(5, 5);
    assert_eq!(table.slots, [Some(1), Some(2), None, None]);
    assert_eq!(table.bench, Some(5));
}

#[test]
fn swap_is_symmetric() {
    let mut ab = table_of([Some(1), Some(2), Some(3), Some(4)], Some(5));
    let mut ba = table_of([Some(1), Some(2), Some(3), Some(4)], Some(5));
    ab.swap(2, 5);
    ba.swap(5, 2);
    assert_eq!(ab.slots, ba.slots);
    assert_eq!(ab.bench, ba.bench);
    assert_eq!(ab.slots, [Some(1), Some(5), Some(3), Some(4)]);
    assert_eq!(ab.bench, Some(2));
}

#[test]
fn swap_twice_restores() {
    let mut table = table_of([Some(10), None, Some(30), Some(40)], Some(50));
    table.swap(30, 50);
    table.swap(30, 50);
    assert_eq!(table.slots, [Some(10), None, Some(30), Some(40)]);
    assert_eq!(table.bench, Some(50));
    table.swap(10, 40);
    table.swap(10, 40);
    assert_eq!(table.slots, [Some(10), None, Some(30), Some(40)]);
}

#[test]
fn swap_uses_first_occurrence_of_a_duplicate() {
    let mut table = table_of([Some(1), Some(2), Some(1), None], Some(9));
    table.swap(1, 9);
    assert_eq!(table.slots, [Some(9), Some(2), Some(1), None]);
    assert_eq!(table.bench, Some(1));
}

#[test]
fn swap_keeps_occupancy() {
    let mut table = table_of([Some(1), None, Some(2), None], Some(3));
    table.swap(3, 1);
    assert_eq!(table.slots, [Some(3), None, Some(2), None]);
    assert_eq!(table.bench, Some(1));
}

#[test]
fn assign_overwrites_one_position() {
    let mut table = table_of([Some(1), Some(2), Some(3), Some(4)], None);
    table.assign_slot(2, 33);
    assert_eq!(table.slots, [Some(1), Some(2), Some(33), Some(4)]);
    table.assign_bench(44);
    assert_eq!(table.bench, Some(44));
    assert_eq!(table.slots, [Some(1), Some(2), Some(33), Some(4)]);
}

#[test]
fn remove_handle_clears_every_reference() {
    let mut table = table_of([Some(7), Some(2), Some(7), None], Some(7));
    table.remove_handle(7);
    assert_eq!(table.slots, [None, Some(2), None, None]);
    assert_eq!(table.bench, None);
    table.remove_handle(7);
    assert_eq!(table.slots, [None, Some(2), None, None]);
    assert_eq!(table.bench, None);
}

#[test]
fn remove_missing_handle_changes_nothing() {
    let mut table = table_of([Some(1), None, Some(2), None], Some(3));
    table.remove_handle(42);
    assert_eq!(table.slots, [Some(1), None, Some(2), None]);
    assert_eq!(table.bench, Some(3));
}
