//! What the frontend commands decide: naming players, routing a device into
//! a slot, and the forwarding loop's start and per-tick output.

use std::collections::HashMap;
use vstd::prelude::*;

use crate::controller::{neutral_state, GamepadState, PhysicalDevice};
use crate::routing::table::{RoutingTable, SLOT_COUNT};

verus! {

broadcast use vstd::std_specs::hash::group_hash_axioms;

/// Why a command was refused.
#[derive(Debug, Clone, Copy, PartialEq, Eq, Structural)]
pub enum CommandError {
    /// No detected device has this handle.
    NoDevice(u64),
    /// The slot index is outside 0-3.
    SlotOutOfRange(usize),
}

/// The first device in `s` with handle `h`, if any.
pub open spec fn first_device_index(s: Seq<PhysicalDevice>, h: u64) -> Option<int>
    decreases s.len(),
{
    if s.len() == 0 {
        None
    } else {
        match first_device_index(s.drop_last(), h) {
            Some(j) => Some(j),
            None => if s.last().handle == h {
                Some(s.len() - 1)
            } else {
                None
            },
        }
    }
}

/// A device with its player name replaced.
pub open spec fn renamed(d: PhysicalDevice, name: String) -> PhysicalDevice {
    PhysicalDevice { handle: d.handle, device_path: d.device_path, player_name: Some(name) }
}

/// What virtual controller slot `entry` is fed: the latest state of the
/// routed device, or the neutral state when the slot is empty or the device
/// has reported nothing yet.
pub open spec fn slot_state(entry: Option<u64>, states: Map<u64, GamepadState>) -> GamepadState {
    match entry {
        Some(h) => if states.contains_key(h) {
            states[h]
        } else {
            neutral_state()
        },
        None => neutral_state(),
    }
}

/// Assign a human-readable player name to the first device with `handle`;
/// refused when no device has that handle.
pub fn assign_player(devices: &mut Vec<PhysicalDevice>, handle: u64, name: String) -> (r: Result<
    (),
    CommandError,
>)
    ensures
        r is Ok <==> exists|i: int|
            0 <= i < old(devices)@.len() && #[trigger] old(devices)@[i].handle == handle,
        r is Ok ==> exists|i: int|
            0 <= i < old(devices)@.len() && #[trigger] old(devices)@[i].handle == handle
                && (forall|j: int| 0 <= j < i ==> #[trigger] old(devices)@[j].handle != handle)
                && final(devices)@[i].handle == handle
                && final(devices)@[i].player_name == Some(name)
                && final(devices)@[i].device_path == old(devices)@[i].device_path
                && final(devices)@.len() == old(devices)@.len()
                && forall|k: int| 0 <= k < old(devices)@.len() && k != i
                    ==> #[trigger] final(devices)@[k] == old(devices)@[k],
        r is Err ==> final(devices)@ == old(devices)@ && r == Err::<(), CommandError>(
            CommandError::NoDevice(handle),
        ),
        match first_device_index(old(devices)@, handle) {
            Some(i) => r is Ok && final(devices)@ == old(devices)@.update(
                i,
                renamed(old(devices)@[i], name),
            ),
            None => r == Err::<(), CommandError>(CommandError::NoDevice(handle)) && final(devices)@
                == old(devices)@,
        },
{
    let mut i: usize = 0;
    while i < devices.len()
        invariant
            i <= devices.len(),
            devices@ == old(devices)@,
            first_device_index(devices@.take(i as int), handle) is None,
        decreases devices.len() - i,
    {
        assert(devices@.take(i + 1).drop_last() =~= devices@.take(i as int));
        if devices[i].handle == handle {
            proof {
                lemma_first_device_index_prefix(devices@, handle, i as int + 1);
                lemma_first_device_index(devices@, handle);
            }
            let ghost before = devices@;
            devices[i].player_name = Some(name);
            assert(devices@ =~= before.update(i as int, renamed(before[i as int], name)));
            return Ok(());
        }
        i += 1;
    }
    assert(devices@.take(devices@.len() as int) =~= devices@);
    proof {
        lemma_first_device_index(devices@, handle);
    }
    Err(CommandError::NoDevice(handle))
}

/// `first_device_index` finds a device exactly when some device in the list,
/// at any index, has the handle, and then it is the first such device.
pub proof fn lemma_first_device_index(s: Seq<PhysicalDevice>, h: u64)
    ensures
        first_device_index(s, h) is Some <==> exists|i: int|
            0 <= i < s.len() && #[trigger] s[i].handle == h,
        first_device_index(s, h) matches Some(i) ==> 0 <= i < s.len() && s[i].handle == h
            && forall|j: int| 0 <= j < i ==> #[trigger] s[j].handle != h,
    decreases s.len(),
{
    if s.len() > 0 {
        let t = s.drop_last();
        lemma_first_device_index(t, h);
        if first_device_index(t, h) is None && s.last().handle != h {
            assert forall|i: int| 0 <= i < s.len() implies #[trigger] s[i].handle != h by {
                if i < s.len() - 1 {
                    assert(t[i] == s[i]);
                }
            }
        }
        if first_device_index(t, h) is Some {
            let w = choose|i: int| 0 <= i < t.len() && #[trigger] t[i].handle == h;
            assert(s[w] == t[w]);
            let i = first_device_index(t, h)->0;
            assert forall|j: int| 0 <= j < i implies #[trigger] s[j].handle != h by {
                assert(s[j] == t[j]);
            }
            assert(s[i] == t[i]);
        } else if s.last().handle == h {
            assert forall|j: int| 0 <= j < s.len() - 1 implies #[trigger] s[j].handle != h by {
                assert(s[j] == t[j]);
                if t[j].handle == h {
                    assert(exists|i: int| 0 <= i < t.len() && #[trigger] t[i].handle == h);
                }
            }
        }
    }
}

/// A slot is fed exactly the stored state of its routed device, every field
/// included; an empty slot or a device with no state yet gets the neutral
/// state.
pub proof fn lemma_slot_state(entry: Option<u64>, states: Map<u64, GamepadState>)
    ensures
        entry is Some && states.contains_key(entry->0) ==> slot_state(entry, states) == states[entry->0],
        !(entry is Some && states.contains_key(entry->0)) ==> slot_state(entry, states)
            == neutral_state(),
{
}

/// A first match in a prefix is the first match in the whole sequence.
proof fn lemma_first_device_index_prefix(s: Seq<PhysicalDevice>, h: u64, n: int)
    requires
        0 <= n <= s.len(),
        first_device_index(s.take(n), h) is Some,
    ensures
        first_device_index(s, h) == first_device_index(s.take(n), h),
    decreases s.len() - n,
{
    if n < s.len() {
        assert(s.take(n + 1).drop_last() =~= s.take(n));
        lemma_first_device_index_prefix(s, h, n + 1);
    } else {
        assert(s.take(n) =~= s);
    }
}

/// Route a physical device into an active game slot (0-3); refused, leaving
/// the table as it was, for any other slot index.
pub fn assign_slot(routing: &mut RoutingTable, slot: usize, handle: u64) -> (r: Result<
    (),
    CommandError,
>)
    ensures
        slot < SLOT_COUNT ==> r is Ok && final(routing)@ == old(routing)@.update(
            slot as int,
            Some(handle),
        ),
        slot >= SLOT_COUNT ==> r == Err::<(), CommandError>(CommandError::SlotOutOfRange(slot))
            && final(routing)@ == old(routing)@,
{
    if slot >= SLOT_COUNT {
        return Err(CommandError::SlotOutOfRange(slot));
    }
    routing.assign_slot(slot, handle);
    Ok(())
}

/// Mark forwarding as running.  Returns whether the forwarding loop must be
/// started: only when it was not running already.
pub fn start_forwarding(forwarding: &mut bool) -> (spawn: bool)
    ensures
        spawn == !*old(forwarding),
        *final(forwarding),
{
    if *forwarding {
        return false;
    }
    *forwarding = true;
    true
}

/// The states to push to the four virtual controllers: slot `i` gets the
/// state of the device routed to it.
pub fn forwarding_frame(table: &RoutingTable, states: &HashMap<u64, GamepadState>) -> (r: Vec<
    GamepadState,
>)
    ensures
        r@.len() == SLOT_COUNT,
        forall|i: int| 0 <= i < SLOT_COUNT ==> #[trigger] r@[i] == slot_state(table@[i], states@),
        forall|i: int|
            0 <= i < SLOT_COUNT ==> (table.slots@[i] is Some && states@.contains_key(table.slots@[i]->0)
                ==> #[trigger] r@[i] == states@[table.slots@[i]->0]),
        forall|i: int|
            0 <= i < SLOT_COUNT ==> (!(table.slots@[i] is Some && states@.contains_key(table.slots@[i]->0))
                ==> #[trigger] r@[i] == neutral_state()),
{
    let mut r: Vec<GamepadState> = Vec::new();
    let mut i: usize = 0;
    while i < SLOT_COUNT
        invariant
            i <= SLOT_COUNT,
            r@.len() == i,
            forall|k: int| 0 <= k < i ==> #[trigger] r@[k] == slot_state(table@[k], states@),
        decreases SLOT_COUNT - i,
    {
        let s = match table.slots[i] {
            Some(h) => match states.get(&h) {
                Some(st) => *st,
                None => GamepadState::default(),
            },
            None => GamepadState::default(),
        };
        r.push(s);
        i += 1;
    }
    r
}

/// One tick of the forwarding loop: stop (`None`) once forwarding has been
/// switched off, else the frame to push.
pub fn forwarding_tick(running: bool, table: &RoutingTable, states: &HashMap<u64, GamepadState>) -> (r:
    Option<Vec<GamepadState>>)
    ensures
        r is None <==> !running,
        r matches Some(frame) ==> frame@.len() == SLOT_COUNT && forall|i: int|
            0 <= i < SLOT_COUNT ==> #[trigger] frame@[i] == slot_state(table@[i], states@),
        r matches Some(frame) ==> forall|i: int|
            0 <= i < SLOT_COUNT ==> (table.slots@[i] is Some && states@.contains_key(table.slots@[i]->0)
                ==> #[trigger] frame@[i] == states@[table.slots@[i]->0]),
        r matches Some(frame) ==> forall|i: int|
            0 <= i < SLOT_COUNT ==> (!(table.slots@[i] is Some && states@.contains_key(table.slots@[i]->0))
                ==> #[trigger] frame@[i] == neutral_state()),
{
    if !running {
        return None;
    }
    Some(forwarding_frame(table, states))
}

} // verus!
