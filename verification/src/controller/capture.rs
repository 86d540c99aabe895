//! What capture computes: which device each XInput user index stands for,
//! how polled reports update the per-device state map, and how a fresh
//! enumeration keeps the player names already assigned.

use std::collections::HashMap;
use vstd::prelude::*;

use crate::controller::{
    name_view, state_of_report, DeviceInfo, GamepadState, PhysicalDevice, XInputGamepad,
};

verus! {

broadcast use vstd::std_specs::hash::group_hash_axioms;

/// XInput serves at most four user indices (0-3).
pub const XINPUT_USER_COUNT: usize = 4;

/// The device handle polled under each XInput user index: user index `i`
/// stands for the `i`-th enumerated device, for the first four devices.
pub open spec fn xinput_handle_order(devices: Seq<PhysicalDevice>) -> Seq<u64> {
    let n = if devices.len() < XINPUT_USER_COUNT {
        devices.len() as int
    } else {
        XINPUT_USER_COUNT as int
    };
    Seq::new(n as nat, |i: int| devices[i].handle)
}

/// The state map after recording the first `n` poll results in order: a
/// successful poll stores its state under its handle, a failed one changes
/// nothing.
pub open spec fn polled_states(
    m: Map<u64, GamepadState>,
    handles: Seq<u64>,
    polls: Seq<Option<XInputGamepad>>,
    n: int,
) -> Map<u64, GamepadState>
    decreases n,
{
    if n <= 0 {
        m
    } else {
        let prev = polled_states(m, handles, polls, n - 1);
        match polls[n - 1] {
            Some(gp) => prev.insert(handles[n - 1], state_of_report(gp)),
            None => prev,
        }
    }
}

/// No successful poll among the first `min(len)` was for handle `k`.
pub open spec fn untouched_by_polls(handles: Seq<u64>, polls: Seq<Option<XInputGamepad>>, k: u64) -> bool {
    forall|i: int|
        0 <= i < handles.len() && i < polls.len() ==> !(#[trigger] polls[i] is Some && handles[i] == k)
}

/// The last device in `s` with handle `h`, if any.
pub open spec fn last_index_with_handle(s: Seq<PhysicalDevice>, h: u64) -> Option<int>
    decreases s.len(),
{
    if s.len() == 0 {
        None
    } else if s.last().handle == h {
        Some(s.len() - 1)
    } else {
        last_index_with_handle(s.drop_last(), h)
    }
}

/// A freshly enumerated device after merging: it keeps its handle and path,
/// and takes the name of the last known device with its handle, if any.
pub open spec fn merged_device(existing: Seq<PhysicalDevice>, d: PhysicalDevice) -> DeviceInfo {
    DeviceInfo {
        handle: d.handle,
        device_path: d.device_path@,
        player_name: match last_index_with_handle(existing, d.handle) {
            Some(j) => name_view(existing[j].player_name),
            None => name_view(d.player_name),
        },
    }
}

/// The handles to poll, in XInput user-index order.
pub fn xinput_handles(devices: &Vec<PhysicalDevice>) -> (r: Vec<u64>)
    ensures
        r@ == xinput_handle_order(devices@),
        r@.len() == if devices@.len() < 4 {
            devices@.len()
        } else {
            4
        },
        forall|i: int| 0 <= i < r@.len() ==> #[trigger] r@[i] == devices@[i].handle,
{
    let mut r: Vec<u64> = Vec::new();
    let mut i: usize = 0;
    while i < devices.len() && i < XINPUT_USER_COUNT
        invariant
            i <= devices.len(),
            i <= XINPUT_USER_COUNT,
            r@.len() == i,
            forall|k: int| 0 <= k < i ==> r@[k] == devices@[k].handle,
        decreases XINPUT_USER_COUNT - i,
    {
        r.push(devices[i].handle);
        i += 1;
    }
    assert(r@ =~= xinput_handle_order(devices@));
    r
}

/// Record one round of XInput polling: `polls[i]` is what user index `i`
/// returned (`None` when the poll failed) for device `handles[i]`.
pub fn record_xinput_polls(
    states: &mut HashMap<u64, GamepadState>,
    handles: &Vec<u64>,
    polls: &Vec<Option<XInputGamepad>>,
)
    ensures
        final(states)@ == polled_states(
            old(states)@,
            handles@,
            polls@,
            if handles.len() < polls.len() {
                handles.len() as int
            } else {
                polls.len() as int
            },
        ),
        forall|i: int|
            0 <= i < handles.len() && i < polls.len() && #[trigger] polls@[i] is Some && (forall|j: int|
                i < j < handles.len() && j < polls.len() ==> !(polls@[j] is Some && handles@[j]
                    == handles@[i])) ==> final(states)@.contains_key(handles@[i])
                && final(states)@[handles@[i]] == state_of_report(polls@[i]->0),
        forall|k: u64|
            #[trigger] untouched_by_polls(handles@, polls@, k) ==> (final(states)@.contains_key(k)
                <==> old(states)@.contains_key(k)),
        forall|k: u64|
            untouched_by_polls(handles@, polls@, k) && old(states)@.contains_key(k)
                ==> #[trigger] final(states)@[k] == old(states)@[k],
{
    let ghost start = states@;
    let ghost n: int = if handles.len() < polls.len() {
        handles.len() as int
    } else {
        polls.len() as int
    };
    let mut i: usize = 0;
    while i < handles.len() && i < polls.len()
        invariant
            i <= handles.len(),
            i <= polls.len(),
            states@ == polled_states(start, handles@, polls@, i as int),
        decreases handles.len() - i,
    {
        match &polls[i] {
            Some(gp) => {
                let s = GamepadState::from_xinput(gp);
                states.insert(handles[i], s);
            },
            None => {},
        }
        i += 1;
    }
    proof {
        assert forall|i: int|
            0 <= i < handles.len() && i < polls.len() && #[trigger] polls@[i] is Some && (forall|j: int|
                i < j < handles.len() && j < polls.len() ==> !(polls@[j] is Some && handles@[j]
                    == handles@[i])) implies states@.contains_key(handles@[i])
            && states@[handles@[i]] == state_of_report(polls@[i]->0) by {
            lemma_polled_states_last_poll(start, handles@, polls@, n, i);
        }
        assert forall|k: u64| #[trigger] untouched_by_polls(handles@, polls@, k) implies (states@.contains_key(k)
            <==> old(states)@.contains_key(k)) && (old(states)@.contains_key(k) ==> states@[k] == old(
            states,
        )@[k]) by {
            lemma_polled_states_untouched(start, handles@, polls@, n, k);
        }
    }
}

/// An exact copy of an optional name.
fn copy_name(name: &Option<String>) -> (r: Option<String>)
    ensures
        r == *name,
{
    match name {
        Some(s) => Some(s.clone()),
        None => None,
    }
}

/// The name of the last device in `existing` with `handle`, if there is one.
fn known_name(existing: &Vec<PhysicalDevice>, handle: u64) -> (r: Option<Option<String>>)
    ensures
        match last_index_with_handle(existing@, handle) {
            Some(j) => r == Some(existing@[j].player_name),
            None => r is None,
        },
{
    let mut j: usize = existing.len();
    assert(existing@.take(j as int) =~= existing@);
    while j > 0
        invariant
            j <= existing.len(),
            last_index_with_handle(existing@, handle) == last_index_with_handle(
                existing@.take(j as int),
                handle,
            ),
        decreases j,
    {
        let ghost prefix = existing@.take(j as int);
        assert(prefix.drop_last() =~= existing@.take(j - 1));
        if existing[j - 1].handle == handle {
            return Some(copy_name(&existing[j - 1].player_name));
        }
        j -= 1;
    }
    None
}

/// Merge a fresh enumeration with the known device list: every fresh device
/// keeps its handle and path, and a handle that was already known keeps the
/// player name it had.
pub fn merge_device_list(existing: &Vec<PhysicalDevice>, fresh: Vec<PhysicalDevice>) -> (r: Vec<
    PhysicalDevice,
>)
    ensures
        r@.len() == fresh@.len(),
        forall|i: int| 0 <= i < r@.len() ==> #[trigger] r@[i]@ == merged_device(existing@, fresh@[i]),
        forall|i: int|
            0 <= i < r@.len() ==> #[trigger] r@[i].handle == fresh@[i].handle
                && r@[i].device_path@ == fresh@[i].device_path@,
        forall|i: int, j: int|
            0 <= i < r@.len() && 0 <= j < existing@.len() && existing@[j].handle == fresh@[i].handle
                && (forall|k: int| j < k < existing@.len() ==> existing@[k].handle != fresh@[i].handle)
                ==> name_view(#[trigger] r@[i].player_name) == name_view(
                #[trigger] existing@[j].player_name,
            ),
        forall|i: int|
            0 <= i < r@.len() && (forall|j: int|
                0 <= j < existing@.len() ==> existing@[j].handle != fresh@[i].handle) ==> name_view(
                #[trigger] r@[i].player_name,
            ) == name_view(fresh@[i].player_name),
{
    let mut r: Vec<PhysicalDevice> = Vec::new();
    let mut i: usize = 0;
    while i < fresh.len()
        invariant
            i <= fresh.len(),
            r@.len() == i,
            forall|k: int| 0 <= k < i ==> #[trigger] r@[k]@ == merged_device(existing@, fresh@[k]),
        decreases fresh.len() - i,
    {
        let d = &fresh[i];
        let name = match known_name(existing, d.handle) {
            Some(n) => n,
            None => copy_name(&d.player_name),
        };
        r.push(PhysicalDevice { handle: d.handle, device_path: d.device_path.clone(), player_name: name });
        i += 1;
    }
    proof {
        assert forall|i: int|
            0 <= i < r@.len() implies #[trigger] r@[i].handle == fresh@[i].handle
            && r@[i].device_path@ == fresh@[i].device_path@ by {
            assert(r@[i]@ == merged_device(existing@, fresh@[i]));
        }
        assert forall|i: int, j: int|
            0 <= i < r@.len() && 0 <= j < existing@.len() && existing@[j].handle == fresh@[i].handle
                && (forall|k: int| j < k < existing@.len() ==> existing@[k].handle != fresh@[i].handle)
                implies name_view(#[trigger] r@[i].player_name) == name_view(
            #[trigger] existing@[j].player_name,
        ) by {
            lemma_last_index_with_handle(existing@, fresh@[i].handle);
            assert(r@[i]@ == merged_device(existing@, fresh@[i]));
        }
        assert forall|i: int|
            0 <= i < r@.len() && (forall|j: int|
                0 <= j < existing@.len() ==> existing@[j].handle != fresh@[i].handle) implies name_view(
            #[trigger] r@[i].player_name,
        ) == name_view(fresh@[i].player_name) by {
            lemma_last_index_with_handle(existing@, fresh@[i].handle);
            assert(r@[i]@ == merged_device(existing@, fresh@[i]));
        }
    }
    r
}

/// `last_index_with_handle` finds a device exactly when some device in the
/// list, at any index, has the handle, and then it is the last such device.
pub proof fn lemma_last_index_with_handle(s: Seq<PhysicalDevice>, h: u64)
    ensures
        last_index_with_handle(s, h) is Some <==> exists|j: int|
            0 <= j < s.len() && #[trigger] s[j].handle == h,
        last_index_with_handle(s, h) matches Some(j) ==> 0 <= j < s.len() && s[j].handle == h
            && forall|k: int| j < k < s.len() ==> #[trigger] s[k].handle != h,
    decreases s.len(),
{
    if s.len() > 0 && s.last().handle != h {
        let t = s.drop_last();
        lemma_last_index_with_handle(t, h);
        if last_index_with_handle(t, h) is None {
            assert forall|j: int| 0 <= j < s.len() implies #[trigger] s[j].handle != h by {
                if j < s.len() - 1 {
                    assert(s[j] == t[j]);
                    if t[j].handle == h {
                        assert(exists|m: int| 0 <= m < t.len() && #[trigger] t[m].handle == h);
                    }
                }
            }
        } else {
            let j = last_index_with_handle(t, h)->0;
            assert(s[j] == t[j]);
            assert forall|k: int| j < k < s.len() implies #[trigger] s[k].handle != h by {
                if k < s.len() - 1 {
                    assert(s[k] == t[k]);
                }
            }
        }
    }
}

/// After recording the first `n` polls, a handle whose last successful poll
/// among them is index `i` holds the state that poll read.
pub proof fn lemma_polled_states_last_poll(
    m: Map<u64, GamepadState>,
    handles: Seq<u64>,
    polls: Seq<Option<XInputGamepad>>,
    n: int,
    i: int,
)
    requires
        0 <= i < n <= handles.len(),
        n <= polls.len(),
        polls[i] is Some,
        forall|j: int| i < j < n ==> !(#[trigger] polls[j] is Some && handles[j] == handles[i]),
    ensures
        polled_states(m, handles, polls, n).contains_key(handles[i]),
        polled_states(m, handles, polls, n)[handles[i]] == state_of_report(polls[i]->0),
    decreases n,
{
    if i < n - 1 {
        assert(!(polls[n - 1] is Some && handles[n - 1] == handles[i]));
        lemma_polled_states_last_poll(m, handles, polls, n - 1, i);
    }
}

/// After recording the first `n` polls, a handle that no successful poll
/// among them touched keeps what it had, or stays absent.
pub proof fn lemma_polled_states_untouched(
    m: Map<u64, GamepadState>,
    handles: Seq<u64>,
    polls: Seq<Option<XInputGamepad>>,
    n: int,
    k: u64,
)
    requires
        0 <= n <= handles.len(),
        n <= polls.len(),
        forall|i: int| 0 <= i < n ==> !(#[trigger] polls[i] is Some && handles[i] == k),
    ensures
        polled_states(m, handles, polls, n).contains_key(k) == m.contains_key(k),
        m.contains_key(k) ==> polled_states(m, handles, polls, n)[k] == m[k],
    decreases n,
{
    if n > 0 {
        assert(!(polls[n - 1] is Some && handles[n - 1] == k));
        lemma_polled_states_untouched(m, handles, polls, n - 1, k);
    }
}

} // verus!
