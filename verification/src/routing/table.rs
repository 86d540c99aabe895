//! Routing table: maps physical device handles to virtual Xbox slots.

use vstd::prelude::*;

verus! {

/// Number of active game slots (virtual Xbox controllers 1-4).
pub const SLOT_COUNT: usize = 4;

/// `slots[0..3]` are the four active game slots; `bench` holds the one
/// benched player's device handle.
#[derive(Debug, Clone, Copy)]
pub struct RoutingTable {
    pub slots: [Option<u64>; 4],
    pub bench: Option<u64>,
}

impl View for RoutingTable {
    type V = Seq<Option<u64>>;

    /// The five positions of the table in search order: the four slots at
    /// indices 0-3, then the bench at index 4.
    open spec fn view(&self) -> Seq<Option<u64>> {
        self.slots@.push(self.bench)
    }
}

/// Index of the bench in a table's view.
pub open spec fn bench_index() -> int {
    4
}

/// `p` is the first position (slots first, then bench) that holds `h`.
pub open spec fn is_first_position(s: Seq<Option<u64>>, h: u64, p: int) -> bool {
    &&& 0 <= p < s.len()
    &&& s[p] == Some(h)
    &&& forall|q: int| 0 <= q < p ==> s[q] != Some(h)
}

/// Where a lookup of `h` lands: its first position, if it occurs at all.
pub open spec fn position_of(s: Seq<Option<u64>>, h: u64) -> Option<int> {
    if exists|p: int| is_first_position(s, h, p) {
        Some(choose|p: int| is_first_position(s, h, p))
    } else {
        None
    }
}

/// The table after swapping `a` and `b`: when both are found, the entries at
/// their positions trade places; otherwise nothing changes.
pub open spec fn swap_entries(s: Seq<Option<u64>>, a: u64, b: u64) -> Seq<Option<u64>> {
    match (position_of(s, a), position_of(s, b)) {
        (Some(p), Some(q)) => s.update(p, s[q]).update(q, s[p]),
        _ => s,
    }
}

/// The table after every reference to `h` is cleared.
pub open spec fn without_handle(s: Seq<Option<u64>>, h: u64) -> Seq<Option<u64>> {
    s.map_values(|e: Option<u64>| if e == Some(h) { None } else { e })
}

/// No device handle occupies two positions.
pub open spec fn distinct_handles(s: Seq<Option<u64>>) -> bool {
    forall|i: int, j: int|
        0 <= i < s.len() && 0 <= j < s.len() && i != j && s[i] is Some ==> s[i] != s[j]
}

/// The position `position_of` names is the first one holding `h`.
pub proof fn lemma_position_of_first(s: Seq<Option<u64>>, h: u64, p: int)
    requires
        is_first_position(s, h, p),
    ensures
        position_of(s, h) == Some(p),
{
    let c = choose|q: int| is_first_position(s, h, q);
    assert(is_first_position(s, h, c));
    if c < p {
        assert(s[c] != Some(h));
    } else if c > p {
        assert(s[p] != Some(h));
    }
}

/// A handle that occurs nowhere has no position.
pub proof fn lemma_position_of_absent(s: Seq<Option<u64>>, h: u64)
    requires
        forall|q: int| 0 <= q < s.len() ==> s[q] != Some(h),
    ensures
        position_of(s, h) is None,
{
}

/// A handle that occurs somewhere has a position.
pub proof fn lemma_position_of_present(s: Seq<Option<u64>>, h: u64, q: int)
    requires
        0 <= q < s.len(),
        s[q] == Some(h),
    ensures
        position_of(s, h) is Some,
    decreases q,
{
    if exists|k: int| 0 <= k < q && s[k] == Some(h) {
        let k = choose|k: int| 0 <= k < q && s[k] == Some(h);
        lemma_position_of_present(s, h, k);
    } else {
        assert(is_first_position(s, h, q));
    }
}

/// Where a lookup landed, as a position in the table.
pub enum Position {
    Slot(usize),
    Bench,
}

impl Position {
    /// The index of this position in a table's view.
    pub open spec fn index(self) -> int {
        match self {
            Position::Slot(i) => i as int,
            Position::Bench => bench_index(),
        }
    }
}

impl Default for RoutingTable {
    /// The empty table: every slot and the bench unassigned.
    fn default() -> (t: Self)
        ensures
            t@ == Seq::new(5, |i: int| None::<u64>),
    {
        let t = RoutingTable { slots: [None, None, None, None], bench: None };
        assert(t@ =~= Seq::new(5, |i: int| None::<u64>));
        t
    }
}

impl RoutingTable {
    /// Swap two device handles anywhere in the table (slot with slot, slot
    /// with bench).  If a handle is not found, this is a no-op.
    pub fn swap(&mut self, handle_a: u64, handle_b: u64)
        ensures
            final(self)@ == swap_entries(old(self)@, handle_a, handle_b),
            position_of(old(self)@, handle_a) is None || position_of(old(self)@, handle_b) is None
                ==> final(self)@ == old(self)@,
    {
        let pos_a = self.find_position(handle_a);
        let pos_b = self.find_position(handle_b);
        let ghost s = self@;
        match (pos_a, pos_b) {
            (Some(Position::Slot(i)), Some(Position::Slot(j))) => {
                let tmp = self.slots[i];
                let other = self.slots[j];
                self.slots.set(i, other);
                self.slots.set(j, tmp);
                assert(self@ =~= s.update(i as int, s[j as int]).update(j as int, s[i as int]));
            },
            (Some(Position::Slot(i)), Some(Position::Bench)) => {
                let tmp = self.slots[i];
                let bench = self.bench;
                self.slots.set(i, bench);
                self.bench = tmp;
                assert(self@ =~= s.update(i as int, s[4]).update(4, s[i as int]));
            },
            (Some(Position::Bench), Some(Position::Slot(j))) => {
                let tmp = self.bench;
                let other = self.slots[j];
                self.bench = other;
                self.slots.set(j, tmp);
                assert(self@ =~= s.update(4, s[j as int]).update(j as int, s[4]));
            },
            (Some(Position::Bench), Some(Position::Bench)) => {
                assert(s =~= s.update(4, s[4]).update(4, s[4]));
            },
            _ => {},
        }
    }

    /// Assign a device handle to a game slot (0-3).
    pub fn assign_slot(&mut self, slot: usize, handle: u64)
        requires
            slot < SLOT_COUNT,
        ensures
            final(self)@ == old(self)@.update(slot as int, Some(handle)),
    {
        let ghost s = self@;
        self.slots.set(slot, Some(handle));
        assert(self@ =~= s.update(slot as int, Some(handle)));
    }

    /// Assign a device handle to the bench.
    pub fn assign_bench(&mut self, handle: u64)
        ensures
            final(self)@ == old(self)@.update(bench_index(), Some(handle)),
    {
        let ghost s = self@;
        self.bench = Some(handle);
        assert(self@ =~= s.update(bench_index(), Some(handle)));
    }

    /// Remove all references to a device handle (called on disconnect).
    pub fn remove_handle(&mut self, handle: u64)
        ensures
            final(self)@ == without_handle(old(self)@, handle),
            !final(self)@.contains(Some(handle)),
            final(self)@.len() == old(self)@.len(),
            forall|i: int|
                0 <= i < old(self)@.len() && old(self)@[i] != Some(handle) ==> #[trigger] final(self)@[i] == old(self)@[i],
            forall|i: int|
                0 <= i < old(self)@.len() && old(self)@[i] == Some(handle) ==> #[trigger] final(self)@[i] is None,
    {
        let ghost s = self@;
        let mut i: usize = 0;
        while i < SLOT_COUNT
            invariant
                0 <= i <= SLOT_COUNT,
                self.bench == s[4],
                self.slots@.len() == 4,
                s.len() == 5,
                forall|q: int| 0 <= q < i ==> self.slots@[q] == without_handle(s, handle)[q],
                forall|q: int| i <= q < 4 ==> self.slots@[q] == s[q],
            decreases SLOT_COUNT - i,
        {
            let occupied = match self.slots[i] {
                Some(h) => h == handle,
                None => false,
            };
            if occupied {
                self.slots.set(i, None);
            }
            i += 1;
        }
        let on_bench = match self.bench {
            Some(h) => h == handle,
            None => false,
        };
        if on_bench {
            self.bench = None;
        }
        assert(self@ =~= without_handle(s, handle));
    }

    /// The first position (slots in order, then the bench) holding `handle`.
    fn find_position(&self, handle: u64) -> (r: Option<Position>)
        ensures
            match r {
                Some(pos) => position_of(self@, handle) == Some(pos.index()) && match pos {
                    Position::Slot(i) => i < SLOT_COUNT,
                    Position::Bench => true,
                },
                None => position_of(self@, handle) is None,
            },
    {
        let mut i: usize = 0;
        while i < SLOT_COUNT
            invariant
                0 <= i <= SLOT_COUNT,
                self@.len() == 5,
                forall|q: int| 0 <= q < i ==> self@[q] != Some(handle),
            decreases SLOT_COUNT - i,
        {
            let found = match self.slots[i] {
                Some(h) => h == handle,
                None => false,
            };
            if found {
                proof {
                    lemma_position_of_first(self@, handle, i as int);
                }
                return Some(Position::Slot(i));
            }
            i += 1;
        }
        let on_bench = match self.bench {
            Some(h) => h == handle,
            None => false,
        };
        if on_bench {
            proof {
                lemma_position_of_first(self@, handle, 4);
            }
            return Some(Position::Bench);
        }
        None
    }
}

} // verus!
