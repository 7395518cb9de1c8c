//! A slot arena: values are addressed by the slot that they were put in, and a vacated slot is
//! reused before the arena grows.

use vstd::prelude::*;

verus! {

/// The place of one value in an [`Arena`].
#[derive(Clone, Copy, Debug, PartialEq, Eq, Structural)]
pub struct SlotId {
    index: usize,
}

impl SlotId {
    /// The position of the slot in the arena.
    pub closed spec fn index(self) -> int {
        self.index as int
    }
}

/// The name of the slot at position `i`.
pub closed spec fn slot_named(i: int) -> SlotId {
    SlotId { index: i as usize }
}

/// A slot is told by its position alone.
pub proof fn slot_is_its_position(i: int)
    requires
        0 <= i <= usize::MAX,
    ensures
        slot_named(i).index() == i,
        forall|id: SlotId| #[trigger] id.index() == i ==> id == slot_named(i),
{
}

/// Slots at the same position are the same slot.
pub proof fn position_tells_the_slot(a: SlotId, b: SlotId)
    ensures
        0 <= a.index(),
        a.index() == b.index() ==> a == b,
{
}

/// What `slots` holds at position `i`, with every position past the end vacant.
pub open spec fn slot_at<V>(slots: Seq<Option<V>>, i: int) -> Option<V> {
    if 0 <= i < slots.len() {
        slots[i]
    } else {
        None
    }
}

/// `slots` with `v` at position `i`, which is at most one past the end.
pub open spec fn place<V>(slots: Seq<Option<V>>, i: int, v: V) -> Seq<Option<V>> {
    if i < slots.len() {
        slots.update(i, Some(v))
    } else {
        slots.push(Some(v))
    }
}

/// `slots` with nothing at position `i`.
pub open spec fn vacate<V>(slots: Seq<Option<V>>, i: int) -> Seq<Option<V>> {
    if 0 <= i < slots.len() {
        slots.update(i, None)
    } else {
        slots
    }
}

/// Whether a position of `slots` is vacant.
pub open spec fn has_vacancy<V>(slots: Seq<Option<V>>) -> bool {
    exists|i: int| 0 <= i < slots.len() && (#[trigger] slots[i]) is None
}

/// The values in `slots`, in slot order.
pub open spec fn occupants<V>(slots: Seq<Option<V>>) -> Seq<V>
    decreases slots.len(),
{
    if slots.len() == 0 {
        Seq::empty()
    } else {
        match slots.last() {
            Some(v) => occupants(slots.drop_last()).push(v),
            None => occupants(slots.drop_last()),
        }
    }
}

/// How occupying one more vacant position changes the number of occupants.
proof fn lemma_place_adds_one<V>(slots: Seq<Option<V>>, i: int, v: V)
    requires
        0 <= i <= slots.len(),
        slot_at(slots, i) is None,
    ensures
        occupants(place(slots, i, v)).len() == occupants(slots).len() + 1,
    decreases slots.len(),
{
    if i == slots.len() {
        assert(slots.push(Some(v)).drop_last() == slots);
    } else if i == slots.len() - 1 {
        assert(slots.update(i, Some(v)).drop_last() == slots.drop_last());
    } else {
        lemma_place_adds_one(slots.drop_last(), i, v);
        assert(slots.update(i, Some(v)).drop_last() == slots.drop_last().update(i, Some(v)));
    }
}

/// The number of occupants is bounded by the number of slots. It is zero only where all slots are
/// vacant, and the number of slots only where all are occupied.
proof fn lemma_occupants_bound<V>(slots: Seq<Option<V>>)
    ensures
        occupants(slots).len() <= slots.len(),
        occupants(slots).len() == 0 <==> forall|i: int|
            0 <= i < slots.len() ==> (#[trigger] slots[i]) is None,
        occupants(slots).len() == slots.len() ==> forall|i: int|
            0 <= i < slots.len() ==> (#[trigger] slots[i]) is Some,
    decreases slots.len(),
{
    if slots.len() > 0 {
        let rest = slots.drop_last();
        lemma_occupants_bound(rest);
        assert forall|i: int| 0 <= i < slots.len() - 1 implies rest[i] == #[trigger] slots[i] by {}
        if occupants(slots).len() == slots.len() {
            assert forall|i: int| 0 <= i < slots.len() implies (#[trigger] slots[i]) is Some by {
                if i < slots.len() - 1 {
                    assert(rest[i] is Some);
                }
            }
        }
        if occupants(slots).len() == 0 {
            assert forall|i: int| 0 <= i < slots.len() implies (#[trigger] slots[i]) is None by {
                if i < slots.len() - 1 {
                    assert(rest[i] is None);
                }
            }
        } else if slots.last() is None {
            let i = choose|i: int| 0 <= i < rest.len() && (#[trigger] rest[i]) is Some;
            assert(slots[i] is Some);
        } else {
            assert(slots[slots.len() - 1] is Some);
        }
    }
}

/// What is put at a position is there afterwards, what is taken from one is not, and every other
/// position keeps what it held.
pub proof fn one_position_changes_at_a_time<V>(slots: Seq<Option<V>>, i: int, v: V, j: int)
    requires
        0 <= i <= slots.len(),
    ensures
        slot_at(place(slots, i, v), i) == Some(v),
        slot_at(vacate(slots, i), i) is None,
        j != i ==> slot_at(place(slots, i, v), j) == slot_at(slots, j),
        j != i ==> slot_at(vacate(slots, i), j) == slot_at(slots, j),
        0 <= j < slots.len() ==> slot_at(slots, j) == slots[j],
        !(0 <= j < slots.len()) ==> slot_at(slots, j) is None,
        place(slots, i, v).len() >= slots.len(),
        i < slots.len() ==> place(slots, i, v).len() == slots.len(),
        i == slots.len() ==> place(slots, i, v).len() == slots.len() + 1,
        vacate(slots, i).len() == slots.len(),
{
}

/// A position is vacant exactly where there are fewer values than positions.
pub proof fn a_vacancy_is_a_missing_value<V>(slots: Seq<Option<V>>)
    ensures
        has_vacancy(slots) <==> occupants(slots).len() < slots.len(),
    decreases slots.len(),
{
    lemma_occupants_bound(slots);
    if slots.len() > 0 {
        let rest = slots.drop_last();
        a_vacancy_is_a_missing_value(rest);
        lemma_occupants_bound(rest);
        if !has_vacancy(slots) {
            assert forall|i: int| 0 <= i < rest.len() implies (#[trigger] rest[i]) is Some by {
                assert(slots[i] is Some);
            }
            assert(slots[slots.len() - 1] is Some);
        } else {
            let i = choose|i: int| 0 <= i < slots.len() && (#[trigger] slots[i]) is None;
            assert(occupants(slots).len() != slots.len());
        }
    }
}

/// Values addressed by slot.
pub struct Arena<V> {
    slots: Vec<Option<V>>,
    free: Vec<usize>,
    occupied: usize,
}

impl<V> View for Arena<V> {
    type V = Seq<Option<V>>;

    closed spec fn view(&self) -> Seq<Option<V>> {
        self.slots@
    }
}

impl<V> Arena<V> {
    /// Every entry of the free list names a vacant slot, no slot is listed twice, the occupied
    /// slots are counted, and every slot is on the list or counted.
    pub closed spec fn wf(&self) -> bool {
        &&& self.occupied == occupants(self.slots@).len()
        &&& forall|j: int|
            0 <= j < self.free@.len() ==> {
                &&& (#[trigger] self.free@[j]) < self.slots@.len()
                &&& self.slots@[self.free@[j] as int] is None
            }
        &&& self.free@.no_duplicates()
        &&& self.free@.len() + self.occupied == self.slots@.len()
    }

    /// Every slot has a name.
    pub proof fn lemma_slots_are_nameable(&self)
        ensures
            self@.len() <= usize::MAX,
    {
        assert(self.slots.len() == self.slots@.len());
    }

    /// An arena without slots.
    pub fn new() -> (arena: Self)
        ensures
            arena.wf(),
            arena@ == Seq::<Option<V>>::empty(),
    {
        Arena { slots: Vec::new(), free: Vec::new(), occupied: 0 }
    }

    /// The number of slots, vacant ones included.
    pub fn slot_count(&self) -> (n: usize)
        ensures
            n == self@.len(),
    {
        self.slots.len()
    }

    /// Whether no slot holds a value.
    pub fn is_vacant(&self) -> (vacant: bool)
        requires
            self.wf(),
        ensures
            vacant <==> forall|i: int| 0 <= i < self@.len() ==> (#[trigger] self@[i]) is None,
    {
        proof {
            lemma_occupants_bound(self.slots@);
        }
        self.occupied == 0
    }

    /// What the slot at position `i` holds.
    pub fn at(&self, i: usize) -> (v: Option<&V>)
        requires
            i < self@.len(),
        ensures
            match v {
                Some(v) => self@[i as int] == Some(*v),
                None => self@[i as int] is None,
            },
    {
        match &self.slots[i] {
            Some(v) => Some(v),
            None => None,
        }
    }

    /// What the slot `id` holds.
    pub fn get(&self, id: SlotId) -> (v: Option<&V>)
        ensures
            match v {
                Some(v) => slot_at(self@, id.index()) == Some(*v),
                None => slot_at(self@, id.index()) is None,
            },
    {
        if id.index < self.slots.len() {
            self.at(id.index)
        } else {
            None
        }
    }

    /// Puts `v` in a vacant slot, and grows the arena by one slot only where none is vacant.
    pub fn insert(&mut self, v: V) -> (id: SlotId)
        requires
            old(self).wf(),
        ensures
            final(self).wf(),
            0 <= id.index() <= old(self)@.len(),
            slot_at(old(self)@, id.index()) is None,
            has_vacancy(old(self)@) ==> id.index() < old(self)@.len(),
            final(self)@ == place(old(self)@, id.index(), v),
    {
        proof {
            lemma_occupants_bound(self.slots@);
        }
        match self.free.pop() {
            Some(index) => {
                assert(old(self).free@[old(self).free@.len() - 1] == index);
                self.slots[index] = Some(v);
                proof {
                    lemma_place_adds_one(old(self).slots@, index as int, v);
                    lemma_occupants_bound(self.slots@);
                    assert(self.slots.len() == self.slots@.len());
                }
                self.occupied = self.occupied + 1;
                SlotId { index }
            },
            None => {
                let index: usize = self.slots.len();
                self.slots.push(Some(v));
                proof {
                    lemma_place_adds_one(old(self).slots@, index as int, v);
                    lemma_occupants_bound(self.slots@);
                    assert(self.slots.len() == self.slots@.len());
                }
                self.occupied = self.occupied + 1;
                SlotId { index }
            },
        }
    }

    /// Replaces what an occupied slot holds and returns what it held.
    pub fn replace(&mut self, id: SlotId, v: V) -> (old_v: V)
        requires
            old(self).wf(),
            slot_at(old(self)@, id.index()) is Some,
        ensures
            final(self).wf(),
            Some(old_v) == slot_at(old(self)@, id.index()),
            final(self)@ == old(self)@.update(id.index(), Some(v)),
    {
        let mut slot: Option<V> = Some(v);
        core::mem::swap(&mut self.slots[id.index], &mut slot);
        proof {
            let vacated = old(self)@.update(id.index(), None);
            lemma_place_adds_one(vacated, id.index(), v);
            lemma_place_adds_one(vacated, id.index(), slot->0);
            assert(place(vacated, id.index(), v) == self.slots@);
            assert(place(vacated, id.index(), slot->0) == old(self)@);
        }
        slot.unwrap()
    }

    /// Vacates a slot and returns what it held.
    pub fn remove(&mut self, id: SlotId) -> (v: Option<V>)
        requires
            old(self).wf(),
        ensures
            final(self).wf(),
            v == slot_at(old(self)@, id.index()),
            final(self)@ == vacate(old(self)@, id.index()),
    {
        if id.index >= self.slots.len() {
            return None;
        }
        let mut slot: Option<V> = None;
        core::mem::swap(&mut self.slots[id.index], &mut slot);
        if slot.is_some() {
            proof {
                lemma_place_adds_one(self.slots@, id.index(), slot->0);
                assert(place(self.slots@, id.index(), slot->0) == old(self)@);
            }
            self.free.push(id.index);
            self.occupied = self.occupied - 1;
        } else {
            assert(self.slots@ == old(self)@);
        }
        slot
    }

    /// Empties the arena and returns its values in slot order.
    pub fn drain(&mut self) -> (values: Vec<V>)
        requires
            old(self).wf(),
        ensures
            final(self).wf(),
            final(self)@ == Seq::<Option<V>>::empty(),
            values@ == occupants(old(self)@),
    {
        let mut slots: Vec<Option<V>> = Vec::new();
        core::mem::swap(&mut self.slots, &mut slots);
        self.free.clear();
        self.occupied = 0;
        let ghost all = slots@;
        let mut values: Vec<V> = Vec::new();
        let mut i: usize = 0;
        while i < slots.len()
            invariant
                i <= slots@.len(),
                slots@.len() == all.len(),
                forall|j: int| i <= j < all.len() ==> slots@[j] == all[j],
                values@ == occupants(all.take(i as int)),
            decreases slots@.len() - i,
        {
            let mut slot: Option<V> = None;
            core::mem::swap(&mut slots[i], &mut slot);
            assert(all.take(i + 1).drop_last() == all.take(i as int));
            match slot {
                Some(v) => values.push(v),
                None => {},
            }
            i += 1;
        }
        assert(all.take(i as int) == all);
        values
    }
}

} // verus!
