//! The message log of a channel: what was published, and how far each receiver has read.

use crate::broadcast::spmc::backlog::message;
use crate::broadcast::spmc::backlog::messages;
use crate::broadcast::spmc::backlog::Backlog;
use crate::internal::arena::place;
use crate::internal::arena::slot_at;
use crate::internal::arena::slot_is_its_position;
use crate::internal::arena::slot_named;
use crate::internal::arena::vacate;
use crate::internal::arena::Arena;
use crate::internal::arena::SlotId;
use std::sync::Arc;
use vstd::prelude::*;

verus! {

/// What a log amounts to: every message ever published, in order, and for each active receiver
/// the number of messages that are behind it.
#[verifier::ext_equal]
pub struct LogState<T> {
    pub history: Seq<T>,
    pub cursors: Map<SlotId, nat>,
}

impl<T> LogState<T> {
    /// Whether `id` is an active receiver.
    pub open spec fn active(self, id: SlotId) -> bool {
        self.cursors.contains_key(id)
    }

    /// Whether any receiver is active.
    pub open spec fn has_receivers(self) -> bool {
        exists|id: SlotId| self.active(id)
    }

    /// What the receiver `id` has not read yet, in the order in which it was published.
    pub open spec fn unread(self, id: SlotId) -> Seq<T> {
        self.history.skip(self.cursors[id] as int)
    }

    /// Every cursor is within the history.
    pub open spec fn valid(self) -> bool {
        forall|id: SlotId| #[trigger] self.active(id) ==> self.cursors[id] <= self.history.len()
    }

    /// Whether the shared backlog is `n` messages long: as long as what the slowest active
    /// receiver has not read, and empty where no receiver is active.
    pub open spec fn retains(self, n: nat) -> bool {
        &&& forall|id: SlotId| #[trigger] self.active(id) ==> self.unread(id).len() <= n
        &&& n > 0 ==> exists|id: SlotId| #[trigger] self.active(id) && self.unread(id).len() == n
    }

    /// Whether every other active receiver is further along than `id`.
    pub open spec fn trails_alone(self, id: SlotId) -> bool {
        forall|other: SlotId| #[trigger]
            self.active(other) && other != id ==> self.cursors[id] < self.cursors[other]
    }

    /// Whether no active receiver but `id` still has to read the message numbered `version`.
    pub open spec fn needed_by_none_but(self, id: SlotId, version: int) -> bool {
        forall|other: SlotId| #[trigger]
            self.active(other) && other != id ==> version < self.cursors[other]
    }

    /// The log after `msg` was published.
    pub open spec fn publish(self, msg: T) -> Self {
        LogState { history: self.history.push(msg), ..self }
    }

    /// The log after `id` was subscribed at the publication boundary.
    pub open spec fn subscribe(self, id: SlotId) -> Self {
        LogState { cursors: self.cursors.insert(id, self.history.len()), ..self }
    }

    /// The log after `id` read its next message.
    pub open spec fn receive(self, id: SlotId) -> Self {
        LogState { cursors: self.cursors.insert(id, self.cursors[id] + 1), ..self }
    }

    /// The log after `id` left.
    pub open spec fn unsubscribe(self, id: SlotId) -> Self {
        LogState { cursors: self.cursors.remove(id), ..self }
    }
}

/// How a log is laid out: the slots that it ever handed out to receivers, which it keeps when they
/// leave, and whether the allocation of its backlog follows the load.
pub struct Storage {
    pub slots: nat,
    pub elastic: bool,
}

impl Storage {
    /// Whether a slot is free: it was handed out before, and its receiver has left.
    pub open spec fn has_free_slot<T>(self, log: LogState<T>) -> bool {
        exists|i: int| 0 <= i < self.slots && !log.active(#[trigger] slot_named(i))
    }

    /// Whether `id` names a slot that the next receiver may be given: one that no receiver has,
    /// and a new one only where none is free.
    pub open spec fn offers<T>(self, log: LogState<T>, id: SlotId) -> bool {
        &&& !log.active(id)
        &&& 0 <= id.index() <= self.slots
        &&& self.has_free_slot(log) ==> id.index() < self.slots
    }

    /// The same with a slot for the receiver `id`.
    pub open spec fn with_slot(self, id: SlotId) -> Self {
        Storage {
            slots: if id.index() < self.slots {
                self.slots
            } else {
                (id.index() + 1) as nat
            },
            ..self
        }
    }
}

/// The cursors that an arena of positions stands for.
pub open spec fn cursor_map(slots: Seq<Option<u64>>) -> Map<SlotId, nat> {
    Map::new(
        |id: SlotId| slot_at(slots, id.index()) is Some,
        |id: SlotId| slot_at(slots, id.index())->0 as nat,
    )
}

proof fn lemma_cursor_placed(slots: Seq<Option<u64>>, id: SlotId, at: u64)
    requires
        0 <= id.index() <= slots.len() <= usize::MAX,
    ensures
        cursor_map(place(slots, id.index(), at)) == cursor_map(slots).insert(id, at as nat),
{
    slot_is_its_position(id.index());
    assert(cursor_map(place(slots, id.index(), at)) =~= cursor_map(slots).insert(id, at as nat));
}

proof fn lemma_cursor_vacated(slots: Seq<Option<u64>>, id: SlotId)
    requires
        0 <= id.index() < slots.len() <= usize::MAX,
    ensures
        cursor_map(vacate(slots, id.index())) == cursor_map(slots).remove(id),
{
    slot_is_its_position(id.index());
    assert(cursor_map(vacate(slots, id.index())) =~= cursor_map(slots).remove(id));
}

/// The messages that some active receiver has not read, and the receivers' positions.
pub struct Log<T> {
    backlog: Backlog<T>,
    tail: u64,
    cursors: Arena<u64>,
    history: Ghost<Seq<T>>,
}

impl<T> View for Log<T> {
    type V = LogState<T>;

    closed spec fn view(&self) -> LogState<T> {
        LogState { history: self.history@, cursors: cursor_map(self.cursors@) }
    }
}

impl<T> Log<T> {
    /// The version of the oldest retained message.
    spec fn head(&self) -> int {
        self.tail - self.backlog@.len()
    }

    /// The backlog is the end of the history that starts where the slowest receiver stands.
    pub closed spec fn wf(&self) -> bool {
        &&& self.backlog.wf()
        &&& self.cursors.wf()
        &&& self.tail == self.history@.len()
        &&& 0 <= self.head()
        &&& self.backlog@ == self.history@.skip(self.head())
        &&& forall|id: SlotId| #[trigger]
            self@.active(id) ==> self.head() <= self@.cursors[id] <= self.tail
        &&& self.backlog@.len() > 0 ==> exists|id: SlotId| #[trigger]
            self@.active(id) && self@.cursors[id] == self.head()
    }

    /// How the log is laid out.
    pub closed spec fn storage(&self) -> Storage {
        Storage { slots: self.cursors@.len(), elastic: self.backlog.is_elastic() }
    }

    /// Every cursor of a log is within its history.
    pub proof fn lemma_valid(&self)
        requires
            self.wf(),
        ensures
            self@.valid(),
    {
    }

    /// A log without messages and without receivers.
    pub fn new(backlog: Backlog<T>) -> (log: Self)
        requires
            backlog.wf(),
            backlog@ == Seq::<T>::empty(),
        ensures
            log.wf(),
            log.storage() == (Storage { slots: 0, elastic: backlog.is_elastic() }),
            log@.history == Seq::<T>::empty(),
            log@.cursors == Map::<SlotId, nat>::empty(),
    {
        let log = Log { backlog, tail: 0, cursors: Arena::new(), history: Ghost(Seq::empty()) };
        assert(log@.cursors =~= Map::<SlotId, nat>::empty());
        assert(log.backlog@ =~= log.history@.skip(0));
        log
    }

    /// Whether any receiver is active.
    pub fn has_receivers(&self) -> (yes: bool)
        requires
            self.wf(),
        ensures
            yes == self@.has_receivers(),
    {
        let vacant = self.cursors.is_vacant();
        proof {
            if !vacant {
                let i = choose|i: int|
                    0 <= i < self.cursors@.len() && (#[trigger] self.cursors@[i]) is Some;
                self.cursors.lemma_slots_are_nameable();
                slot_is_its_position(i);
                assert(self@.active(slot_named(i)));
            }
        }
        !vacant
    }

    /// The number of messages in the shared backlog.
    pub fn retained(&self) -> (n: usize)
        requires
            self.wf(),
        ensures
            self@.retains(n as nat),
    {
        self.backlog.len()
    }

    /// The number of messages that the receiver `id` has not read.
    pub fn unread(&self, id: SlotId) -> (n: usize)
        requires
            self.wf(),
            self@.active(id),
        ensures
            n == self@.unread(id).len(),
    {
        let cursor: u64 = *self.cursors.get(id).unwrap();
        let retained: usize = self.backlog.len();
        assert(self@.active(id) && self@.unread(id).len() <= retained);
        (self.tail - cursor) as usize
    }

    /// The number of versions that can still be given out.
    pub fn versions_left(&self) -> (n: u64)
        requires
            self.wf(),
        ensures
            n == u64::MAX - self@.history.len(),
    {
        u64::MAX - self.tail
    }

    /// The number of messages that fit in the buffer without another allocation.
    pub fn buffer_capacity(&self) -> (room: usize)
        requires
            self.wf(),
        ensures
            forall|id: SlotId| #[trigger] self@.active(id) ==> room >= self@.unread(id).len(),
    {
        self.backlog.buffer_capacity()
    }

    /// Subscribes a receiver at the current publication boundary.
    pub fn subscribe(&mut self) -> (id: SlotId)
        requires
            old(self).wf(),
        ensures
            final(self).wf(),
            final(self).storage() == old(self).storage().with_slot(id),
            old(self).storage().offers(old(self)@, id),
            !old(self)@.active(id),
            final(self)@ == old(self)@.subscribe(id),
    {
        let id = self.cursors.insert(self.tail);
        proof {
            old(self).cursors.lemma_slots_are_nameable();
            lemma_cursor_placed(old(self).cursors@, id, self.tail);
            assert(self@ == old(self)@.subscribe(id));
            if old(self).storage().has_free_slot(old(self)@) {
                let i = choose|i: int|
                    0 <= i < old(self).storage().slots && !old(self)@.active(
                        #[trigger] slot_named(i),
                    );
                slot_is_its_position(i);
                assert(old(self).cursors@[i] is None);
            }
            assert forall|other: SlotId| #[trigger] self@.active(other) implies self.head()
                <= self@.cursors[other] <= self.tail by {
                assert(other != id ==> old(self)@.active(other));
            }
            if self.backlog@.len() > 0 {
                let slowest = choose|slowest: SlotId| #[trigger]
                    old(self)@.active(slowest) && old(self)@.cursors[slowest] == self.head();
                assert(self@.active(slowest) && self@.cursors[slowest] == self.head());
            }
        }
        id
    }

    /// Counts a message that nothing will read.
    pub fn publish_discarded(&mut self, Ghost(msg): Ghost<T>)
        requires
            old(self).wf(),
            !old(self)@.has_receivers(),
            old(self)@.history.len() < u64::MAX,
        ensures
            final(self).wf(),
            final(self).storage() == old(self).storage(),
            final(self)@ == old(self)@.publish(msg),
    {
        self.tail = self.tail + 1;
        proof {
            self.history@ = self.history@.push(msg);
            if self.backlog@.len() > 0 {
                let slowest = choose|slowest: SlotId| #[trigger]
                    old(self)@.active(slowest) && old(self)@.cursors[slowest] == old(self).head();
                assert(old(self)@.has_receivers());
            }
            assert(self.backlog@ =~= self.history@.skip(self.head()));
            assert forall|other: SlotId| #[trigger] self@.active(other) implies false by {
                assert(old(self)@.active(other));
            }
        }
    }

    /// Appends a message that every active receiver is going to read.
    pub fn publish_retained(&mut self, msg: Arc<T>)
        requires
            old(self).wf(),
            old(self)@.has_receivers(),
            old(self)@.history.len() < u64::MAX,
        ensures
            final(self).wf(),
            final(self).storage() == old(self).storage(),
            final(self)@ == old(self)@.publish(*msg),
    {
        let ghost value = message(msg);
        self.backlog.push(msg);
        self.tail = self.tail + 1;
        proof {
            self.history@ = self.history@.push(value);
            assert(self.backlog@ =~= self.history@.skip(self.head()));
            assert forall|other: SlotId| #[trigger] self@.active(other) implies self.head()
                <= self@.cursors[other] <= self.tail by {
                assert(old(self)@.active(other));
            }
            if old(self).backlog@.len() == 0 {
                let id = choose|id: SlotId| old(self)@.active(id);
                assert(self@.active(id) && self@.cursors[id] == self.head());
            } else {
                let id = choose|id: SlotId| #[trigger]
                    old(self)@.active(id) && old(self)@.cursors[id] == old(self).head();
                assert(self@.active(id) && self@.cursors[id] == self.head());
            }
        }
    }

    /// The position of the slowest active receiver, or the publication boundary where none is
    /// active.
    fn floor(&self) -> (floor: u64)
        requires
            self.cursors.wf(),
            forall|id: SlotId| #[trigger] self@.active(id) ==> self@.cursors[id] <= self.tail,
        ensures
            floor <= self.tail,
            forall|id: SlotId| #[trigger] self@.active(id) ==> floor <= self@.cursors[id],
            floor < self.tail ==> exists|id: SlotId| #[trigger]
                self@.active(id) && self@.cursors[id] == floor,
    {
        let mut floor: u64 = self.tail;
        let mut i: usize = 0;
        let n: usize = self.cursors.slot_count();
        while i < n
            invariant
                i <= n,
                n == self.cursors@.len(),
                floor <= self.tail,
                forall|id: SlotId| #[trigger]
                    self@.active(id) && id.index() < i ==> floor <= self@.cursors[id],
                floor < self.tail ==> exists|id: SlotId| #[trigger]
                    self@.active(id) && self@.cursors[id] == floor,
            decreases n - i,
        {
            let cursor = self.cursors.at(i);
            proof {
                slot_is_its_position(i as int);
            }
            if let Some(cursor) = cursor {
                if *cursor < floor {
                    floor = *cursor;
                    assert(self@.active(slot_named(i as int)) && self@.cursors[slot_named(i as int)]
                        == floor);
                }
            }
            i += 1;
        }
        floor
    }

    /// Reads the next message of the receiver `id`, if there is one. The flag tells whether this
    /// read was the last one the message was retained for, and released it.
    pub fn receive(&mut self, id: SlotId) -> (next: Option<(Arc<T>, bool)>)
        requires
            old(self).wf(),
            old(self)@.active(id),
        ensures
            final(self).wf(),
            final(self).storage() == old(self).storage(),
            match next {
                Some((msg, reclaimed)) => {
                    &&& old(self)@.unread(id).len() > 0
                    &&& *msg == old(self)@.unread(id)[0]
                    &&& final(self)@ == old(self)@.receive(id)
                    &&& reclaimed == old(self)@.trails_alone(id)
                },
                None => old(self)@.unread(id).len() == 0 && final(self)@ == old(self)@,
            },
    {
        let cursor: u64 = *self.cursors.get(id).unwrap();
        assert(self@.active(id));
        if cursor == self.tail {
            return None;
        }
        let retained: usize = self.backlog.len();
        let head: u64 = self.tail - retained as u64;
        let _ = self.cursors.replace(id, cursor + 1);
        proof {
            old(self).cursors.lemma_slots_are_nameable();
            lemma_cursor_placed(old(self).cursors@, id, (cursor + 1) as u64);
            assert(self@ == old(self)@.receive(id));
            assert forall|other: SlotId| #[trigger] self@.active(other) implies head
                <= self@.cursors[other] <= self.tail by {
                assert(old(self)@.active(other));
            }
        }
        if cursor == head {
            let floor: u64 = self.floor();
            if floor > head {
                let msg = self.backlog.pop();
                proof {
                    assert(self.backlog@ =~= self.history@.skip(self.head()));
                    assert forall|other: SlotId| #[trigger]
                        old(self)@.active(other) && other != id implies old(self)@.cursors[id]
                        < old(self)@.cursors[other] by {
                        assert(self@.active(other));
                    }
                    if self.backlog@.len() > 0 {
                        assert(self@.active(id) && self@.cursors[id] == self.head());
                    }
                }
                Some((msg, true))
            } else {
                let msg = self.backlog.get(0);
                proof {
                    let other = choose|other: SlotId| #[trigger]
                        self@.active(other) && self@.cursors[other] == floor;
                    assert(old(self)@.active(other) && other != id);
                }
                Some((msg, false))
            }
        } else {
            let msg = self.backlog.get((cursor - head) as usize);
            proof {
                let slowest = choose|slowest: SlotId| #[trigger]
                    old(self)@.active(slowest) && old(self)@.cursors[slowest] == head;
                assert(self@.active(slowest) && self@.cursors[slowest] == head);
            }
            Some((msg, false))
        }
    }

    /// Ends the subscription `id`. What no other receiver still has to read leaves the backlog
    /// and is returned, oldest first.
    pub fn remove_receiver(&mut self, id: SlotId) -> (reclaimed: Vec<Arc<T>>)
        requires
            old(self).wf(),
            old(self)@.active(id),
        ensures
            final(self).wf(),
            final(self).storage() == old(self).storage(),
            final(self)@ == old(self)@.unsubscribe(id),
            reclaimed@.len() <= old(self)@.unread(id).len(),
            messages(reclaimed@) == old(self)@.unread(id).take(reclaimed@.len() as int),
            forall|version: int|
                old(self)@.cursors[id] <= version < old(self)@.history.len() ==> (
                #[trigger] old(self)@.needed_by_none_but(id, version) <==> version
                    < old(self)@.cursors[id] + reclaimed@.len()),
    {
        let retained: usize = self.backlog.len();
        let head: u64 = self.tail - retained as u64;
        let cursor: u64 = self.cursors.remove(id).unwrap();
        proof {
            old(self).cursors.lemma_slots_are_nameable();
            lemma_cursor_vacated(old(self).cursors@, id);
            assert(self@ == old(self)@.unsubscribe(id));
            assert(old(self)@.active(id));
            assert forall|other: SlotId| #[trigger] self@.active(other) implies head
                <= self@.cursors[other] <= self.tail && self@.cursors[other]
                == old(self)@.cursors[other] && other != id by {
                assert(old(self)@.active(other));
            }
        }
        let mut reclaimed: Vec<Arc<T>> = Vec::new();
        if cursor != head {
            proof {
                if old(self).backlog@.len() > 0 {
                    let slowest = choose|slowest: SlotId| #[trigger]
                        old(self)@.active(slowest) && old(self)@.cursors[slowest] == head;
                    assert(self@.active(slowest) && self@.cursors[slowest] == head);
                }
            }
            return reclaimed;
        }
        let floor: u64 = self.floor();
        let ghost before = self.backlog@;
        let ghost left = *self;
        let mut released: u64 = head;
        assert(messages(reclaimed@) =~= before.take(0));
        assert(before.skip(0) =~= before);
        while released < floor
            invariant
                head <= released <= floor <= self.tail,
                released - head == reclaimed@.len(),
                before.len() == self.tail - head,
                self.backlog.wf(),
                self.backlog.is_elastic() == old(self).backlog.is_elastic(),
                self.backlog@ == before.skip(released - head),
                messages(reclaimed@) == before.take(released - head),
                self.tail == left.tail,
                self.cursors == left.cursors,
                self.history == left.history,
            decreases floor - released,
        {
            let msg = self.backlog.pop();
            reclaimed.push(msg);
            released += 1;
            assert(self.backlog@ =~= before.skip(released - head));
            assert(messages(reclaimed@) =~= before.take(released - head));
        }
        proof {
            assert(self@ == left@);
            assert(self.backlog@ =~= self.history@.skip(self.head()));
            assert(messages(reclaimed@) =~= old(self)@.unread(id).take(reclaimed@.len() as int));
            assert forall|version: int| cursor <= version < old(self)@.history.len() implies (
            #[trigger] old(self)@.needed_by_none_but(id, version) <==> version < floor) by {
                if version < floor {
                    assert forall|other: SlotId| #[trigger]
                        old(self)@.active(other) && other != id implies version
                        < old(self)@.cursors[other] by {
                        assert(left@.active(other));
                    }
                } else {
                    let slowest = choose|slowest: SlotId| #[trigger]
                        left@.active(slowest) && left@.cursors[slowest] == floor;
                    assert(old(self)@.active(slowest) && slowest != id);
                }
            }
        }
        reclaimed
    }
}

} // verus!
