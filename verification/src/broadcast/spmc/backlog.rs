//! The buffer behind a channel: the retained messages, oldest first.

use std::collections::VecDeque;
use std::sync::Arc;
use vstd::prelude::*;

verus! {

/// The allocation that an elastic backlog keeps however little it held.
pub const MIN_RETAINED_CAPACITY: usize = 32;

/// The message behind a shared handle.
pub open spec fn message<T>(handle: Arc<T>) -> T {
    *handle
}

/// The messages behind a sequence of shared handles.
pub open spec fn messages<T>(handles: Seq<Arc<T>>) -> Seq<T> {
    handles.map_values(|handle: Arc<T>| *handle)
}

/// Shared handles stand for one message each, in their order.
pub proof fn messages_keep_their_order<T>(handles: Seq<Arc<T>>)
    ensures
        messages(handles).len() == handles.len(),
        forall|i: int| 0 <= i < handles.len() ==> #[trigger] messages(handles)[i] == *handles[i],
        forall|i: int| 0 <= i < handles.len() ==> message(#[trigger] handles[i]) == *handles[i],
{
}

/// `std::collections::VecDeque::shrink_to` drops allocated room down to a lower bound. The
/// contents do not change. How much room is left afterwards is up to the allocator, and nothing is
/// claimed of it.
#[verifier::external_body]
fn shrink_buffer<T>(buffer: &mut VecDeque<Arc<T>>, min_capacity: usize)
    ensures
        final(buffer)@ == old(buffer)@,
{
    buffer.shrink_to(min_capacity)
}

/// `std::collections::VecDeque::capacity` is the number of elements that fit without another
/// allocation. It is at least the number held; more than that is up to the allocator.
#[verifier::external_body]
fn allocated_room<T>(buffer: &VecDeque<Arc<T>>) -> (room: usize)
    ensures
        room >= buffer@.len(),
{
    buffer.capacity()
}

/// The allocation worth keeping after a cycle, from empty to empty, that held `peak` messages at
/// most.
pub open spec fn kept_room(peak: nat) -> nat {
    if peak >= MIN_RETAINED_CAPACITY {
        peak
    } else {
        MIN_RETAINED_CAPACITY as nat
    }
}

/// A cycle never gives up room that it needed itself, so that cycles which peak alike do not
/// rebuild the allocation, and a smaller cycle keeps less than the burst before it.
pub proof fn kept_room_follows_the_load(peak: nat, burst: nat)
    requires
        peak <= burst,
    ensures
        kept_room(peak) >= peak,
        kept_room(peak) >= 32,
        kept_room(peak) <= kept_room(burst),
        peak < burst && burst > 32 ==> kept_room(peak) < burst,
{
}

/// The retained messages, oldest first.
///
/// An elastic backlog gives a burst's allocation back once it is behind: whenever it runs empty,
/// it keeps the room that the cycle just ended needed, and no less than
/// [`MIN_RETAINED_CAPACITY`].
pub struct Backlog<T> {
    buffer: VecDeque<Arc<T>>,
    elastic: bool,
    peak: usize,
}

impl<T> View for Backlog<T> {
    type V = Seq<T>;

    closed spec fn view(&self) -> Seq<T> {
        messages(self.buffer@)
    }
}

impl<T> Backlog<T> {
    /// Whether the allocation follows the load.
    pub closed spec fn is_elastic(&self) -> bool {
        self.elastic
    }

    /// The most messages held since the backlog last ran empty.
    pub closed spec fn peak(&self) -> nat {
        self.peak as nat
    }

    /// The peak is that of the current cycle.
    pub closed spec fn wf(&self) -> bool {
        self.buffer@.len() <= self.peak
    }

    /// An empty backlog for a channel that retains at most `capacity` messages.
    pub fn fixed(capacity: usize) -> (backlog: Self)
        ensures
            backlog.wf(),
            backlog@ == Seq::<T>::empty(),
            !backlog.is_elastic(),
            backlog.peak() == 0,
    {
        let room: usize = if capacity < MIN_RETAINED_CAPACITY {
            capacity
        } else {
            MIN_RETAINED_CAPACITY
        };
        let backlog = Backlog {
            buffer: VecDeque::with_capacity(room),
            elastic: false,
            peak: 0,
        };
        assert(backlog@ == Seq::<T>::empty());
        backlog
    }

    /// An empty backlog without a limit.
    pub fn elastic() -> (backlog: Self)
        ensures
            backlog.wf(),
            backlog@ == Seq::<T>::empty(),
            backlog.is_elastic(),
            backlog.peak() == 0,
    {
        let backlog = Backlog { buffer: VecDeque::new(), elastic: true, peak: 0 };
        assert(backlog@ == Seq::<T>::empty());
        backlog
    }

    /// The number of retained messages.
    pub fn len(&self) -> (n: usize)
        ensures
            n == self@.len(),
    {
        self.buffer.len()
    }

    /// The number of messages that fit without another allocation.
    pub fn buffer_capacity(&self) -> (room: usize)
        ensures
            room >= self@.len(),
    {
        allocated_room(&self.buffer)
    }

    /// A shared handle to the `i`-th oldest message.
    pub fn get(&self, i: usize) -> (msg: Arc<T>)
        requires
            i < self@.len(),
        ensures
            *msg == self@[i as int],
    {
        self.buffer[i].clone()
    }

    /// Appends the newest message.
    pub fn push(&mut self, msg: Arc<T>)
        requires
            old(self).wf(),
        ensures
            final(self).wf(),
            final(self)@ == old(self)@.push(*msg),
            final(self).is_elastic() == old(self).is_elastic(),
            final(self).peak() == if old(self).peak() > old(self)@.len() {
                old(self).peak()
            } else {
                old(self)@.len() + 1
            },
    {
        self.buffer.push_back(msg);
        assert(self@ == old(self)@.push(*msg));
        if self.buffer.len() > self.peak {
            self.peak = self.buffer.len();
        }
    }

    /// Takes the oldest message out. Running empty ends the cycle: an elastic backlog then gives
    /// up the allocation that the cycle did not need.
    pub fn pop(&mut self) -> (msg: Arc<T>)
        requires
            old(self).wf(),
            old(self)@.len() > 0,
        ensures
            final(self).wf(),
            *msg == old(self)@[0],
            final(self)@ == old(self)@.skip(1),
            final(self).is_elastic() == old(self).is_elastic(),
            final(self).peak() == if old(self)@.len() == 1 {
                0
            } else {
                old(self).peak()
            },
    {
        let msg = self.buffer.pop_front().unwrap();
        assert(self@ == old(self)@.skip(1));
        if self.buffer.len() == 0 {
            if self.elastic {
                let room: usize = self.room_to_keep();
                shrink_buffer(&mut self.buffer, room);
            }
            self.peak = 0;
        }
        msg
    }

    /// The allocation that this cycle's peak justifies keeping.
    pub fn room_to_keep(&self) -> (room: usize)
        ensures
            room == kept_room(self.peak()),
    {
        if self.peak >= MIN_RETAINED_CAPACITY {
            self.peak
        } else {
            MIN_RETAINED_CAPACITY
        }
    }
}

} // verus!
