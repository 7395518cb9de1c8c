//! What each operation changes of a channel, and what it leaves as it was.

use crate::broadcast::spmc::bounded::as_seq;
use crate::broadcast::spmc::bounded::full;
use crate::broadcast::spmc::bounded::within;
use crate::broadcast::spmc::common::ChannelState;
use crate::broadcast::spmc::common::WakerToken;
use crate::broadcast::spmc::log::LogState;
use crate::broadcast::spmc::log::Storage;
use crate::internal::arena::position_tells_the_slot;
use crate::internal::arena::slot_is_its_position;
use crate::internal::arena::slot_named;
use crate::internal::arena::SlotId;
use vstd::prelude::*;

verus! {

/// One thing that happens to a channel.
pub enum ChannelEvent<T, W> {
    Publish(T),
    Subscribe(SlotId),
    Receive(SlotId),
    Unsubscribe(SlotId),
    Disconnect,
    Park(SlotId, WakerToken, W),
    Unpark(WakerToken),
    ParkProducer(Option<W>),
}

/// The channel after `event`.
pub open spec fn channel_step<T, W>(
    state: ChannelState<T, W>,
    event: ChannelEvent<T, W>,
) -> ChannelState<T, W> {
    match event {
        ChannelEvent::Publish(msg) => state.publish(msg),
        ChannelEvent::Subscribe(id) => state.subscribe(id),
        ChannelEvent::Receive(id) => state.receive(id),
        ChannelEvent::Unsubscribe(id) => state.unsubscribe(id),
        ChannelEvent::Disconnect => state.disconnect(),
        ChannelEvent::Park(id, token, waker) => state.park(id, token, waker),
        ChannelEvent::Unpark(token) => state.unpark(token),
        ChannelEvent::ParkProducer(waker) => state.park_producer(waker),
    }
}

/// The channel after `events`.
pub open spec fn channel_run<T, W>(
    state: ChannelState<T, W>,
    events: Seq<ChannelEvent<T, W>>,
) -> ChannelState<T, W>
    decreases events.len(),
{
    if events.len() == 0 {
        state
    } else {
        channel_step(channel_run(state, events.drop_last()), events.last())
    }
}

/// Publishing, reading, subscribing, leaving and parking do not change whether the sender is there;
/// only its own departure does.
pub proof fn only_the_sender_disconnects<T, W>(
    state: ChannelState<T, W>,
    msg: T,
    id: SlotId,
    token: WakerToken,
    waker: W,
    producer: Option<W>,
)
    ensures
        state.publish(msg).connected == state.connected,
        state.subscribe(id).connected == state.connected,
        state.receive(id).connected == state.connected,
        state.unsubscribe(id).connected == state.connected,
        state.park(id, token, waker).connected == state.connected,
        state.unpark(token).connected == state.connected,
        state.park_producer(producer).connected == state.connected,
        !state.disconnect().connected,
{
}

/// Disconnection is final: after any series of events the sender is there if and only if it was
/// there before and did not leave in between.
pub proof fn disconnection_is_final<T, W>(
    state: ChannelState<T, W>,
    events: Seq<ChannelEvent<T, W>>,
)
    ensures
        channel_run(state, events).connected <==> state.connected && forall|i: int|
            0 <= i < events.len() ==> !((#[trigger] events[i]) is Disconnect),
    decreases events.len(),
{
    if events.len() > 0 {
        let earlier = events.drop_last();
        disconnection_is_final(state, earlier);
        assert(events.last() == events[events.len() - 1]);
        assert(forall|i: int| 0 <= i < earlier.len() ==> earlier[i] == events[i]);
        if forall|i: int| 0 <= i < earlier.len() ==> !((#[trigger] earlier[i]) is Disconnect) {
            assert forall|i: int|
                0 <= i < events.len() && !(events.last() is Disconnect) implies !((
            #[trigger] events[i]) is Disconnect) by {
                if i < earlier.len() {
                    assert(earlier[i] == events[i]);
                }
            }
        } else {
            let i = choose|i: int| 0 <= i < earlier.len() && (#[trigger] earlier[i]) is Disconnect;
            assert(events[i] is Disconnect);
        }
    }
}

/// How often the receiver `id` reads in the course of `events`.
pub open spec fn reads<T, W>(events: Seq<ChannelEvent<T, W>>, id: SlotId) -> nat
    decreases events.len(),
{
    if events.len() == 0 {
        0
    } else {
        reads(events.drop_last(), id) + if events.last() == ChannelEvent::<T, W>::Receive(id) {
            1nat
        } else {
            0nat
        }
    }
}

/// A receiver of a disconnected channel reads what was left for it, one message per read, and then
/// finds the channel empty and the sender gone, whatever it and the others do in between. With
/// nothing left to read, as many messages were read as were left.
pub proof fn a_disconnected_receiver_drains_what_was_left<T, W>(
    state: ChannelState<T, W>,
    events: Seq<ChannelEvent<T, W>>,
    id: SlotId,
)
    requires
        !state.connected,
        state.log.cursors.contains_key(id),
        forall|i: int|
            0 <= i < events.len() ==> {
                &&& !((#[trigger] events[i]) is Publish)
                &&& events[i] != ChannelEvent::<T, W>::Subscribe(id)
                &&& events[i] != ChannelEvent::<T, W>::Unsubscribe(id)
            },
    ensures
        !channel_run(state, events).connected,
        channel_run(state, events).log.history == state.log.history,
        channel_run(state, events).log.cursors.contains_key(id),
        channel_run(state, events).log.cursors[id] == state.log.cursors[id] + reads(events, id),
        reads(events, id) <= state.log.history.len() - state.log.cursors[id] ==> channel_run(
            state,
            events,
        ).log.unread(id).len() == state.log.history.len() - state.log.cursors[id] - reads(
            events,
            id,
        ),
    decreases events.len(),
{
    if events.len() > 0 {
        let earlier = events.drop_last();
        assert forall|i: int| 0 <= i < earlier.len() implies {
            &&& !((#[trigger] earlier[i]) is Publish)
            &&& earlier[i] != ChannelEvent::<T, W>::Subscribe(id)
            &&& earlier[i] != ChannelEvent::<T, W>::Unsubscribe(id)
        } by {
            assert(earlier[i] == events[i]);
        }
        a_disconnected_receiver_drains_what_was_left(state, earlier, id);
        assert(events.last() == events[events.len() - 1]);
        assert(!(events[events.len() - 1] is Publish));
    }
}

/// A publication adds the message to the end of the history and makes every parked receiver due.
/// No receiver moves, and the producer stays parked or not as it was.
pub proof fn a_publication_only_extends_the_history<T, W>(state: ChannelState<T, W>, msg: T)
    ensures
        state.publish(msg).log.history.len() == state.log.history.len() + 1,
        state.publish(msg).log.history[state.log.history.len() as int] == msg,
        forall|i: int|
            0 <= i < state.log.history.len() ==> #[trigger] state.publish(msg).log.history[i]
                == state.log.history[i],
        state.publish(msg).log.cursors == state.log.cursors,
        state.publish(msg).producer == state.producer,
        state.publish(msg).waiters.len() == 0,
{
}

/// A subscription gives one receiver the end of the history as its place. Nothing that was
/// published changes, the other receivers stay where they are, and whoever is parked stays parked,
/// the producer as well as the receivers.
pub proof fn a_subscription_leaves_everyone_parked<T, W>(state: ChannelState<T, W>, id: SlotId)
    ensures
        state.subscribe(id).producer == state.producer,
        state.subscribe(id).waiters == state.waiters,
        state.subscribe(id).log.history == state.log.history,
        state.subscribe(id).log.cursors.contains_key(id),
        state.subscribe(id).log.cursors[id] == state.log.history.len(),
        forall|other: SlotId|
            other != id ==> {
                &&& #[trigger] state.subscribe(id).log.cursors.contains_key(other)
                    <==> state.log.cursors.contains_key(other)
                &&& state.subscribe(id).log.cursors[other] == state.log.cursors[other]
            },
{
}

/// A read moves one receiver by one message. Nothing that was published changes, the other
/// receivers stay where they are, and no receiver's waker moves.
pub proof fn a_read_moves_its_own_receiver_only<T, W>(state: ChannelState<T, W>, id: SlotId)
    requires
        state.log.cursors.contains_key(id),
        state.log.cursors[id] < state.log.history.len(),
    ensures
        state.receive(id).waiters == state.waiters,
        state.receive(id).log.history == state.log.history,
        state.receive(id).log.cursors[id] == state.log.cursors[id] + 1,
        forall|other: SlotId| #[trigger]
            state.receive(id).log.cursors.contains_key(other)
                <==> state.log.cursors.contains_key(other),
        forall|other: SlotId|
            other != id ==> #[trigger] state.receive(id).log.cursors[other]
                == state.log.cursors[other],
{
}

/// No wake-up of the producer is lost by a read. Where another receiver has no more behind it than
/// the reader, the read frees nothing, and the producer stays parked; where all others are further
/// along, the read frees a message, and the producer is not parked any more. In particular a
/// producer that is not parked any more after a read was due.
pub proof fn a_read_loses_no_wake_up<T, W>(state: ChannelState<T, W>, id: SlotId)
    requires
        state.log.cursors.contains_key(id),
        state.log.cursors[id] < state.log.history.len(),
    ensures
        forall|other: SlotId| #[trigger]
            state.log.cursors.contains_key(other) && other != id && state.log.cursors[other]
                <= state.log.cursors[id] ==> state.receive(id).producer == state.producer,
        (forall|other: SlotId| #[trigger]
            state.log.cursors.contains_key(other) && other != id ==> state.log.cursors[id]
                < state.log.cursors[other]) ==> state.receive(id).producer is None,
        state.receive(id).producer != state.producer ==> {
            &&& state.receive(id).producer is None
            &&& forall|other: SlotId| #[trigger]
                state.log.cursors.contains_key(other) && other != id ==> state.log.cursors[id]
                    < state.log.cursors[other]
        },
{
    let log = state.log;
    assert(forall|other: SlotId| #[trigger]
        log.active(other) <==> log.cursors.contains_key(other));
    if forall|other: SlotId| #[trigger]
        log.cursors.contains_key(other) && other != id ==> log.cursors[id] < log.cursors[other] {
        assert(log.trails_alone(id));
    } else {
        let level = choose|other: SlotId| #[trigger]
            log.cursors.contains_key(other) && other != id && log.cursors[other]
                <= log.cursors[id];
        assert(log.active(level));
        assert(!log.trails_alone(id));
    }
}

/// A departure takes one receiver away. Nothing that was published changes, the other receivers
/// stay where they are, and no receiver's waker moves.
pub proof fn a_departure_takes_its_own_receiver_only<T, W>(state: ChannelState<T, W>, id: SlotId)
    ensures
        state.unsubscribe(id).waiters == state.waiters,
        state.unsubscribe(id).log.history == state.log.history,
        !state.unsubscribe(id).log.cursors.contains_key(id),
        forall|other: SlotId|
            other != id ==> {
                &&& #[trigger] state.unsubscribe(id).log.cursors.contains_key(other)
                    <==> state.log.cursors.contains_key(other)
                &&& state.log.cursors.contains_key(other) ==> state.unsubscribe(
                    id,
                ).log.cursors[other] == state.log.cursors[other]
            },
{
}

/// No wake-up of the producer is lost by a departure. Where another receiver stays that has no more
/// behind it than the one that leaves, or where one stays and the one that leaves had nothing left
/// to read, the departure frees nothing, and the producer stays parked. Where no receiver stays, or
/// all others are further along than one that leaves with something left to read, the producer is
/// not parked any more.
pub proof fn a_departure_loses_no_wake_up<T, W>(state: ChannelState<T, W>, id: SlotId)
    requires
        state.log.cursors.contains_key(id),
        state.log.cursors[id] <= state.log.history.len(),
    ensures
        forall|other: SlotId| #[trigger]
            state.log.cursors.contains_key(other) && other != id && (state.log.cursors[other]
                <= state.log.cursors[id] || state.log.cursors[id] == state.log.history.len())
                ==> state.unsubscribe(id).producer == state.producer,
        (forall|other: SlotId| #[trigger] state.log.cursors.contains_key(other) ==> other == id)
            ==> state.unsubscribe(id).producer is None,
        state.log.cursors[id] < state.log.history.len() && (forall|other: SlotId| #[trigger]
            state.log.cursors.contains_key(other) && other != id ==> state.log.cursors[id]
                < state.log.cursors[other]) ==> state.unsubscribe(id).producer is None,
        state.unsubscribe(id).producer == state.producer || state.unsubscribe(id).producer is None,
{
    let log = state.log;
    let left = log.unsubscribe(id);
    assert(forall|other: SlotId| #[trigger]
        log.active(other) <==> log.cursors.contains_key(other));
    assert forall|other: SlotId| #[trigger]
        log.cursors.contains_key(other) && other != id && (log.cursors[other] <= log.cursors[id]
            || log.cursors[id] == log.history.len()) implies state.unsubscribe(id).producer
        == state.producer by {
        assert(left.active(other));
        assert(log.active(other));
        assert(!state.departure_releases(id));
    }
    if forall|other: SlotId| #[trigger] log.cursors.contains_key(other) ==> other == id {
        assert forall|other: SlotId| !(#[trigger] left.active(other)) by {
            assert(log.cursors.contains_key(other) ==> other == id);
        }
        assert(!left.has_receivers());
    }
    if log.cursors[id] < log.history.len() && forall|other: SlotId| #[trigger]
        log.cursors.contains_key(other) && other != id ==> log.cursors[id] < log.cursors[other] {
        assert(log.trails_alone(id));
        assert(log.unread(id).len() > 0);
    }
}

/// The departure of the sender makes every parked receiver due. Nothing that was published
/// changes, and no receiver moves.
pub proof fn a_disconnection_only_unparks<T, W>(state: ChannelState<T, W>)
    ensures
        state.disconnect().log.history == state.log.history,
        state.disconnect().log.cursors == state.log.cursors,
        state.disconnect().waiters.len() == 0,
        state.disconnect().producer == state.producer,
{
}

/// Parking a receiver's waker changes the one slot that it is parked in. A receiver that was parked
/// in another slot is still parked there, with the waker that it left.
pub proof fn parking_takes_one_slot<T, W>(
    state: ChannelState<T, W>,
    id: SlotId,
    token: WakerToken,
    waker: W,
)
    requires
        0 <= token.index() <= state.waiters.len(),
    ensures
        state.park(id, token, waker).log == state.log,
        state.park(id, token, waker).producer == state.producer,
        state.park(id, token, waker).waiters.len() == if token.index() == state.waiters.len() {
            state.waiters.len() + 1
        } else {
            state.waiters.len()
        },
        state.park(id, token, waker).waiters[token.index()] is Some,
        state.park(id, token, waker).waiters[token.index()]->0.owner == id,
        state.park(id, token, waker).waiters[token.index()]->0.waker == waker,
        forall|i: int|
            0 <= i < state.waiters.len() && i != token.index() ==> #[trigger] state.park(
                id,
                token,
                waker,
            ).waiters[i] == state.waiters[i],
{
}

/// Unparking a receiver's waker empties the one slot that it was parked in.
pub proof fn unparking_empties_one_slot<T, W>(state: ChannelState<T, W>, token: WakerToken)
    ensures
        state.unpark(token).log == state.log,
        state.unpark(token).producer == state.producer,
        state.unpark(token).waiters.len() == state.waiters.len(),
        0 <= token.index() < state.waiters.len() ==> state.unpark(
            token,
        ).waiters[token.index()] is None,
        forall|i: int|
            0 <= i < state.waiters.len() && i != token.index() ==> #[trigger] state.unpark(
                token,
            ).waiters[i] == state.waiters[i],
{
}

/// Parking the producer, or giving the waker up, concerns nobody else.
pub proof fn parking_the_producer_concerns_nobody_else<T, W>(
    state: ChannelState<T, W>,
    waker: Option<W>,
)
    ensures
        state.park_producer(waker).producer == waker,
        state.park_producer(waker).log == state.log,
        state.park_producer(waker).waiters == state.waiters,
{
}

/// A waker that is parked for the producer stays parked until it becomes due, is replaced by a later
/// poll or is given up by its own send: where no send is polled or given up in between, and no
/// receiver reads or leaves, it is there after any series of events.
pub proof fn a_parked_producer_stays_parked<T, W>(
    state: ChannelState<T, W>,
    events: Seq<ChannelEvent<T, W>>,
)
    requires
        forall|i: int|
            0 <= i < events.len() ==> {
                &&& !((#[trigger] events[i]) is ParkProducer)
                &&& !(events[i] is Receive)
                &&& !(events[i] is Unsubscribe)
            },
    ensures
        channel_run(state, events).producer == state.producer,
    decreases events.len(),
{
    if events.len() > 0 {
        let earlier = events.drop_last();
        assert forall|i: int| 0 <= i < earlier.len() implies {
            &&& !((#[trigger] earlier[i]) is ParkProducer)
            &&& !(earlier[i] is Receive)
            &&& !(earlier[i] is Unsubscribe)
        } by {
            assert(earlier[i] == events[i]);
        }
        a_parked_producer_stays_parked(state, earlier);
        assert(events.last() == events[events.len() - 1]);
        assert(!(events[events.len() - 1] is ParkProducer));
    }
}

/// What a receiver has not read is as long as the history is ahead of it, and message for message
/// what the history holds from its place on.
pub proof fn unread_is_the_rest_of_the_history<T>(log: LogState<T>, id: SlotId)
    requires
        log.cursors.contains_key(id),
        log.cursors[id] <= log.history.len(),
    ensures
        log.active(id),
        log.has_receivers(),
        log.cursors[id] + log.unread(id).len() == log.history.len(),
        forall|k: int|
            0 <= k < log.unread(id).len() ==> #[trigger] log.unread(id)[k]
                == log.history[log.cursors[id] + k],
{
    assert(log.active(id));
}

/// A receiver is active exactly while it has a place, and there are receivers exactly while one has
/// a place.
pub proof fn receivers_are_those_with_a_place<T>(log: LogState<T>)
    ensures
        forall|id: SlotId| #[trigger] log.active(id) <==> log.cursors.contains_key(id),
        log.has_receivers() <==> log.cursors.dom() != Set::<SlotId>::empty(),
{
    if log.has_receivers() {
        let id = choose|id: SlotId| log.active(id);
        assert(log.cursors.dom().contains(id));
    }
    if log.cursors.dom() != Set::<SlotId>::empty() {
        if forall|id: SlotId| !log.cursors.dom().contains(id) {
            assert(log.cursors.dom() =~= Set::<SlotId>::empty());
        }
        let id = choose|id: SlotId| log.cursors.dom().contains(id);
        assert(log.active(id));
    }
}

/// A channel is full exactly while a receiver is `capacity` messages or more behind the history,
/// and within its capacity exactly while none is more than that behind.
pub proof fn the_slowest_receiver_fills_the_channel<T>(log: LogState<T>, capacity: nat)
    requires
        forall|id: SlotId| #[trigger]
            log.cursors.contains_key(id) ==> log.cursors[id] <= log.history.len(),
    ensures
        log.valid(),
        full(log, capacity) <==> exists|id: SlotId| #[trigger]
            log.cursors.contains_key(id) && log.cursors[id] + capacity <= log.history.len(),
        within(log, capacity) <==> forall|id: SlotId| #[trigger]
            log.cursors.contains_key(id) ==> log.history.len() <= log.cursors[id] + capacity,
{
    assert(forall|id: SlotId| #[trigger] log.active(id) <==> log.cursors.contains_key(id));
    if full(log, capacity) {
        let id = choose|id: SlotId| #[trigger]
            log.active(id) && log.unread(id).len() >= capacity;
        assert(log.cursors.contains_key(id));
    }
    if exists|id: SlotId| #[trigger]
        log.cursors.contains_key(id) && log.cursors[id] + capacity <= log.history.len() {
        let id = choose|id: SlotId| #[trigger]
            log.cursors.contains_key(id) && log.cursors[id] + capacity <= log.history.len();
        assert(log.active(id) && log.unread(id).len() >= capacity);
    }
    if within(log, capacity) {
        assert forall|id: SlotId| #[trigger]
            log.cursors.contains_key(id) implies log.history.len() <= log.cursors[id]
            + capacity by {
            assert(log.active(id));
        }
    }
    if forall|id: SlotId| #[trigger]
        log.cursors.contains_key(id) ==> log.history.len() <= log.cursors[id] + capacity {
        assert forall|id: SlotId| #[trigger] log.active(id) implies log.unread(id).len()
            <= capacity by {
            assert(log.cursors.contains_key(id));
        }
    }
}

/// What is retained is as long as the slowest receiver is behind the history, and nothing is
/// retained where there is no receiver.
pub proof fn the_slowest_receiver_decides_what_is_retained<T>(log: LogState<T>, n: nat)
    requires
        log.retains(n),
        log.valid(),
    ensures
        forall|id: SlotId| #[trigger]
            log.cursors.contains_key(id) ==> log.history.len() <= log.cursors[id] + n,
        n > 0 ==> exists|id: SlotId| #[trigger]
            log.cursors.contains_key(id) && log.cursors[id] + n == log.history.len(),
        log.cursors.dom() == Set::<SlotId>::empty() ==> n == 0,
{
    assert forall|id: SlotId| #[trigger] log.cursors.contains_key(id) implies log.history.len()
        <= log.cursors[id] + n by {
        assert(log.active(id));
    }
    if n > 0 {
        let id = choose|id: SlotId| #[trigger] log.active(id) && log.unread(id).len() == n;
        assert(log.cursors.contains_key(id) && log.cursors[id] + n == log.history.len());
        assert(log.cursors.dom().contains(id));
    }
}

/// A message that nobody else has to read is one that every other receiver has behind it, and the
/// messages before such a one are such messages too.
pub proof fn what_nobody_else_needs<T>(log: LogState<T>, id: SlotId, version: int)
    ensures
        log.needed_by_none_but(id, version) <==> forall|other: SlotId| #[trigger]
            log.cursors.contains_key(other) && other != id ==> version < log.cursors[other],
        forall|earlier: int|
            earlier <= version && log.needed_by_none_but(id, version)
                ==> #[trigger] log.needed_by_none_but(id, earlier),
{
    assert(forall|other: SlotId| #[trigger]
        log.active(other) <==> log.cursors.contains_key(other));
    if log.needed_by_none_but(id, version) {
        assert forall|other: SlotId| #[trigger]
            log.cursors.contains_key(other) && other != id implies version < log.cursors[other] by {
            assert(log.active(other));
        }
    }
    if forall|other: SlotId| #[trigger]
        log.cursors.contains_key(other) && other != id ==> version < log.cursors[other] {
        assert forall|other: SlotId| #[trigger] log.active(other) && other != id implies version
            < log.cursors[other] by {
            assert(log.cursors.contains_key(other));
        }
    }
}

/// A token names a receiver's waker exactly where the slot that it stands for is occupied by that
/// receiver.
pub proof fn a_token_names_an_occupied_slot<T, W>(
    state: ChannelState<T, W>,
    id: SlotId,
    token: WakerToken,
)
    ensures
        state.parked_at(id, Some(token)) <==> {
            &&& 0 <= token.index() < state.waiters.len()
            &&& state.waiters[token.index()] is Some
            &&& state.waiters[token.index()]->0.owner == id
        },
        !state.parked_at(id, None),
{
}

/// A free slot is taken before a new one, and no slot that a receiver has. The log keeps as many
/// slots as the highest one calls for, and never fewer than before.
pub proof fn free_slots_are_taken_first<T>(storage: Storage, log: LogState<T>, id: SlotId)
    requires
        storage.slots <= usize::MAX,
    ensures
        storage.offers(log, id) ==> {
            &&& !log.cursors.contains_key(id)
            &&& id.index() <= storage.slots
            &&& forall|free: SlotId|
                (#[trigger] free.index()) < storage.slots && !log.cursors.contains_key(free)
                    ==> id.index() < storage.slots
        },
        0 <= id.index() < storage.slots && !log.cursors.contains_key(id) ==> storage.offers(log, id),
        id.index() == storage.slots && !log.cursors.contains_key(id) && (forall|free: SlotId|
            (#[trigger] free.index()) < storage.slots ==> log.cursors.contains_key(free))
            ==> storage.offers(log, id),
        storage.with_slot(id).elastic == storage.elastic,
        storage.with_slot(id).slots >= storage.slots,
        id.index() < storage.slots ==> storage.with_slot(id).slots == storage.slots,
        0 <= id.index() && id.index() >= storage.slots ==> storage.with_slot(id).slots == id.index()
            + 1,
{
    assert forall|free: SlotId|
        (#[trigger] free.index()) < storage.slots && !log.cursors.contains_key(free) implies
        storage.has_free_slot(log) by {
        position_tells_the_slot(free, id);
        slot_is_its_position(free.index());
        assert(!log.active(slot_named(free.index())));
    }
    if storage.has_free_slot(log) {
        let i = choose|i: int|
            0 <= i < storage.slots && !log.active(#[trigger] slot_named(i));
        slot_is_its_position(i);
        assert(slot_named(i).index() < storage.slots);
    }
    position_tells_the_slot(id, id);
}

/// A waker that becomes due is handed out once, and where there is none, none is handed out.
pub proof fn a_waker_counts_once<W>(waker: W)
    ensures
        as_seq(Some(waker)).len() == 1,
        as_seq(Some(waker))[0] == waker,
        as_seq(None::<W>).len() == 0,
{
}

} // verus!
