//! What holds of the channels across calls.

use crate::broadcast::spmc::bounded::full;
use crate::broadcast::spmc::bounded::within;
use crate::broadcast::spmc::bounded::BoundedChannel;
use crate::broadcast::spmc::common::wakers;
use crate::broadcast::spmc::common::ChannelState;
use crate::broadcast::spmc::common::Waiter;
use crate::broadcast::spmc::common::WakerToken;
use crate::broadcast::spmc::log::LogState;
use crate::internal::arena::occupants;
use crate::internal::arena::slot_at;
use crate::internal::arena::SlotId;
use vstd::prelude::*;

verus! {

/// One thing that happens to a log.
pub enum Event<T> {
    Publish(T),
    Subscribe(SlotId),
    Receive(SlotId),
    Unsubscribe(SlotId),
}

/// Whether `event` can happen to `log`.
pub open spec fn possible<T>(log: LogState<T>, event: Event<T>) -> bool {
    match event {
        Event::Publish(_) => true,
        Event::Subscribe(id) => !log.active(id),
        Event::Receive(id) => log.active(id) && log.unread(id).len() > 0,
        Event::Unsubscribe(id) => log.active(id),
    }
}

/// Whether `event` can happen to the log of a channel that retains at most `capacity` messages.
pub open spec fn possible_within<T>(log: LogState<T>, capacity: nat, event: Event<T>) -> bool {
    &&& possible(log, event)
    &&& event is Publish ==> !full(log, capacity)
}

/// The log after `event`.
pub open spec fn step<T>(log: LogState<T>, event: Event<T>) -> LogState<T> {
    match event {
        Event::Publish(msg) => log.publish(msg),
        Event::Subscribe(id) => log.subscribe(id),
        Event::Receive(id) => log.receive(id),
        Event::Unsubscribe(id) => log.unsubscribe(id),
    }
}

/// The log after `events`.
pub open spec fn run<T>(log: LogState<T>, events: Seq<Event<T>>) -> LogState<T>
    decreases events.len(),
{
    if events.len() == 0 {
        log
    } else {
        step(run(log, events.drop_last()), events.last())
    }
}

/// Whether each of `events` can happen when its turn comes.
pub open spec fn all_possible<T>(log: LogState<T>, events: Seq<Event<T>>) -> bool
    decreases events.len(),
{
    events.len() > 0 ==> {
        &&& all_possible(log, events.drop_last())
        &&& possible(run(log, events.drop_last()), events.last())
    }
}

/// Whether each of `events` can happen when its turn comes on a channel that retains at most
/// `capacity` messages.
pub open spec fn all_possible_within<T>(
    log: LogState<T>,
    capacity: nat,
    events: Seq<Event<T>>,
) -> bool
    decreases events.len(),
{
    events.len() > 0 ==> {
        &&& all_possible_within(log, capacity, events.drop_last())
        &&& possible_within(run(log, events.drop_last()), capacity, events.last())
    }
}

/// What `events` publish, in order.
pub open spec fn published<T>(events: Seq<Event<T>>) -> Seq<T>
    decreases events.len(),
{
    if events.len() == 0 {
        Seq::empty()
    } else {
        match events.last() {
            Event::Publish(msg) => published(events.drop_last()).push(msg),
            _ => published(events.drop_last()),
        }
    }
}

/// What the receiver `id` reads in the course of `events`, in order.
pub open spec fn received<T>(log: LogState<T>, events: Seq<Event<T>>, id: SlotId) -> Seq<T>
    decreases events.len(),
{
    if events.len() == 0 {
        Seq::empty()
    } else {
        let before = received(log, events.drop_last(), id);
        if events.last() == Event::<T>::Receive(id) {
            before.push(run(log, events.drop_last()).unread(id)[0])
        } else {
            before
        }
    }
}

/// Whether the receiver `id` stays subscribed throughout `events`.
pub open spec fn stays<T>(events: Seq<Event<T>>, id: SlotId) -> bool {
    forall|i: int| 0 <= i < events.len() ==> (#[trigger] events[i]) != Event::<T>::Unsubscribe(id)
}

/// Lossless delivery in publication order: what a receiver reads, followed by what it still has
/// to read, is what it had to read before, followed by everything published since. Nothing is
/// lost, repeated or reordered, whatever the other receivers do.
pub proof fn nothing_is_lost_or_reordered<T>(
    log: LogState<T>,
    events: Seq<Event<T>>,
    id: SlotId,
)
    requires
        log.valid(),
        log.active(id),
        all_possible(log, events),
        stays(events, id),
    ensures
        run(log, events).valid(),
        run(log, events).active(id),
        received(log, events, id) + run(log, events).unread(id) == log.unread(id) + published(
            events,
        ),
    decreases events.len(),
{
    if events.len() == 0 {
        assert(received(log, events, id) + run(log, events).unread(id) =~= log.unread(id)
            + published(events));
    } else {
        let earlier = events.drop_last();
        let last = events.last();
        assert(forall|i: int| 0 <= i < earlier.len() ==> (#[trigger] earlier[i]) == events[i]);
        nothing_is_lost_or_reordered(log, earlier, id);
        let before = run(log, earlier);
        assert(events[events.len() - 1] != Event::<T>::Unsubscribe(id));
        step_keeps_cursors_valid(before, last);
        assert(before.active(id));
        match last {
            Event::Publish(msg) => {
                assert(step(before, last).unread(id) =~= before.unread(id).push(msg));
                assert(received(log, events, id) + run(log, events).unread(id) =~= (received(
                    log,
                    earlier,
                    id,
                ) + before.unread(id)).push(msg));
                assert(log.unread(id) + published(events) =~= (log.unread(id) + published(
                    earlier,
                )).push(msg));
            },
            Event::Receive(reader) => {
                if reader == id {
                    assert(before.unread(id) =~= seq![before.unread(id)[0]] + step(
                        before,
                        last,
                    ).unread(id));
                    assert(received(log, events, id) + run(log, events).unread(id) =~= received(
                        log,
                        earlier,
                        id,
                    ) + before.unread(id));
                }
            },
            _ => {},
        }
    }
}

/// A new subscription sees exactly what is published from then on: every message, once and in
/// order, and none from before.
pub proof fn a_subscription_sees_what_follows<T>(
    log: LogState<T>,
    id: SlotId,
    events: Seq<Event<T>>,
)
    requires
        log.valid(),
        !log.active(id),
        all_possible(log.subscribe(id), events),
        stays(events, id),
    ensures
        received(log.subscribe(id), events, id) + run(log.subscribe(id), events).unread(id)
            == published(events),
{
    step_keeps_cursors_valid(log, Event::Subscribe(id));
    nothing_is_lost_or_reordered(log.subscribe(id), events, id);
    assert(log.subscribe(id).unread(id) + published(events) =~= published(events));
}

/// Whatever happens to a log, its cursors stay within its history.
pub proof fn step_keeps_cursors_valid<T>(log: LogState<T>, event: Event<T>)
    requires
        log.valid(),
        possible(log, event),
    ensures
        step(log, event).valid(),
{
    let after = step(log, event);
    assert forall|id: SlotId| #[trigger] after.active(id) implies after.cursors[id]
        <= after.history.len() by {
        assert(log.active(id) || event == Event::<T>::Subscribe(id));
    }
}

/// The order of publication is the order of the log: the history only ever grows at its end, by
/// exactly what is published.
pub proof fn history_is_publication_order<T>(log: LogState<T>, events: Seq<Event<T>>)
    ensures
        run(log, events).history == log.history + published(events),
    decreases events.len(),
{
    if events.len() == 0 {
        assert(run(log, events).history =~= log.history + published(events));
    } else {
        history_is_publication_order(log, events.drop_last());
        assert(run(log, events).history =~= log.history + published(events));
    }
}

/// Two receivers with the same messages still to read are going to read the same messages in the
/// same order: as far as both have come, they have read the same.
pub proof fn receivers_agree_on_the_order<T>(
    log: LogState<T>,
    events: Seq<Event<T>>,
    a: SlotId,
    b: SlotId,
    n: int,
)
    requires
        log.valid(),
        log.active(a),
        log.active(b),
        log.unread(a) == log.unread(b),
        all_possible(log, events),
        stays(events, a),
        stays(events, b),
        0 <= n < received(log, events, a).len(),
        n < received(log, events, b).len(),
    ensures
        received(log, events, a)[n] == received(log, events, b)[n],
{
    nothing_is_lost_or_reordered(log, events, a);
    nothing_is_lost_or_reordered(log, events, b);
    let all = log.unread(a) + published(events);
    assert((received(log, events, a) + run(log, events).unread(a))[n] == all[n]);
    assert((received(log, events, b) + run(log, events).unread(b))[n] == all[n]);
}

/// A channel that starts within its capacity never retains more than that.
pub proof fn capacity_is_never_exceeded<T>(
    log: LogState<T>,
    capacity: nat,
    events: Seq<Event<T>>,
)
    requires
        log.valid(),
        within(log, capacity),
        all_possible_within(log, capacity, events),
    ensures
        run(log, events).valid(),
        within(run(log, events), capacity),
    decreases events.len(),
{
    if events.len() > 0 {
        capacity_is_never_exceeded(log, capacity, events.drop_last());
        let before = run(log, events.drop_last());
        let after = run(log, events);
        step_keeps_cursors_valid(before, events.last());
        assert forall|id: SlotId| #[trigger] after.active(id) implies after.unread(id).len()
            <= capacity by {
            assert(before.active(id) || events.last() == Event::<T>::Subscribe(id));
            assert(after.valid());
        }
    }
}

/// The length of the shared backlog is a function of the log.
pub proof fn retained_count_is_determined<T>(log: LogState<T>, a: nat, b: nat)
    requires
        log.retains(a),
        log.retains(b),
    ensures
        a == b,
{
    if a > 0 {
        let id = choose|id: SlotId| #[trigger] log.active(id) && log.unread(id).len() == a;
        assert(log.active(id));
    }
    if b > 0 {
        let id = choose|id: SlotId| #[trigger] log.active(id) && log.unread(id).len() == b;
        assert(log.active(id));
    }
}

/// A message published reaches every active receiver, as the last of what it has to read.
pub proof fn publication_reaches_every_receiver<T>(log: LogState<T>, msg: T, id: SlotId)
    requires
        log.valid(),
        log.active(id),
    ensures
        log.publish(msg).active(id),
        log.publish(msg).unread(id) == log.unread(id).push(msg),
{
    assert(log.publish(msg).unread(id) =~= log.unread(id).push(msg));
}

/// With a receiver there, a publication makes the backlog one message longer.
pub proof fn publication_extends_the_backlog<T>(log: LogState<T>, msg: T, n: nat)
    requires
        log.valid(),
        log.has_receivers(),
        log.retains(n),
    ensures
        log.publish(msg).retains(n + 1),
{
    let after = log.publish(msg);
    assert forall|id: SlotId| #[trigger] after.active(id) implies after.unread(id).len() <= n
        + 1 by {
        assert(log.active(id));
    }
    if n == 0 {
        let id = choose|id: SlotId| log.active(id);
        assert(after.active(id) && after.unread(id).len() == n + 1);
    } else {
        let id = choose|id: SlotId| #[trigger] log.active(id) && log.unread(id).len() == n;
        assert(after.active(id) && after.unread(id).len() == n + 1);
    }
}

/// A channel turns a value away if and only if a receiver is there and the backlog is as long as
/// the capacity.
pub proof fn refused_exactly_at_capacity<T, W>(channel: BoundedChannel<T, W>, k: nat)
    requires
        channel.wf(),
        channel@.log.retains(k),
    ensures
        channel.is_full() <==> channel@.log.has_receivers() && k == channel.limit(),
        k <= channel.limit(),
{
    channel.lemma_wf();
    let log = channel@.log;
    if channel.is_full() {
        let id = choose|id: SlotId| #[trigger]
            log.active(id) && log.unread(id).len() >= channel.limit();
        assert(log.active(id));
    }
    if k > 0 {
        let id = choose|id: SlotId| #[trigger] log.active(id) && log.unread(id).len() == k;
        assert(log.active(id));
    }
}

/// A value that is accepted while receivers are there displaces nothing: it follows what each
/// receiver has to read, and the backlog grows by one, within the capacity.
pub proof fn an_accepted_value_reaches_every_receiver<T, W>(
    channel: BoundedChannel<T, W>,
    value: T,
    k: nat,
)
    requires
        channel.wf(),
        !channel.is_full(),
        channel@.log.has_receivers(),
        channel@.log.retains(k),
    ensures
        forall|id: SlotId| #[trigger]
            channel@.log.active(id) ==> {
                &&& channel@.publish(value).log.active(id)
                &&& channel@.publish(value).log.unread(id) == channel@.log.unread(id).push(value)
            },
        channel@.publish(value).log.retains(k + 1),
        k + 1 <= channel.limit(),
{
    channel.lemma_wf();
    refused_exactly_at_capacity(channel, k);
    publication_extends_the_backlog(channel@.log, value, k);
    assert forall|id: SlotId| #[trigger] channel@.log.active(id) implies {
        &&& channel@.publish(value).log.active(id)
        &&& channel@.publish(value).log.unread(id) == channel@.log.unread(id).push(value)
    } by {
        publication_reaches_every_receiver(channel@.log, value, id);
    }
}

/// The publication of `msgs`, one after the other.
pub open spec fn publications<T>(msgs: Seq<T>) -> Seq<Event<T>> {
    msgs.map_values(|msg: T| Event::Publish(msg))
}

/// What a run of publications amounts to.
proof fn lemma_publications<T>(log: LogState<T>, msgs: Seq<T>)
    ensures
        run(log, publications(msgs)) == (LogState { history: log.history + msgs, ..log }),
    decreases msgs.len(),
{
    let events = publications(msgs);
    if msgs.len() > 0 {
        lemma_publications(log, msgs.drop_last());
        assert(events.drop_last() =~= publications(msgs.drop_last()));
        assert(log.history + msgs =~= (log.history + msgs.drop_last()).push(msgs.last()));
    } else {
        assert(log.history + msgs =~= log.history);
    }
}

/// While its receivers read nothing, a drained channel takes as many values as its capacity, and
/// turns every later one away.
pub proof fn a_drained_channel_takes_its_capacity<T>(
    log: LogState<T>,
    capacity: nat,
    msgs: Seq<T>,
)
    requires
        log.valid(),
        log.has_receivers(),
        forall|id: SlotId| #[trigger] log.active(id) ==> log.unread(id).len() == 0,
    ensures
        full(run(log, publications(msgs)), capacity) <==> msgs.len() >= capacity,
        all_possible_within(log, capacity, publications(msgs)) <==> msgs.len() <= capacity,
    decreases msgs.len(),
{
    let after = run(log, publications(msgs));
    lemma_publications(log, msgs);
    let receiver = choose|id: SlotId| log.active(id);
    assert(after.active(receiver));
    assert forall|id: SlotId| #[trigger] after.active(id) implies after.unread(id).len()
        == msgs.len() by {
        assert(log.active(id));
    }
    if msgs.len() > 0 {
        a_drained_channel_takes_its_capacity(log, capacity, msgs.drop_last());
        assert(publications(msgs).drop_last() =~= publications(msgs.drop_last()));
    }
}

/// Without receivers nothing is retained, nothing that is published is retained, and the channel
/// is not full, so that a send never waits.
pub proof fn without_receivers_nothing_is_retained<T>(log: LogState<T>, msg: T, capacity: nat)
    requires
        !log.has_receivers(),
    ensures
        log.retains(0),
        log.publish(msg).retains(0),
        !log.publish(msg).has_receivers(),
        !full(log, capacity),
{
    assert forall|id: SlotId| !log.publish(msg).active(id) by {
        assert(!log.active(id));
    }
}

/// A subscription starts at the publication boundary: the new receiver has nothing to read, the
/// others have what they had, and the backlog keeps its length.
pub proof fn subscription_starts_at_the_tail<T>(log: LogState<T>, id: SlotId, n: nat)
    requires
        log.valid(),
        !log.active(id),
        log.retains(n),
    ensures
        log.subscribe(id).unread(id) == Seq::<T>::empty(),
        forall|other: SlotId|
            log.active(other) ==> #[trigger] log.subscribe(id).unread(other) == log.unread(other),
        log.subscribe(id).retains(n),
        forall|capacity: nat|
            capacity > 0 ==> #[trigger] full(log.subscribe(id), capacity) == full(log, capacity),
{
    let after = log.subscribe(id);
    assert(after.unread(id) =~= Seq::<T>::empty());
    assert forall|other: SlotId| #[trigger] after.active(other) implies after.unread(other).len()
        <= n by {
        assert(other != id ==> log.active(other));
    }
    if n > 0 {
        let slowest = choose|slowest: SlotId| #[trigger]
            log.active(slowest) && log.unread(slowest).len() == n;
        assert(after.active(slowest) && after.unread(slowest).len() == n);
    }
    assert forall|capacity: nat| capacity > 0 implies #[trigger] full(after, capacity) == full(
        log,
        capacity,
    ) by {
        if full(log, capacity) {
            let slowest = choose|slowest: SlotId| #[trigger]
                log.active(slowest) && log.unread(slowest).len() >= capacity;
            assert(after.active(slowest) && after.unread(slowest).len() >= capacity);
        }
        if full(after, capacity) {
            let slowest = choose|slowest: SlotId| #[trigger]
                after.active(slowest) && after.unread(slowest).len() >= capacity;
            assert(log.active(slowest) && log.unread(slowest).len() >= capacity);
        }
    }
}

/// A read takes the first of what the receiver has to read and leaves every other receiver where
/// it is.
pub proof fn receivers_advance_independently<T>(log: LogState<T>, id: SlotId)
    requires
        log.valid(),
        log.active(id),
        log.unread(id).len() > 0,
    ensures
        log.unread(id) == seq![log.unread(id)[0]] + log.receive(id).unread(id),
        forall|other: SlotId|
            other != id && log.active(other) ==> #[trigger] log.receive(id).unread(other)
                == log.unread(other),
{
    assert(log.unread(id) =~= seq![log.unread(id)[0]] + log.receive(id).unread(id));
}

/// A read shortens the backlog, by one message, if and only if its receiver trails all others;
/// the fast receivers' reads release nothing.
pub proof fn only_the_slowest_receiver_releases<T>(log: LogState<T>, id: SlotId, n: nat)
    requires
        log.valid(),
        log.active(id),
        log.unread(id).len() > 0,
        log.retains(n),
    ensures
        log.trails_alone(id) ==> n > 0 && log.receive(id).retains((n - 1) as nat),
        !log.trails_alone(id) ==> log.receive(id).retains(n),
{
    let after = log.receive(id);
    assert(log.active(id));
    assert(n > 0);
    let slowest = choose|slowest: SlotId| #[trigger]
        log.active(slowest) && log.unread(slowest).len() == n;
    assert(log.active(slowest));
    assert forall|other: SlotId| #[trigger] after.active(other) implies log.active(other) by {}
    if log.trails_alone(id) {
        assert(slowest == id);
        assert(after.active(id));
        assert forall|other: SlotId| #[trigger] after.active(other) implies after.unread(
            other,
        ).len() <= n - 1 by {
            assert(log.active(other));
        }
        if n > 1 {
            assert(after.active(id) && after.unread(id).len() == n - 1);
        }
    } else {
        assert forall|other: SlotId| #[trigger] after.active(other) implies after.unread(
            other,
        ).len() <= n by {
            assert(log.active(other));
        }
        let level = choose|level: SlotId| #[trigger]
            log.active(level) && level != id && log.cursors[id] >= log.cursors[level];
        if slowest == id {
            assert(after.active(level) && after.unread(level).len() == n);
        } else {
            assert(after.active(slowest) && after.unread(slowest).len() == n);
        }
    }
}

/// One read by a receiver that alone holds a full channel back frees one slot.
pub proof fn a_read_by_the_slowest_frees_a_slot<T>(log: LogState<T>, id: SlotId, capacity: nat)
    requires
        log.valid(),
        log.active(id),
        capacity > 0,
        log.retains(capacity),
        log.trails_alone(id),
        log.unread(id).len() > 0,
    ensures
        full(log, capacity),
        !full(log.receive(id), capacity),
        log.receive(id).retains((capacity - 1) as nat),
{
    only_the_slowest_receiver_releases(log, id, capacity);
    let slowest = choose|slowest: SlotId| #[trigger]
        log.active(slowest) && log.unread(slowest).len() == capacity;
    assert(log.active(slowest) && log.unread(slowest).len() >= capacity);
    assert forall|other: SlotId| log.receive(id).active(other) implies log.receive(id).unread(
        other,
    ).len() < capacity by {
        assert(log.receive(id).active(other));
    }
}

/// A receiver that leaves takes nothing from the others, and releases exactly the backlog that it
/// alone was holding: what is left is what the slowest of the others has to read.
pub proof fn departure_releases_only_its_own_backlog<T>(log: LogState<T>, id: SlotId, n: nat, m: nat)
    requires
        log.valid(),
        log.active(id),
        log.retains(n),
        log.unsubscribe(id).retains(m),
    ensures
        m <= n,
        forall|other: SlotId|
            other != id && log.active(other) ==> {
                &&& log.unsubscribe(id).active(other)
                &&& #[trigger] log.unsubscribe(id).unread(other) == log.unread(other)
                &&& log.unread(other).len() <= m
            },
        m < n ==> log.unread(id).len() == n,
{
    let after = log.unsubscribe(id);
    if m > 0 {
        let slowest = choose|slowest: SlotId| #[trigger]
            after.active(slowest) && after.unread(slowest).len() == m;
        assert(log.active(slowest));
    }
    assert forall|other: SlotId| other != id && log.active(other) implies {
        &&& after.active(other)
        &&& #[trigger] after.unread(other) == log.unread(other)
        &&& log.unread(other).len() <= m
    } by {
        assert(after.active(other));
    }
    if m < n {
        let slowest = choose|slowest: SlotId| #[trigger]
            log.active(slowest) && log.unread(slowest).len() == n;
        if slowest != id {
            assert(after.active(slowest));
        }
    }
}

/// A departure makes a waiting producer due if and only if it shortens the backlog or leaves no
/// receiver.
pub proof fn a_departure_that_frees_room_wakes_the_producer<T, W>(
    state: ChannelState<T, W>,
    id: SlotId,
    n: nat,
    m: nat,
)
    requires
        state.log.valid(),
        state.log.active(id),
        state.log.retains(n),
        state.unsubscribe(id).log.retains(m),
    ensures
        state.departure_releases(id) <==> m < n || !state.unsubscribe(id).log.has_receivers(),
        state.departure_releases(id) ==> state.unsubscribe(id).producer is None,
        !state.departure_releases(id) ==> state.unsubscribe(id).producer == state.producer,
{
    let log = state.log;
    let left = state.unsubscribe(id).log;
    departure_releases_only_its_own_backlog(log, id, n, m);
    assert(log.active(id));
    if log.unread(id).len() > 0 && log.trails_alone(id) {
        if m > 0 {
            let next = choose|next: SlotId| #[trigger]
                left.active(next) && left.unread(next).len() == m;
            assert(log.active(next) && next != id);
        }
    }
    if m < n {
        assert forall|other: SlotId| #[trigger] log.active(other) && other != id implies
            log.cursors[id] < log.cursors[other] by {
            assert(left.active(other));
        }
    }
}

/// A slot that was subscribed and unsubscribed again leaves no trace.
pub proof fn unsubscribing_undoes_subscribing<T>(log: LogState<T>, id: SlotId)
    requires
        !log.active(id),
    ensures
        log.subscribe(id).unsubscribe(id) == log,
{
    assert(log.subscribe(id).unsubscribe(id).cursors =~= log.cursors);
}

/// What happens to a channel happens to its log as one event, and parking and disconnection leave
/// the log alone. What is proved of runs of events therefore holds of channels.
pub proof fn a_channel_drives_its_log_by_events<T, W>(
    state: ChannelState<T, W>,
    msg: T,
    id: SlotId,
    token: WakerToken,
    waker: W,
)
    ensures
        state.publish(msg).log == step(state.log, Event::Publish(msg)),
        state.subscribe(id).log == step(state.log, Event::Subscribe(id)),
        state.receive(id).log == step(state.log, Event::Receive(id)),
        state.unsubscribe(id).log == step(state.log, Event::Unsubscribe(id)),
        state.disconnect().log == state.log,
        state.park(id, token, waker).log == state.log,
        state.unpark(token).log == state.log,
        state.park_producer(Some(waker)).log == state.log,
        state.park_producer(None).log == state.log,
{
}

/// Disconnection takes nothing from anyone: each receiver still has to read what it had to read.
pub proof fn disconnection_keeps_the_backlog<T, W>(state: ChannelState<T, W>)
    ensures
        state.disconnect().log == state.log,
        !state.disconnect().connected,
        state.disconnect().parked() == Seq::<W>::empty(),
{
    assert(state.disconnect().parked() =~= Seq::<W>::empty());
}

/// No wake-up is lost on the receiving side. A receiver is parked only while it has nothing to
/// read and the sender is there; a publication and the sender's departure, which are all that can
/// end that, leave no receiver parked.
pub proof fn a_parked_receiver_has_nothing_to_read<T, W>(
    state: ChannelState<T, W>,
    id: SlotId,
    token: Option<WakerToken>,
    msg: T,
)
    requires
        state.valid(),
        state.log.active(id),
        state.parked_at(id, token),
    ensures
        state.log.unread(id).len() == 0,
        state.connected,
        !state.publish(msg).parked_at(id, token),
        !state.disconnect().parked_at(id, token),
{
    assert(state.waiters[token->0.index()] is Some);
}

/// The wakers in `slots` are those of its occupied positions, each at its own place.
proof fn lemma_occupant_is_listed<W>(slots: Seq<Option<Waiter<W>>>, i: int)
    requires
        0 <= i < slots.len(),
        slots[i] is Some,
    ensures
        wakers(occupants(slots)).contains(slots[i]->0.waker),
    decreases slots.len(),
{
    let rest = slots.drop_last();
    let listed = wakers(occupants(slots));
    if i == slots.len() - 1 {
        assert(listed[listed.len() - 1] == slots[i]->0.waker);
    } else {
        lemma_occupant_is_listed(rest, i);
        let earlier = wakers(occupants(rest));
        let j = choose|j: int| 0 <= j < earlier.len() && earlier[j] == slots[i]->0.waker;
        assert(listed[j] == earlier[j]);
    }
}

/// A waker that is parked is among those that the next publication, or the sender's departure,
/// makes due.
pub proof fn a_parked_waker_is_due_next<T, W>(
    state: ChannelState<T, W>,
    id: SlotId,
    token: Option<WakerToken>,
)
    requires
        state.parked_at(id, token),
    ensures
        state.parked().contains(slot_at(state.waiters, token->0.index())->0.waker),
{
    lemma_occupant_is_listed(state.waiters, token->0.index());
}

/// The place among the parked wakers of the one in slot `i`.
pub open spec fn place_among_parked<W>(waiters: Seq<Option<Waiter<W>>>, i: int) -> int {
    occupants(waiters.take(i)).len() as int
}

/// Whether the place `p` among the parked wakers is that of an occupied slot.
pub open spec fn place_is_taken<W>(waiters: Seq<Option<Waiter<W>>>, p: int) -> bool {
    exists|i: int|
        0 <= i < waiters.len() && (#[trigger] waiters[i]) is Some && place_among_parked(waiters, i)
            == p
}

/// What the first slots hold comes first among the wakers.
proof fn lemma_occupants_of_prefix<W>(waiters: Seq<Option<Waiter<W>>>, i: int)
    requires
        0 <= i <= waiters.len(),
    ensures
        occupants(waiters.take(i)).len() <= occupants(waiters).len(),
        forall|p: int|
            0 <= p < occupants(waiters.take(i)).len() ==> (#[trigger] occupants(waiters)[p])
                == occupants(waiters.take(i))[p],
    decreases waiters.len() - i,
{
    if i == waiters.len() {
        assert(waiters.take(i) =~= waiters);
    } else {
        lemma_occupants_of_prefix(waiters, i + 1);
        assert(waiters.take(i + 1).drop_last() =~= waiters.take(i));
        let shorter = occupants(waiters.take(i));
        let longer = occupants(waiters.take(i + 1));
        assert forall|p: int| 0 <= p < shorter.len() implies (#[trigger] occupants(waiters)[p])
            == shorter[p] by {
            assert(longer[p] == shorter[p]);
        }
    }
}

/// The slot whose waker has the place `p` among the parked ones.
proof fn lemma_place_is_taken<W>(waiters: Seq<Option<Waiter<W>>>, p: int) -> (i: int)
    requires
        0 <= p < occupants(waiters).len(),
    ensures
        0 <= i < waiters.len(),
        waiters[i] is Some,
        place_among_parked(waiters, i) == p,
    decreases waiters.len(),
{
    let rest = waiters.drop_last();
    let last = waiters.len() - 1;
    assert(waiters.take(last) =~= rest);
    if waiters.last() is Some && p == occupants(rest).len() {
        last
    } else {
        let i = lemma_place_is_taken(rest, p);
        assert(rest.take(i) =~= waiters.take(i));
        i
    }
}

/// Every parked waker is handed out exactly once: each occupied slot has a place of its own among
/// the wakers that become due, its waker stands there, and no place is left over.
pub proof fn every_parked_waker_is_handed_out_once<T, W>(state: ChannelState<T, W>)
    ensures
        forall|i: int|
            0 <= i < state.waiters.len() && (#[trigger] state.waiters[i]) is Some ==> {
                let place = place_among_parked(state.waiters, i);
                0 <= place < state.parked().len() && state.parked()[place]
                    == state.waiters[i]->0.waker
            },
        forall|i: int, j: int|
            0 <= i < j < state.waiters.len() && (#[trigger] state.waiters[i]) is Some && (
            #[trigger] state.waiters[j]) is Some ==> place_among_parked(state.waiters, i)
                < place_among_parked(state.waiters, j),
        forall|p: int|
            0 <= p < state.parked().len() ==> #[trigger] place_is_taken(state.waiters, p),
{
    let waiters = state.waiters;
    assert forall|i: int| 0 <= i < waiters.len() && (#[trigger] waiters[i]) is Some implies {
        let place = place_among_parked(waiters, i);
        0 <= place < state.parked().len() && state.parked()[place] == waiters[i]->0.waker
    } by {
        lemma_slot_has_its_place(waiters, i);
    }
    assert forall|i: int, j: int|
        0 <= i < j < waiters.len() && (#[trigger] waiters[i]) is Some && (
        #[trigger] waiters[j]) is Some implies place_among_parked(waiters, i)
        < place_among_parked(waiters, j) by {
        lemma_occupants_of_prefix(waiters.take(j), i + 1);
        assert(waiters.take(j).take(i + 1) =~= waiters.take(i + 1));
        assert(waiters.take(i + 1).drop_last() =~= waiters.take(i));
    }
    assert forall|p: int| 0 <= p < state.parked().len() implies #[trigger] place_is_taken(
        waiters,
        p,
    ) by {
        let i = lemma_place_is_taken(waiters, p);
        assert(waiters[i] is Some);
    }
}

/// The waker of an occupied slot stands in its place.
proof fn lemma_slot_has_its_place<W>(waiters: Seq<Option<Waiter<W>>>, i: int)
    requires
        0 <= i < waiters.len(),
        waiters[i] is Some,
    ensures
        place_among_parked(waiters, i) < occupants(waiters).len(),
        occupants(waiters)[place_among_parked(waiters, i)] == waiters[i]->0,
{
    assert(waiters.take(i + 1).drop_last() =~= waiters.take(i));
    lemma_occupants_of_prefix(waiters, i + 1);
    assert(occupants(waiters.take(i + 1))[place_among_parked(waiters, i)] == waiters[i]->0);
}

/// A publication and the sender's departure make every parked receiver due, and leave none parked
/// that could become due a second time. Only a receive that waits parks one again.
pub proof fn every_parked_receiver_becomes_due_once<T, W>(
    state: ChannelState<T, W>,
    msg: T,
    id: SlotId,
)
    ensures
        state.subscribe(id).parked() == state.parked(),
        state.receive(id).parked() == state.parked(),
        state.unsubscribe(id).parked() == state.parked(),
        state.publish(msg).parked() == Seq::<W>::empty(),
        state.disconnect().parked() == Seq::<W>::empty(),
{
    assert(state.publish(msg).parked() =~= Seq::<W>::empty());
    assert(state.disconnect().parked() =~= Seq::<W>::empty());
}

/// A receive that parks and is given up leaves the channel as it was: the log is the same, and the
/// same wakers are parked in the same slots.
pub proof fn cancelling_undoes_parking<T, W>(
    state: ChannelState<T, W>,
    id: SlotId,
    token: WakerToken,
    waker: W,
)
    requires
        0 <= token.index() <= state.waiters.len(),
        slot_at(state.waiters, token.index()) is None,
    ensures
        state.park(id, token, waker).unpark(token).log == state.log,
        state.park(id, token, waker).unpark(token).producer == state.producer,
        state.park(id, token, waker).unpark(token).connected == state.connected,
        forall|i: int| #[trigger]
            slot_at(state.park(id, token, waker).unpark(token).waiters, i) == slot_at(
                state.waiters,
                i,
            ),
        state.park(id, token, waker).unpark(token).parked() == state.parked(),
{
    let after = state.park(id, token, waker).unpark(token).waiters;
    if token.index() < state.waiters.len() {
        assert(after =~= state.waiters);
    } else {
        assert(after =~= state.waiters.push(None));
        assert(after.drop_last() =~= state.waiters);
    }
}

/// A send that waits, however often it is polled, and is given up leaves nothing behind: nothing is
/// published, no receiver's waker moves, and the producer is not parked.
pub proof fn cancelling_a_send_undoes_parking<T, W>(
    state: ChannelState<T, W>,
    waker: W,
    again: W,
)
    ensures
        state.park_producer(Some(waker)).park_producer(Some(again)) == state.park_producer(
            Some(again),
        ),
        state.park_producer(Some(waker)).park_producer(None) == state.park_producer(None),
        state.park_producer(None).log == state.log,
        state.park_producer(None).waiters == state.waiters,
        state.producer is None ==> state.park_producer(Some(waker)).park_producer(None) == state,
{
}

/// What others do in between does not move a parked waker, other than unparking it: while no
/// message is published and the sender stays, it is where its receive left it.
pub proof fn parking_outlasts_what_others_do<T, W>(
    state: ChannelState<T, W>,
    id: SlotId,
    token: Option<WakerToken>,
    other: SlotId,
)
    requires
        state.parked_at(id, token),
    ensures
        state.subscribe(other).parked_at(id, token),
        state.receive(other).parked_at(id, token),
        state.unsubscribe(other).parked_at(id, token),
{
}

/// A receive that is given up takes its own waker out and leaves those of the other receivers
/// parked. A slot that has passed to another receiver is not its own any more.
pub proof fn cancelling_keeps_other_receivers_parked<T, W>(
    state: ChannelState<T, W>,
    id: SlotId,
    token: Option<WakerToken>,
    other: SlotId,
    other_token: Option<WakerToken>,
)
    requires
        other != id,
        state.parked_at(other, other_token),
    ensures
        state.parked_at(id, token) ==> {
            &&& state.unpark(token->0).parked_at(other, other_token)
            &&& !state.unpark(token->0).parked_at(id, token)
        },
        token == other_token ==> !state.parked_at(id, token),
{
}

/// No wake-up is lost on the sending side. The producer is parked only while the channel is full;
/// a read or a departure that ends that unparks it.
pub proof fn a_parked_producer_has_a_full_channel<T, W>(channel: BoundedChannel<T, W>, id: SlotId)
    requires
        channel.wf(),
        channel@.producer is Some,
        channel@.log.active(id),
    ensures
        channel.is_full(),
        channel@.log.unread(id).len() > 0 && !full(channel@.receive(id).log, channel.limit())
            ==> channel@.receive(id).producer is None,
        !full(channel@.unsubscribe(id).log, channel.limit()) ==> channel@.unsubscribe(
            id,
        ).producer is None,
{
    channel.lemma_wf();
    let log = channel@.log;
    let slowest = choose|slowest: SlotId| #[trigger]
        log.active(slowest) && log.unread(slowest).len() >= channel.limit();
    assert(log.active(slowest));
    if !log.trails_alone(id) {
        let level = choose|level: SlotId| #[trigger]
            log.active(level) && level != id && log.cursors[id] >= log.cursors[level];
        assert(log.active(level));
        let reader = if slowest == id {
            level
        } else {
            slowest
        };
        let read = channel@.receive(id).log;
        let left = channel@.unsubscribe(id).log;
        assert(read.active(reader) && read.unread(reader).len() >= channel.limit());
        assert(left.active(reader) && left.unread(reader).len() >= channel.limit());
    } else if slowest != id {
        assert(log.cursors[id] < log.cursors[slowest]);
        assert(log.active(id));
        assert(log.unread(id).len() > log.unread(slowest).len());
    }
}

} // verus!
