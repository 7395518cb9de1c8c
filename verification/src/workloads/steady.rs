//! What a step of a benchmark has to leave as it found it.

use crate::broadcast::spmc::common::ChannelState;
use crate::broadcast::spmc::common::Waiter;
use crate::broadcast::spmc::common::WakerToken;
use crate::broadcast::spmc::log::LogState;
use crate::internal::arena::occupants;
use crate::internal::arena::position_tells_the_slot;
use crate::internal::arena::SlotId;
use vstd::prelude::*;

verus! {

/// Whether the active receivers of `log` are exactly `ids`, each of which is listed once.
pub open spec fn subscribed<T>(log: LogState<T>, ids: Seq<SlotId>) -> bool {
    &&& ids.no_duplicates()
    &&& forall|id: SlotId| #[trigger] log.active(id) <==> ids.contains(id)
}

/// Whether no receiver of `log` has anything left to read.
pub open spec fn drained<T>(log: LogState<T>) -> bool {
    forall|id: SlotId| #[trigger] log.active(id) ==> log.unread(id).len() == 0
}

/// Whether nothing is parked on a channel.
pub open spec fn at_rest<T, W>(state: ChannelState<T, W>) -> bool {
    state.waiters.len() == 0 && state.producer is None
}

/// A log is drained exactly where every receiver has the whole history behind it.
pub proof fn a_drained_log_is_behind_everyone<T>(log: LogState<T>)
    requires
        log.valid(),
    ensures
        drained(log) <==> forall|id: SlotId| #[trigger]
            log.cursors.contains_key(id) ==> log.cursors[id] == log.history.len(),
{
    if drained(log) {
        assert forall|id: SlotId| #[trigger] log.cursors.contains_key(id) implies log.cursors[id]
            == log.history.len() by {
            assert(log.active(id));
        }
    }
    if forall|id: SlotId| #[trigger]
        log.cursors.contains_key(id) ==> log.cursors[id] == log.history.len() {
        assert forall|id: SlotId| #[trigger] log.active(id) implies log.unread(id).len() == 0 by {
            assert(log.cursors.contains_key(id));
        }
    }
}

/// The receivers of a log are as many as are listed, and they are those that are listed.
pub proof fn a_log_has_the_listed_receivers<T>(log: LogState<T>, ids: Seq<SlotId>)
    requires
        subscribed(log, ids),
    ensures
        log.cursors.dom() == ids.to_set(),
        log.cursors.dom().len() == ids.len(),
{
    assert forall|id: SlotId| #[trigger] log.cursors.dom().contains(id) <==> ids.to_set().contains(
        id,
    ) by {
        assert(log.active(id) <==> ids.contains(id));
    }
    assert(log.cursors.dom() =~= ids.to_set());
    ids.unique_seq_to_set();
}

/// A channel at rest has no waker parked, neither a receiver's nor the producer's.
pub proof fn a_channel_at_rest_has_nobody_parked<T, W>(state: ChannelState<T, W>)
    requires
        at_rest(state),
    ensures
        state.producer is None,
        forall|id: SlotId, token: WakerToken| !state.parked_at(id, Some(token)),
{
}

/// A subscription adds its receiver to those that are active, and leaves a drained log drained.
pub proof fn lemma_subscribed<T>(log: LogState<T>, ids: Seq<SlotId>, id: SlotId)
    requires
        subscribed(log, ids),
        !log.active(id),
    ensures
        subscribed(log.subscribe(id), ids.push(id)),
        drained(log) ==> drained(log.subscribe(id)),
{
    let after = log.subscribe(id);
    let longer = ids.push(id);
    assert forall|other: SlotId| #[trigger] after.active(other) <==> longer.contains(other) by {
        if after.active(other) {
            if other == id {
                assert(longer[ids.len() as int] == other);
            } else {
                assert(log.active(other));
                let i = choose|i: int| 0 <= i < ids.len() && ids[i] == other;
                assert(longer[i] == other);
            }
        }
        if longer.contains(other) {
            let i = choose|i: int| 0 <= i < longer.len() && longer[i] == other;
            if i < ids.len() {
                assert(ids[i] == other);
                assert(log.active(other));
            }
        }
    }
    assert forall|i: int, j: int| 0 <= i < longer.len() && 0 <= j < longer.len() && i != j implies
        longer[i] != longer[j] by {
        assert(i < ids.len() ==> ids.contains(longer[i]));
        assert(j < ids.len() ==> ids.contains(longer[j]));
        assert(log.active(id) <==> ids.contains(id));
    }
    assert forall|other: SlotId| drained(log) && #[trigger] after.active(other) implies after.unread(
        other,
    ).len() == 0 by {
        if other != id {
            assert(log.active(other));
        }
    }
}

/// The departure of the receiver that is listed last leaves the others as they are.
pub proof fn lemma_unsubscribed<T>(log: LogState<T>, ids: Seq<SlotId>)
    requires
        subscribed(log, ids),
        ids.len() > 0,
    ensures
        subscribed(log.unsubscribe(ids.last()), ids.drop_last()),
        drained(log) ==> drained(log.unsubscribe(ids.last())),
{
    let after = log.unsubscribe(ids.last());
    let fewer = ids.drop_last();
    assert forall|other: SlotId| #[trigger] after.active(other) <==> fewer.contains(other) by {
        assert(log.active(other) <==> ids.contains(other));
        if after.active(other) {
            let i = choose|i: int| 0 <= i < ids.len() && ids[i] == other;
            assert(fewer[i] == other);
        }
        if fewer.contains(other) {
            let i = choose|i: int| 0 <= i < fewer.len() && fewer[i] == other;
            assert(ids[i] == other);
            assert(ids[i] != ids[ids.len() - 1]);
        }
    }
    assert forall|other: SlotId| drained(log) && #[trigger] after.active(other) implies after.unread(
        other,
    ).len() == 0 by {
        assert(log.active(other));
    }
}

/// A log whose receivers are those of another is subscribed as the other is.
pub proof fn lemma_same_receivers<T>(log: LogState<T>, other: LogState<T>, ids: Seq<SlotId>)
    requires
        subscribed(log, ids),
        log.cursors.dom() == other.cursors.dom(),
    ensures
        subscribed(other, ids),
{
    assert forall|id: SlotId| #[trigger] other.active(id) <==> ids.contains(id) by {
        assert(log.active(id) <==> ids.contains(id));
    }
}

/// A receiver that is listed is active.
pub proof fn lemma_listed<T>(log: LogState<T>, ids: Seq<SlotId>, i: int)
    requires
        subscribed(log, ids),
        0 <= i < ids.len(),
    ensures
        log.active(ids[i]),
{
    assert(ids.contains(ids[i]));
    assert(log.active(ids[i]) <==> ids.contains(ids[i]));
}

/// A publication on a drained log leaves each receiver that message to read, and a drained log is
/// not at any capacity.
pub proof fn lemma_published_to_drained<T>(log: LogState<T>, ids: Seq<SlotId>, msg: T)
    requires
        log.valid(),
        subscribed(log, ids),
        drained(log),
    ensures
        log.publish(msg).valid(),
        subscribed(log.publish(msg), ids),
        forall|i: int|
            0 <= i < ids.len() ==> log.publish(msg).unread(#[trigger] ids[i]) == seq![msg],
{
    let after = log.publish(msg);
    lemma_same_receivers(log, after, ids);
    assert forall|id: SlotId| #[trigger] after.active(id) implies after.cursors[id]
        <= after.history.len() by {
        assert(log.active(id));
    }
    assert forall|i: int| 0 <= i < ids.len() implies after.unread(#[trigger] ids[i])
        == seq![msg] by {
        lemma_listed(log, ids, i);
        assert(after.unread(ids[i]) =~= seq![msg]);
    }
}

/// A read leaves the receivers that there are, and what the others have to read.
pub proof fn lemma_read<T>(log: LogState<T>, ids: Seq<SlotId>, id: SlotId)
    requires
        log.valid(),
        subscribed(log, ids),
        log.active(id),
        log.unread(id).len() > 0,
    ensures
        log.receive(id).valid(),
        subscribed(log.receive(id), ids),
        log.receive(id).unread(id) == log.unread(id).drop_first(),
        forall|other: SlotId|
            other != id ==> #[trigger] log.receive(id).unread(other) == log.unread(other),
{
    let after = log.receive(id);
    assert(after.cursors.dom() =~= log.cursors.dom());
    lemma_same_receivers(log, after, ids);
    assert forall|other: SlotId| #[trigger] after.active(other) implies after.cursors[other]
        <= after.history.len() by {
        assert(log.active(other));
    }
    assert(after.unread(id) =~= log.unread(id).drop_first());
}

/// A log is drained where each of its receivers has nothing left to read.
pub proof fn lemma_all_drained<T>(log: LogState<T>, ids: Seq<SlotId>)
    requires
        subscribed(log, ids),
        forall|i: int| 0 <= i < ids.len() ==> log.unread(#[trigger] ids[i]).len() == 0,
    ensures
        drained(log),
{
    assert forall|id: SlotId| #[trigger] log.active(id) implies log.unread(id).len() == 0 by {
        assert(ids.contains(id));
        let i = choose|i: int| 0 <= i < ids.len() && ids[i] == id;
        assert(log.unread(ids[i]).len() == 0);
    }
}

/// The only receiver there is trails alone.
pub proof fn lemma_sole<T>(log: LogState<T>, id: SlotId)
    requires
        subscribed(log, seq![id]),
    ensures
        log.active(id),
        log.trails_alone(id),
{
    lemma_listed(log, seq![id], 0);
    assert forall|other: SlotId| #[trigger] log.active(other) && other != id implies false by {
        assert(seq![id].contains(other));
    }
}

/// One waker is parked where one was parked on a channel at rest.
pub proof fn lemma_parked_alone<W>(waiter: Waiter<W>)
    ensures
        occupants(seq![Some(waiter)]) == seq![waiter],
{
    assert(seq![Some(waiter)].drop_last() =~= Seq::<Option<Waiter<W>>>::empty());
    assert(occupants(Seq::<Option<Waiter<W>>>::empty()) =~= Seq::<Waiter<W>>::empty());
    assert(occupants(seq![Some(waiter)]) =~= seq![waiter]);
}

/// Where every slot holds a waker, each slot's waker is parked in the place of its slot.
pub proof fn lemma_all_parked<W>(waiters: Seq<Option<Waiter<W>>>)
    requires
        forall|i: int| 0 <= i < waiters.len() ==> (#[trigger] waiters[i]) is Some,
    ensures
        occupants(waiters).len() == waiters.len(),
        forall|i: int|
            0 <= i < waiters.len() ==> (#[trigger] occupants(waiters)[i]) == waiters[i]->0,
    decreases waiters.len(),
{
    if waiters.len() > 0 {
        let rest = waiters.drop_last();
        lemma_all_parked(rest);
        assert(waiters[waiters.len() - 1] is Some);
        assert forall|i: int| 0 <= i < waiters.len() implies (#[trigger] occupants(waiters)[i])
            == waiters[i]->0 by {
            if i < rest.len() {
                assert(occupants(rest)[i] == rest[i]->0);
            }
        }
    }
}

/// Nothing becomes due by a publication where nothing is parked.
pub proof fn lemma_none_parked<T, W>(state: ChannelState<T, W>)
    requires
        state.waiters.len() == 0,
    ensures
        state.parked() == Seq::<W>::empty(),
{
    assert(state.parked() =~= Seq::<W>::empty());
}

/// Subscriptions that are listed once each, and whose slots are among the first `slots`, are at
/// most that many.
pub proof fn lemma_slots_suffice(ids: Seq<SlotId>, slots: nat)
    requires
        ids.no_duplicates(),
        forall|i: int| 0 <= i < ids.len() ==> (#[trigger] ids[i]).index() < slots,
    ensures
        ids.len() <= slots,
{
    let positions = ids.map_values(|id: SlotId| id.index());
    assert forall|i: int, j: int|
        0 <= i < positions.len() && 0 <= j < positions.len() && i != j implies positions[i]
        != positions[j] by {
        position_tells_the_slot(ids[i], ids[j]);
    }
    positions.unique_seq_to_set();
    assert forall|position: int| positions.contains(position) implies 0 <= position < slots by {
        let i = choose|i: int| 0 <= i < positions.len() && positions[i] == position;
        position_tells_the_slot(ids[i], ids[i]);
    }
    vstd::set_lib::lemma_int_range(0, slots as int);
    vstd::set_lib::lemma_len_subset(
        positions.to_set(),
        vstd::set_lib::set_int_range(0, slots as int),
    );
}

} // verus!
