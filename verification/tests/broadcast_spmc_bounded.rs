use std::sync::atomic::AtomicUsize;
use std::sync::atomic::Ordering;
use std::sync::Arc;
use std::task::Wake;
use std::task::Waker;

use asyncband::broadcast::spmc::bounded;
use asyncband::broadcast::spmc::common::owned_or_cloned;
use asyncband::broadcast::spmc::common::Poll;
use asyncband::broadcast::spmc::BoundedChannel;
use asyncband::broadcast::spmc::RecvError;
use asyncband::broadcast::spmc::TryRecvError;
use asyncband::broadcast::spmc::TrySendError;

/// Counts how often it is woken.
#[derive(Default)]
struct WakeCounter {
    count: AtomicUsize,
}

impl WakeCounter {
    fn count(&self) -> usize {
        self.count.load(Ordering::SeqCst)
    }
}

impl Wake for WakeCounter {
    fn wake(self: Arc<Self>) {
        self.count.fetch_add(1, Ordering::SeqCst);
    }
}

/// Wakes everything that became due.
fn wake_due<T>(channel: &mut BoundedChannel<T, Waker>) {
    for waker in channel.take_woken() {
        waker.wake();
    }
}

fn is_pending<R>(outcome: Poll<R>) -> bool {
    matches!(outcome, Poll::Pending)
}

fn is_ready<R>(outcome: Poll<R>) -> bool {
    matches!(outcome, Poll::Ready(_))
}

#[test]
fn delivers_every_message_to_every_receiver() {
    let (mut ch, mut tx, mut rx1) = bounded::<i32, ()>(4);
    let mut rx2 = tx.subscribe(&mut ch);

    tx.try_send(&mut ch, 10).ok().unwrap();
    tx.try_send(&mut ch, 20).ok().unwrap();

    assert_eq!(rx1.try_recv(&mut ch), Ok(10));
    assert_eq!(rx1.try_recv(&mut ch), Ok(20));
    assert_eq!(rx2.try_recv(&mut ch), Ok(10));
    assert_eq!(rx2.try_recv(&mut ch), Ok(20));
}

#[test]
fn slow_receiver_keeps_every_message_under_backpressure() {
    let (mut ch, mut tx, mut fast) = bounded::<i32, ()>(2);
    let mut slow = tx.subscribe(&mut ch);

    tx.try_send(&mut ch, 1).ok().unwrap();
    tx.try_send(&mut ch, 2).ok().unwrap();

    // The fast subscription draining does not release anything, because the slow one has read
    // nothing.
    assert_eq!(fast.try_recv(&mut ch), Ok(1));
    assert_eq!(fast.try_recv(&mut ch), Ok(2));
    assert!(tx.try_send(&mut ch, 3) == Err(TrySendError::Full(3)));

    // One read by the slow subscription frees exactly one slot.
    assert_eq!(slow.try_recv(&mut ch), Ok(1));
    tx.try_send(&mut ch, 3).ok().unwrap();

    // Every value accepted while both were active reaches both, in order.
    assert_eq!(slow.try_recv(&mut ch), Ok(2));
    assert_eq!(slow.try_recv(&mut ch), Ok(3));
    assert_eq!(fast.try_recv(&mut ch), Ok(3));
    assert_eq!(tx.retained_message_count(&ch), 0);
}

#[test]
fn subscribe_starts_at_the_committed_tail() {
    let (mut ch, mut tx, _rx) = bounded::<i32, ()>(4);
    tx.try_send(&mut ch, 1).ok().unwrap();

    let mut late = tx.subscribe(&mut ch);
    assert_eq!(late.try_recv(&mut ch), Err(TryRecvError::Empty));

    tx.try_send(&mut ch, 2).ok().unwrap();
    assert_eq!(late.try_recv(&mut ch), Ok(2));
}

#[test]
fn broadcast_spmc_bounded_test_resubscribe_keeps_the_original_receivers_backlog() {
    let (mut ch, mut tx, mut rx) = bounded::<i32, ()>(4);
    tx.try_send(&mut ch, 1).ok().unwrap();
    tx.try_send(&mut ch, 2).ok().unwrap();

    let mut rx2 = rx.resubscribe(&mut ch);
    tx.try_send(&mut ch, 3).ok().unwrap();

    assert_eq!(rx2.try_recv(&mut ch), Ok(3));
    assert_eq!(rx.try_recv(&mut ch), Ok(1));
    assert_eq!(rx.try_recv(&mut ch), Ok(2));
    assert_eq!(rx.try_recv(&mut ch), Ok(3));
}

#[test]
fn broadcast_spmc_bounded_test_unread_message_count_tracks_each_receiver() {
    let (mut ch, mut tx, mut rx1) = bounded::<i32, ()>(4);
    let rx2 = tx.subscribe(&mut ch);

    assert_eq!(rx1.unread_message_count(&ch), 0);

    tx.try_send(&mut ch, 1).ok().unwrap();
    tx.try_send(&mut ch, 2).ok().unwrap();
    assert_eq!(rx1.unread_message_count(&ch), 2);
    assert_eq!(rx2.unread_message_count(&ch), 2);

    assert_eq!(rx1.try_recv(&mut ch), Ok(1));
    assert_eq!(rx1.unread_message_count(&ch), 1);
    assert_eq!(rx2.unread_message_count(&ch), 2);
}

#[test]
fn broadcast_spmc_bounded_test_publish_order_is_program_order() {
    let (mut ch, mut tx, mut rx1) = bounded::<i32, ()>(8);
    let mut rx2 = tx.subscribe(&mut ch);

    for value in 0..8 {
        tx.try_send(&mut ch, value).ok().unwrap();
    }

    for value in 0..8 {
        assert_eq!(rx1.try_recv(&mut ch), Ok(value));
        assert_eq!(rx2.try_recv(&mut ch), Ok(value));
    }
}

#[test]
fn try_send_rejects_at_capacity_and_returns_the_value() {
    let (mut ch, mut tx, mut rx) = bounded::<i32, ()>(2);

    tx.try_send(&mut ch, 1).ok().unwrap();
    tx.try_send(&mut ch, 2).ok().unwrap();
    assert!(tx.try_send(&mut ch, 3) == Err(TrySendError::Full(3)));

    // The rejected value is handed back untouched, and nothing was published.
    assert_eq!(tx.retained_message_count(&ch), 2);
    assert_eq!(rx.try_recv(&mut ch), Ok(1));
    assert_eq!(rx.try_recv(&mut ch), Ok(2));
    assert_eq!(rx.try_recv(&mut ch), Err(TryRecvError::Empty));
}

#[test]
fn capacity_counts_the_shared_backlog_not_receivers() {
    let (mut ch, mut tx, _rx) = bounded::<i32, ()>(2);
    let _extra = (0..8).map(|_| tx.subscribe(&mut ch)).collect::<Vec<_>>();

    // Eight more subscriptions do not consume capacity; only unread messages do.
    tx.try_send(&mut ch, 1).ok().unwrap();
    tx.try_send(&mut ch, 2).ok().unwrap();
    assert!(tx.try_send(&mut ch, 3) == Err(TrySendError::Full(3)));
    assert_eq!(tx.capacity(&ch), 2);
    assert_eq!(tx.retained_message_count(&ch), 2);
}

#[test]
fn broadcast_spmc_bounded_test_retained_message_count_tracks_the_slowest_receiver() {
    let (mut ch, mut tx, mut rx1) = bounded::<i32, ()>(4);
    let mut rx2 = tx.subscribe(&mut ch);

    tx.try_send(&mut ch, 1).ok().unwrap();
    tx.try_send(&mut ch, 2).ok().unwrap();
    assert_eq!(tx.retained_message_count(&ch), 2);

    // Draining one receiver does not release what the other has not read.
    assert_eq!(rx1.try_recv(&mut ch), Ok(1));
    assert_eq!(rx1.try_recv(&mut ch), Ok(2));
    assert_eq!(tx.retained_message_count(&ch), 2);

    assert_eq!(rx2.try_recv(&mut ch), Ok(1));
    assert_eq!(tx.retained_message_count(&ch), 1);
    assert_eq!(rx2.try_recv(&mut ch), Ok(2));
    assert_eq!(tx.retained_message_count(&ch), 0);
}

#[test]
fn send_waits_while_the_slowest_subscription_holds_capacity() {
    let (mut ch, mut tx, mut rx1) = bounded::<i32, Waker>(1);
    let mut rx2 = tx.subscribe(&mut ch);
    tx.try_send(&mut ch, 1).ok().unwrap();

    let mut send = tx.send(2);
    assert!(is_pending(send.poll_send(&mut ch, Waker::noop().clone())));

    // The fast receiver draining is not enough while the slow one still retains the message.
    assert_eq!(rx1.try_recv(&mut ch), Ok(1));
    assert!(is_pending(send.poll_send(&mut ch, Waker::noop().clone())));

    assert_eq!(rx2.try_recv(&mut ch), Ok(1));
    assert!(is_ready(send.poll_send(&mut ch, Waker::noop().clone())));
    assert_eq!(rx1.try_recv(&mut ch), Ok(2));
}

#[test]
fn receive_that_vacates_the_head_wakes_the_blocked_sender() {
    let (mut ch, mut tx, mut rx) = bounded::<i32, Waker>(1);
    tx.try_send(&mut ch, 0).ok().unwrap();

    let tracker = Arc::new(WakeCounter::default());
    let waker = Waker::from(tracker.clone());
    let mut send = tx.send(1);
    assert!(is_pending(send.poll_send(&mut ch, waker.clone())));
    wake_due(&mut ch);
    assert_eq!(tracker.count(), 0);

    assert_eq!(rx.try_recv(&mut ch), Ok(0));
    wake_due(&mut ch);
    assert_eq!(tracker.count(), 1);
    assert!(is_ready(send.poll_send(&mut ch, Waker::noop().clone())));
}

#[test]
fn parked_recv_that_reclaims_wakes_the_blocked_sender() {
    let (mut ch, mut tx, mut rx) = bounded::<i32, Waker>(1);
    tx.try_send(&mut ch, 0).ok().unwrap();

    let tracker = Arc::new(WakeCounter::default());
    let waker = Waker::from(tracker.clone());
    let mut send = tx.send(1);
    assert!(is_pending(send.poll_send(&mut ch, waker.clone())));

    // Reclaim through a receive that could wait rather than `try_recv`.
    let mut recv = rx.recv();
    assert_eq!(recv.poll(&mut ch, Waker::noop().clone()), Poll::Ready(Ok(0)));
    recv.cancel(&mut ch);

    wake_due(&mut ch);
    assert_eq!(tracker.count(), 1);
    assert!(is_ready(send.poll_send(&mut ch, Waker::noop().clone())));
}

#[test]
fn dropping_a_lagging_receiver_wakes_the_blocked_sender() {
    let (mut ch, mut tx, mut rx1) = bounded::<i32, Waker>(1);
    let rx2 = tx.subscribe(&mut ch);
    tx.try_send(&mut ch, 0).ok().unwrap();

    let tracker = Arc::new(WakeCounter::default());
    let waker = Waker::from(tracker.clone());
    let mut send = tx.send(1);
    assert_eq!(rx1.try_recv(&mut ch), Ok(0));
    assert!(is_pending(send.poll_send(&mut ch, waker.clone())));

    // `rx2` is the one holding the backlog; its departure releases the slot.
    rx2.unsubscribe(&mut ch);
    wake_due(&mut ch);
    assert_eq!(tracker.count(), 1);
    assert_eq!(rx1.unread_message_count(&ch), 0);
    assert!(is_ready(send.poll_send(&mut ch, Waker::noop().clone())));
}

#[test]
fn dropping_the_last_receiver_wakes_the_blocked_sender() {
    let (mut ch, mut tx, rx) = bounded::<i32, Waker>(2);
    tx.try_send(&mut ch, 0).ok().unwrap();
    tx.try_send(&mut ch, 1).ok().unwrap();

    let tracker = Arc::new(WakeCounter::default());
    let waker = Waker::from(tracker.clone());
    let mut send = tx.send(10);
    assert!(is_pending(send.poll_send(&mut ch, waker.clone())));

    rx.unsubscribe(&mut ch);
    wake_due(&mut ch);

    assert!(
        tracker.count() > 0,
        "blocked sender was never woken after the last receiver was dropped"
    );
    assert!(is_ready(send.poll_send(&mut ch, Waker::noop().clone())));
}

#[test]
fn sends_never_block_once_all_receivers_are_gone() {
    let (mut ch, mut tx, rx) = bounded::<i32, Waker>(1);
    tx.try_send(&mut ch, 0).ok().unwrap();
    rx.unsubscribe(&mut ch);

    assert_eq!(tx.retained_message_count(&ch), 0);
    tx.try_send(&mut ch, 1).ok().unwrap();
    tx.try_send(&mut ch, 2).ok().unwrap();

    let mut send = tx.send(3);
    assert!(is_ready(send.poll_send(&mut ch, Waker::noop().clone())));
    send.cancel(&mut ch);
    assert_eq!(tx.retained_message_count(&ch), 0);
}

#[test]
fn subscribing_while_the_producer_is_blocked_does_not_release_capacity() {
    let (mut ch, mut tx, rx) = bounded::<i32, Waker>(1);
    tx.try_send(&mut ch, 0).ok().unwrap();

    let mut send = tx.send(1);
    assert!(is_pending(send.poll_send(&mut ch, Waker::noop().clone())));

    // A new cursor starts at the tail, so it cannot lower the retained backlog.
    let _late = rx.resubscribe(&mut ch);
    assert_eq!(rx.unread_message_count(&ch), 1);
    assert!(is_pending(send.poll_send(&mut ch, Waker::noop().clone())));
}

#[test]
fn cancelled_send_publishes_nothing() {
    let (mut ch, mut tx, mut rx) = bounded::<i32, Waker>(1);
    tx.try_send(&mut ch, 0).ok().unwrap();

    let mut send = tx.send(1);
    assert!(is_pending(send.poll_send(&mut ch, Waker::noop().clone())));
    send.cancel(&mut ch);

    // The cancelled value never entered the committed order, so the next receive sees only what
    // was already published, and the one after it is a fresh send.
    assert_eq!(rx.try_recv(&mut ch), Ok(0));
    tx.try_send(&mut ch, 2).ok().unwrap();
    assert_eq!(rx.try_recv(&mut ch), Ok(2));
    assert_eq!(rx.try_recv(&mut ch), Err(TryRecvError::Empty));
}

#[test]
fn broadcast_spmc_bounded_test_cancelled_recv_releases_its_waker() {
    let (mut ch, mut tx, mut rx) = bounded::<i32, Waker>(4);

    let tracker = Arc::new(WakeCounter::default());
    let waker = Waker::from(tracker.clone());
    let baseline = Arc::strong_count(&tracker);

    let mut recv = rx.recv();
    assert!(is_pending(recv.poll(&mut ch, waker.clone())));
    assert_eq!(Arc::strong_count(&tracker), baseline + 1);

    recv.cancel(&mut ch);
    assert_eq!(Arc::strong_count(&tracker), baseline);

    tx.try_send(&mut ch, 1).ok().unwrap();
    wake_due(&mut ch);
    assert_eq!(tracker.count(), 0);
}

#[test]
fn broadcast_spmc_bounded_test_dropping_a_woken_recv_keeps_another_receivers_waiter() {
    let (mut ch, mut tx, mut rx1) = bounded::<i32, Waker>(2);
    let mut rx2 = tx.subscribe(&mut ch);
    let first = Arc::new(WakeCounter::default());
    let waker = Waker::from(first.clone());
    let mut recv1 = rx1.recv();

    assert!(is_pending(recv1.poll(&mut ch, waker.clone())));

    tx.try_send(&mut ch, 1).ok().unwrap();
    wake_due(&mut ch);
    assert_eq!(first.count(), 1);
    assert_eq!(rx2.try_recv(&mut ch), Ok(1));

    let second = Arc::new(WakeCounter::default());
    let waker = Waker::from(second.clone());
    let mut recv2 = rx2.recv();
    assert!(is_pending(recv2.poll(&mut ch, waker.clone())));

    // `recv1` was already woken, so giving it up must not release the slot `recv2` now owns.
    recv1.cancel(&mut ch);
    tx.try_send(&mut ch, 2).ok().unwrap();
    wake_due(&mut ch);

    assert_eq!(second.count(), 1);
}

#[test]
fn broadcast_spmc_bounded_test_recv_drains_buffered_messages_before_reporting_disconnection() {
    let (mut ch, mut tx, mut rx) = bounded::<i32, Waker>(4);
    tx.try_send(&mut ch, 1).ok().unwrap();
    tx.try_send(&mut ch, 2).ok().unwrap();
    tx.disconnect(&mut ch);

    let noop = Waker::noop();
    assert_eq!(rx.recv().poll(&mut ch, noop.clone()), Poll::Ready(Ok(1)));
    assert_eq!(rx.recv().poll(&mut ch, noop.clone()), Poll::Ready(Ok(2)));
    assert_eq!(
        rx.recv().poll(&mut ch, noop.clone()),
        Poll::Ready(Err(RecvError::Disconnected))
    );
}

#[test]
fn broadcast_spmc_bounded_test_recv_reports_disconnection_without_any_message() {
    let (mut ch, tx, mut rx) = bounded::<i32, Waker>(4);
    tx.disconnect(&mut ch);
    assert_eq!(
        rx.recv().poll(&mut ch, Waker::noop().clone()),
        Poll::Ready(Err(RecvError::Disconnected))
    );
}

#[test]
fn broadcast_spmc_bounded_test_parked_recv_wakes_when_the_sender_drops() {
    let (mut ch, tx, mut rx) = bounded::<i32, Waker>(4);

    let tracker = Arc::new(WakeCounter::default());
    let waker = Waker::from(tracker.clone());
    let mut recv = rx.recv();
    assert!(is_pending(recv.poll(&mut ch, waker.clone())));

    tx.disconnect(&mut ch);
    wake_due(&mut ch);
    assert_eq!(tracker.count(), 1);
    assert_eq!(
        recv.poll(&mut ch, Waker::noop().clone()),
        Poll::Ready(Err(RecvError::Disconnected))
    );
}

#[test]
fn a_send_that_is_done_stays_done() {
    let (mut ch, mut tx, mut rx) = bounded::<i32, u8>(1);
    let mut send = tx.send(5);
    assert_eq!(send.poll_send(&mut ch, 1), Poll::Ready(()));
    assert_eq!(send.poll_send(&mut ch, 2), Poll::Ready(()));
    assert_eq!(rx.try_recv(&mut ch), Ok(5));
    assert_eq!(rx.try_recv(&mut ch), Err(TryRecvError::Empty));
}

#[test]
fn a_second_poll_replaces_the_parked_waker() {
    let (mut ch, mut tx, mut rx) = bounded::<i32, u8>(1);
    let mut recv = rx.recv();
    assert_eq!(recv.poll(&mut ch, 1), Poll::Pending);
    assert_eq!(recv.poll(&mut ch, 2), Poll::Pending);
    tx.try_send(&mut ch, 9).ok().unwrap();
    assert_eq!(ch.take_woken(), vec![2]);
    assert_eq!(ch.take_woken(), Vec::<u8>::new());
    assert_eq!(recv.poll(&mut ch, 3), Poll::Ready(Ok(9)));

    tx.try_send(&mut ch, 10).ok().unwrap();
    let mut send = tx.send(11);
    assert_eq!(send.poll_send(&mut ch, 4), Poll::Pending);
    assert_eq!(send.poll_send(&mut ch, 5), Poll::Pending);
    assert_eq!(rx.try_recv(&mut ch), Ok(10));
    assert_eq!(ch.take_woken(), vec![5]);
}

#[test]
fn wakers_become_due_in_slot_order() {
    let (mut ch, mut tx, mut rx1) = bounded::<i32, u8>(2);
    let mut rx2 = tx.subscribe(&mut ch);
    let mut rx3 = tx.subscribe(&mut ch);
    let mut recv1 = rx1.recv();
    let mut recv2 = rx2.recv();
    let mut recv3 = rx3.recv();
    assert_eq!(recv1.poll(&mut ch, 1), Poll::Pending);
    assert_eq!(recv2.poll(&mut ch, 2), Poll::Pending);
    assert_eq!(recv3.poll(&mut ch, 3), Poll::Pending);
    recv2.cancel(&mut ch);
    tx.try_send(&mut ch, 7).ok().unwrap();
    assert_eq!(ch.take_woken(), vec![1, 3]);
    assert_eq!(recv1.poll(&mut ch, 4), Poll::Ready(Ok(7)));
    assert_eq!(recv3.poll(&mut ch, 5), Poll::Ready(Ok(7)));
    assert_eq!(rx2.unread_message_count(&ch), 1);
}

#[test]
fn a_departure_that_releases_nothing_leaves_the_producer_parked() {
    let (mut ch, mut tx, mut rx1) = bounded::<i32, u8>(1);
    let rx2 = tx.subscribe(&mut ch);
    let mut rx3 = tx.subscribe(&mut ch);
    tx.try_send(&mut ch, 1).ok().unwrap();
    let mut send = tx.send(2);
    assert_eq!(send.poll_send(&mut ch, 40), Poll::Pending);
    rx2.unsubscribe(&mut ch);
    assert_eq!(ch.take_woken(), Vec::<u8>::new());
    assert_eq!(rx1.try_recv(&mut ch), Ok(1));
    assert_eq!(ch.take_woken(), Vec::<u8>::new());
    assert_eq!(rx3.try_recv(&mut ch), Ok(1));
    assert_eq!(ch.take_woken(), vec![40]);
    assert_eq!(send.poll_send(&mut ch, 41), Poll::Ready(()));
    assert_eq!(rx1.try_recv(&mut ch), Ok(2));
}

#[test]
fn a_slot_is_reused_without_mixing_up_its_messages() {
    let (mut ch, mut tx, rx1) = bounded::<i32, ()>(4);
    tx.try_send(&mut ch, 1).ok().unwrap();
    rx1.unsubscribe(&mut ch);
    tx.try_send(&mut ch, 2).ok().unwrap();
    let mut rx2 = tx.subscribe(&mut ch);
    assert_eq!(rx2.try_recv(&mut ch), Err(TryRecvError::Empty));
    tx.try_send(&mut ch, 3).ok().unwrap();
    assert_eq!(rx2.try_recv(&mut ch), Ok(3));
}

#[test]
fn channel_steps_hand_back_what_is_to_be_disposed_of() {
    let (mut ch, tx, rx) = bounded::<i32, u8>(1);
    rx.unsubscribe(&mut ch);
    let published = ch.publish(4).ok().unwrap();
    assert_eq!(published.discarded, Some(4));
    assert_eq!(published.woken, Vec::<u8>::new());

    let id = ch.subscribe();
    assert_eq!(ch.publish(5).ok().unwrap().discarded, None);
    assert_eq!(ch.publish(6).err(), Some(6));
    assert_eq!(ch.retained(), 1);
    assert_eq!(ch.unread(id), 1);
    let mut pending = Some(Arc::new(6));
    let attempt = ch.poll_send(&mut pending, 1);
    assert_eq!(attempt.outcome, Poll::Pending);
    assert_eq!(attempt.retired, None);
    let attempt = ch.poll_send(&mut pending, 2);
    assert_eq!(attempt.retired, Some(1));
    assert_eq!(attempt.unused, None);
    assert_eq!(ch.cancel_send(), Some(2));
    assert_eq!(ch.cancel_send(), None);
    let (reclaimed, producer) = ch.unsubscribe(id);
    assert_eq!(reclaimed.iter().map(|msg| **msg).collect::<Vec<_>>(), vec![5]);
    assert_eq!(producer, None);
    assert!(!ch.version_overflows());
    assert_eq!(tx.retained_message_count(&ch), 0);
}

#[test]
fn errors_keep_the_message_and_say_what_happened() {
    let error = TrySendError::Full(7);
    assert_eq!(*error.as_inner(), 7);
    assert_eq!(error.to_string(), "sending on a full channel");
    assert_eq!(error.debug_text("i32"), "TrySendError<i32>::Full(..)");
    assert_eq!(error.into_inner(), 7);
    assert_eq!(
        RecvError::Disconnected.to_string(),
        "receiving on a disconnected channel"
    );
    assert_eq!(TryRecvError::Empty.to_string(), "receiving on an empty channel");
    assert_eq!(
        TryRecvError::Disconnected.to_string(),
        "receiving on a disconnected channel"
    );
}

#[test]
fn randomized_operations_keep_the_backlog_within_capacity() {
    for seed in 1..32u64 {
        let mut state = seed.wrapping_mul(0x9E37_79B9_7F4A_7C15) | 1;
        let mut below = |n: u64| {
            state ^= state << 13;
            state ^= state >> 7;
            state ^= state << 17;
            state % n
        };
        let (mut ch, mut tx, rx) = bounded::<u64, u8>(3);
        let mut tail = 0u64;
        let mut model = vec![(rx, 0u64)];
        for _ in 0..512 {
            let slowest = model.iter().map(|(_, cursor)| *cursor).min().unwrap_or(tail);
            match below(100) {
                0..=44 => {
                    if tail - slowest == 3 {
                        assert!(tx.try_send(&mut ch, tail) == Err(TrySendError::Full(tail)));
                    } else {
                        assert!(tx.try_send(&mut ch, tail) == Ok(()));
                        tail += 1;
                    }
                }
                45..=84 if !model.is_empty() => {
                    let index = below(model.len() as u64) as usize;
                    let (receiver, cursor) = &mut model[index];
                    if *cursor < tail {
                        assert_eq!(receiver.try_recv(&mut ch), Ok(*cursor));
                        *cursor += 1;
                    } else {
                        assert_eq!(receiver.try_recv(&mut ch), Err(TryRecvError::Empty));
                    }
                }
                85..=92 => model.push((tx.subscribe(&mut ch), tail)),
                _ if !model.is_empty() => {
                    let index = below(model.len() as u64) as usize;
                    let (receiver, _) = model.swap_remove(index);
                    receiver.unsubscribe(&mut ch);
                }
                _ => {}
            }
            let slowest = model.iter().map(|(_, cursor)| *cursor).min().unwrap_or(tail);
            assert_eq!(tx.retained_message_count(&ch), (tail - slowest) as usize);
            assert!(tail - slowest <= 3);
            for (receiver, cursor) in &model {
                assert_eq!(receiver.unread_message_count(&ch), (tail - cursor) as usize);
            }
        }
    }
}

#[test]
fn a_send_given_up_before_its_first_poll_publishes_nothing() {
    let (mut ch, mut tx, mut rx) = bounded::<i32, u8>(2);
    let send = tx.send(1);
    assert_eq!(ch.retained(), 0);
    send.cancel(&mut ch);
    assert_eq!(rx.try_recv(&mut ch), Err(TryRecvError::Empty));
    tx.try_send(&mut ch, 2).ok().unwrap();
    assert_eq!(rx.try_recv(&mut ch), Ok(2));
}

#[test]
fn a_send_reaches_whoever_is_subscribed_when_it_is_polled() {
    let (mut ch, mut tx, rx) = bounded::<i32, u8>(2);
    let mut send = tx.send(1);
    let mut late = rx.resubscribe(&mut ch);
    rx.unsubscribe(&mut ch);
    assert_eq!(send.poll_send(&mut ch, 1), Poll::Ready(()));
    assert_eq!(late.try_recv(&mut ch), Ok(1));
    assert_eq!(tx.retained_message_count(&ch), 0);
}

#[test]
fn a_send_that_never_waited_leaves_a_parked_producer_alone() {
    let (mut ch, mut tx, mut rx) = bounded::<i32, u8>(1);
    tx.try_send(&mut ch, 0).ok().unwrap();
    let mut waiting = tx.send(1);
    assert_eq!(waiting.poll_send(&mut ch, 5), Poll::Pending);
    tx.send(2).cancel(&mut ch);
    assert_eq!(rx.try_recv(&mut ch), Ok(0));
    assert_eq!(ch.take_woken(), vec![5]);
}

#[test]
fn an_idle_receiver_lets_exactly_the_capacity_in() {
    for capacity in 1..6usize {
        let (mut ch, mut tx, rx) = bounded::<usize, u8>(capacity);
        assert_eq!(tx.capacity(&ch), capacity);
        for value in 0..capacity {
            assert!(tx.try_send(&mut ch, value) == Ok(()));
            assert_eq!(tx.retained_message_count(&ch), value + 1);
        }
        for value in 0..3 {
            assert!(tx.try_send(&mut ch, value) == Err(TrySendError::Full(value)));
        }
        assert_eq!(rx.unread_message_count(&ch), capacity);
    }
}

#[test]
fn a_shared_message_is_cloned_and_an_owned_one_taken_over() {
    let owned = String::from("owned");
    let at = owned.as_ptr();
    let value = owned_or_cloned(Ok::<String, Arc<String>>(owned));
    assert_eq!(value.as_ptr(), at);
    let shared = Arc::new(String::from("shared"));
    let value = owned_or_cloned(Err(shared.clone()));
    assert_eq!(value, *shared);
    assert_ne!(value.as_ptr(), shared.as_ptr());
}

#[test]
fn a_vacated_slot_is_reused_before_another_is_added() {
    let (mut ch, _tx, rx) = bounded::<i32, u8>(2);
    let first = rx.subscription();
    let second = ch.subscribe();
    let third = ch.subscribe();
    assert_ne!(first, second);
    assert_ne!(second, third);
    let _ = ch.unsubscribe(second);
    assert_eq!(ch.subscribe(), second);
    let _ = ch.unsubscribe(third);
    rx.unsubscribe(&mut ch);
    let mut reused = vec![ch.subscribe(), ch.subscribe()];
    if reused[0] != first {
        reused.swap(0, 1);
    }
    assert_eq!(reused, vec![first, third]);
}
