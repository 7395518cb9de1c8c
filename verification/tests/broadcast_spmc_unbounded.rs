use std::sync::atomic::AtomicUsize;
use std::sync::atomic::Ordering;
use std::sync::Arc;
use std::task::Wake;
use std::task::Waker;

use asyncband::broadcast::spmc::backlog::MIN_RETAINED_CAPACITY;
use asyncband::broadcast::spmc::common::Poll;
use asyncband::broadcast::spmc::unbounded;
use asyncband::broadcast::spmc::RecvError;
use asyncband::broadcast::spmc::TryRecvError;
use asyncband::broadcast::spmc::UnboundedChannel;
use asyncband::broadcast::spmc::UnboundedReceiver;

/// Counts how often it is woken.
#[derive(Default)]
struct WakeCounter {
    count: AtomicUsize,
}

impl WakeCounter {
    fn count(&self) -> usize {
        self.count.load(Ordering::SeqCst)
    }
}

impl Wake for WakeCounter {
    fn wake(self: Arc<Self>) {
        self.count.fetch_add(1, Ordering::SeqCst);
    }
}

/// Wakes everything that became due.
fn wake_due<T>(channel: &mut UnboundedChannel<T, Waker>) {
    for waker in channel.take_woken() {
        waker.wake();
    }
}

/// Receives a message that is there, or the disconnection.
fn recv_now<T: Clone>(
    receiver: &mut UnboundedReceiver<T>,
    channel: &mut UnboundedChannel<T, Waker>,
) -> Result<T, RecvError> {
    match receiver.recv().poll(channel, Waker::noop().clone()) {
        Poll::Ready(outcome) => outcome,
        Poll::Pending => panic!("nothing to receive"),
    }
}

struct Rng(u64);

impl Rng {
    fn below(&mut self, n: u64) -> u64 {
        let mut x = self.0;
        x ^= x << 13;
        x ^= x >> 7;
        x ^= x << 17;
        self.0 = x;
        x % n
    }
}

/// Counts its clones in a counter that all copies share.
struct CountClone {
    value: u32,
    clones: Arc<AtomicUsize>,
}

impl Clone for CountClone {
    fn clone(&self) -> Self {
        self.clones.fetch_add(1, Ordering::Relaxed);
        CountClone { value: self.value, clones: self.clones.clone() }
    }
}

#[test]
fn one_off_burst_allocation_is_returned_once_it_is_behind_us() {
    let (mut ch, mut tx, mut rx) = unbounded::<usize, ()>();

    let burst = MIN_RETAINED_CAPACITY * 16;
    for i in 0..burst {
        tx.send(&mut ch, i);
    }
    assert!(ch.buffer_capacity() >= burst);

    for i in 0..burst {
        assert_eq!(rx.try_recv(&mut ch), Ok(i));
    }

    // Draining evaluates the cycle that just peaked, so the burst allocation is still held.
    assert_eq!(tx.retained_message_count(&ch), 0);
    assert!(ch.buffer_capacity() >= burst);

    // The next cycle stays small, which is what releases the memory.
    tx.send(&mut ch, 0);
    assert_eq!(rx.try_recv(&mut ch), Ok(0));
    assert!(ch.buffer_capacity() < burst);
}

#[test]
fn repeated_bursts_keep_their_allocation() {
    let (mut ch, mut tx, mut rx) = unbounded::<usize, ()>();
    let burst = MIN_RETAINED_CAPACITY * 4;

    for _ in 0..4 {
        for i in 0..burst {
            tx.send(&mut ch, i);
        }
        for i in 0..burst {
            assert_eq!(rx.try_recv(&mut ch), Ok(i));
        }
    }

    // Every cycle peaks at the same size, so the buffer must not rebuild its allocation each time.
    assert!(ch.buffer_capacity() >= burst);
}

#[test]
fn try_recv_reports_empty_then_value_then_disconnected() {
    let (mut ch, mut tx, mut rx) = unbounded::<i32, ()>();

    assert_eq!(rx.try_recv(&mut ch), Err(TryRecvError::Empty));

    tx.send(&mut ch, 10);
    assert_eq!(rx.try_recv(&mut ch), Ok(10));
    assert_eq!(rx.try_recv(&mut ch), Err(TryRecvError::Empty));

    tx.disconnect(&mut ch);
    assert_eq!(rx.try_recv(&mut ch), Err(TryRecvError::Disconnected));
}

#[test]
fn slow_receiver_keeps_every_message() {
    let (mut ch, mut tx, mut rx1) = unbounded::<i32, Waker>();
    let mut rx2 = tx.subscribe(&mut ch);

    for i in 0..1024 {
        tx.send(&mut ch, i);
    }

    // The fast receiver draining fully must not reclaim anything the slow one still needs.
    for i in 0..1024 {
        assert_eq!(recv_now(&mut rx1, &mut ch), Ok(i));
    }
    assert_eq!(tx.retained_message_count(&ch), 1024);

    for i in 0..1024 {
        assert_eq!(recv_now(&mut rx2, &mut ch), Ok(i));
    }
    assert_eq!(tx.retained_message_count(&ch), 0);
}

#[test]
fn broadcast_spmc_unbounded_test_retained_message_count_tracks_the_slowest_receiver() {
    let (mut ch, mut tx, mut rx1) = unbounded::<i32, Waker>();
    let mut rx2 = tx.subscribe(&mut ch);

    tx.send(&mut ch, 1);
    tx.send(&mut ch, 2);
    assert_eq!(tx.retained_message_count(&ch), 2);

    // Reclaiming waits for the slowest receiver, message by message.
    assert_eq!(recv_now(&mut rx1, &mut ch), Ok(1));
    assert_eq!(tx.retained_message_count(&ch), 2);
    assert_eq!(recv_now(&mut rx2, &mut ch), Ok(1));
    assert_eq!(tx.retained_message_count(&ch), 1);

    assert_eq!(recv_now(&mut rx1, &mut ch), Ok(2));
    assert_eq!(tx.retained_message_count(&ch), 1);
    assert_eq!(recv_now(&mut rx2, &mut ch), Ok(2));
    assert_eq!(tx.retained_message_count(&ch), 0);
}

#[test]
fn dropping_a_lagging_receiver_releases_its_backlog() {
    let (mut ch, mut tx, mut rx1) = unbounded::<i32, Waker>();
    let rx2 = tx.subscribe(&mut ch);

    for i in 0..128 {
        tx.send(&mut ch, i);
    }
    for i in 0..128 {
        assert_eq!(recv_now(&mut rx1, &mut ch), Ok(i));
    }
    assert_eq!(tx.retained_message_count(&ch), 128);

    rx2.unsubscribe(&mut ch);
    assert_eq!(tx.retained_message_count(&ch), 0);
}

#[test]
fn broadcast_spmc_unbounded_test_resubscribe_keeps_the_original_receivers_backlog() {
    let (mut ch, mut tx, mut rx) = unbounded::<i32, Waker>();

    tx.send(&mut ch, 1);
    tx.send(&mut ch, 2);

    let mut rx2 = rx.resubscribe(&mut ch);
    assert_eq!(tx.retained_message_count(&ch), 2);

    tx.send(&mut ch, 3);

    assert_eq!(recv_now(&mut rx2, &mut ch), Ok(3));
    assert_eq!(tx.retained_message_count(&ch), 3);

    assert_eq!(recv_now(&mut rx, &mut ch), Ok(1));
    assert_eq!(recv_now(&mut rx, &mut ch), Ok(2));
    assert_eq!(recv_now(&mut rx, &mut ch), Ok(3));
    assert_eq!(tx.retained_message_count(&ch), 0);
}

#[test]
fn send_without_receivers_does_not_buffer() {
    let (mut ch, mut tx, rx) = unbounded::<i32, Waker>();
    rx.unsubscribe(&mut ch);

    tx.send(&mut ch, 1);
    tx.send(&mut ch, 2);
    assert_eq!(tx.retained_message_count(&ch), 0);

    let mut rx = tx.subscribe(&mut ch);
    assert_eq!(rx.try_recv(&mut ch), Err(TryRecvError::Empty));

    tx.send(&mut ch, 3);
    assert_eq!(recv_now(&mut rx, &mut ch), Ok(3));
}

#[test]
fn broadcast_spmc_unbounded_test_unread_message_count_tracks_each_receiver() {
    let (mut ch, mut tx, mut rx1) = unbounded::<i32, ()>();
    assert_eq!(rx1.unread_message_count(&ch), 0);

    tx.send(&mut ch, 1);
    tx.send(&mut ch, 2);
    assert_eq!(rx1.unread_message_count(&ch), 2);

    let mut rx2 = tx.subscribe(&mut ch);
    assert_eq!(rx2.unread_message_count(&ch), 0);

    tx.send(&mut ch, 3);
    assert_eq!(rx1.unread_message_count(&ch), 3);
    assert_eq!(rx2.unread_message_count(&ch), 1);

    assert_eq!(rx2.try_recv(&mut ch), Ok(3));
    assert_eq!(rx2.unread_message_count(&ch), 0);
    rx2.unsubscribe(&mut ch);

    assert_eq!(rx1.try_recv(&mut ch), Ok(1));
    assert_eq!(rx1.unread_message_count(&ch), 2);
}

#[test]
fn sole_receiver_takes_messages_without_cloning() {
    let clones = Arc::new(AtomicUsize::new(0));

    let (mut ch, mut tx, mut rx) = unbounded::<CountClone, ()>();
    for i in 0..8 {
        tx.send(&mut ch, CountClone { value: i, clones: clones.clone() });
        assert_eq!(rx.try_recv(&mut ch).unwrap().value, i);
    }
    assert_eq!(clones.load(Ordering::Relaxed), 0);

    // A second receiver means the payload is shared, so it has to be cloned again.
    let mut second = tx.subscribe(&mut ch);
    tx.send(&mut ch, CountClone { value: 8, clones: clones.clone() });
    assert_eq!(rx.try_recv(&mut ch).unwrap().value, 8);
    assert_eq!(second.try_recv(&mut ch).unwrap().value, 8);
    assert_eq!(clones.load(Ordering::Relaxed), 1);
}

#[test]
fn send_wakes_a_parked_receiver_exactly_once() {
    let (mut ch, mut tx, mut rx) = unbounded::<i32, Waker>();
    let tracker = Arc::new(WakeCounter::default());
    let waker = Waker::from(tracker.clone());
    let mut recv = rx.recv();

    assert_eq!(recv.poll(&mut ch, waker.clone()), Poll::Pending);

    tx.send(&mut ch, 42);
    wake_due(&mut ch);

    assert_eq!(tracker.count(), 1);
    assert_eq!(recv.poll(&mut ch, waker.clone()), Poll::Ready(Ok(42)));
}

#[test]
fn broadcast_spmc_unbounded_test_cancelled_recv_releases_its_waker() {
    let (mut ch, mut tx, mut rx) = unbounded::<(), Waker>();
    let tracker = Arc::new(WakeCounter::default());
    let waker = Waker::from(tracker.clone());
    let baseline = Arc::strong_count(&tracker);
    let mut recv = rx.recv();

    assert_eq!(recv.poll(&mut ch, waker.clone()), Poll::Pending);
    assert_eq!(Arc::strong_count(&tracker), baseline + 1);

    recv.cancel(&mut ch);
    assert_eq!(Arc::strong_count(&tracker), baseline);

    tx.send(&mut ch, ());
    wake_due(&mut ch);
    assert_eq!(tracker.count(), 0);
    assert_eq!(rx.try_recv(&mut ch), Ok(()));
}

#[test]
fn broadcast_spmc_unbounded_test_dropping_a_woken_recv_keeps_another_receivers_waiter() {
    let (mut ch, mut tx, mut rx1) = unbounded::<i32, Waker>();
    let mut rx2 = tx.subscribe(&mut ch);
    let first = Arc::new(WakeCounter::default());
    let waker = Waker::from(first.clone());
    let mut recv1 = rx1.recv();

    assert_eq!(recv1.poll(&mut ch, waker.clone()), Poll::Pending);

    tx.send(&mut ch, 1);
    wake_due(&mut ch);
    assert_eq!(first.count(), 1);
    assert_eq!(rx2.try_recv(&mut ch), Ok(1));

    let second = Arc::new(WakeCounter::default());
    let waker = Waker::from(second.clone());
    let mut recv2 = rx2.recv();
    assert_eq!(recv2.poll(&mut ch, waker.clone()), Poll::Pending);

    // `recv1` was already woken, so giving it up must not release the slot `recv2` now owns.
    recv1.cancel(&mut ch);
    tx.send(&mut ch, 2);
    wake_due(&mut ch);

    assert_eq!(second.count(), 1);
}

#[test]
fn broadcast_spmc_unbounded_test_parked_recv_wakes_when_the_sender_drops() {
    let (mut ch, tx, mut rx) = unbounded::<(), Waker>();
    let tracker = Arc::new(WakeCounter::default());
    let waker = Waker::from(tracker.clone());
    let mut recv = rx.recv();

    assert_eq!(recv.poll(&mut ch, waker.clone()), Poll::Pending);

    tx.disconnect(&mut ch);
    wake_due(&mut ch);
    assert_eq!(tracker.count(), 1);

    recv.cancel(&mut ch);
    assert_eq!(rx.try_recv(&mut ch), Err(TryRecvError::Disconnected));
}

#[test]
fn parked_recv_prefers_buffered_messages_over_disconnection() {
    let (mut ch, mut tx, mut rx) = unbounded::<i32, Waker>();
    let mut recv = rx.recv();

    assert_eq!(recv.poll(&mut ch, Waker::noop().clone()), Poll::Pending);

    tx.send(&mut ch, 7);
    tx.disconnect(&mut ch);

    assert_eq!(recv.poll(&mut ch, Waker::noop().clone()), Poll::Ready(Ok(7)));
    recv.cancel(&mut ch);
    assert_eq!(rx.try_recv(&mut ch), Err(TryRecvError::Disconnected));
}

#[test]
fn broadcast_spmc_unbounded_test_recv_drains_buffered_messages_before_reporting_disconnection() {
    let (mut ch, mut tx, mut rx) = unbounded::<i32, Waker>();

    tx.send(&mut ch, 1);
    tx.send(&mut ch, 2);
    tx.disconnect(&mut ch);

    assert_eq!(recv_now(&mut rx, &mut ch), Ok(1));
    assert_eq!(recv_now(&mut rx, &mut ch), Ok(2));
    assert_eq!(recv_now(&mut rx, &mut ch), Err(RecvError::Disconnected));
}

#[test]
fn broadcast_spmc_unbounded_test_recv_reports_disconnection_without_any_message() {
    let (mut ch, tx, mut rx) = unbounded::<(), Waker>();
    tx.disconnect(&mut ch);
    assert_eq!(recv_now(&mut rx, &mut ch), Err(RecvError::Disconnected));
}

#[test]
fn broadcast_spmc_unbounded_test_publish_order_is_program_order() {
    let (mut ch, mut tx, mut rx1) = unbounded::<i32, ()>();
    let mut rx2 = tx.subscribe(&mut ch);

    for value in 0..64 {
        tx.send(&mut ch, value);
    }

    for value in 0..64 {
        assert_eq!(rx1.try_recv(&mut ch), Ok(value));
        assert_eq!(rx2.try_recv(&mut ch), Ok(value));
    }
}

#[test]
fn randomized_operations_track_the_reference_model() {
    for seed in 1..32u64 {
        let mut rng = Rng(seed.wrapping_mul(0x9E37_79B9_7F4A_7C15) | 1);
        let (mut ch, mut tx, rx) = unbounded::<u64, ()>();
        let mut tail = 0u64;
        let mut model = vec![(rx, 0u64)];

        for _ in 0..512 {
            match rng.below(100) {
                0..=44 => {
                    tx.send(&mut ch, tail);
                    tail += 1;
                }
                45..=79 if !model.is_empty() => {
                    let index = rng.below(model.len() as u64) as usize;
                    let (receiver, cursor) = &mut model[index];
                    if *cursor < tail {
                        assert_eq!(receiver.try_recv(&mut ch), Ok(*cursor), "seed {seed}");
                        *cursor += 1;
                    } else {
                        assert_eq!(
                            receiver.try_recv(&mut ch),
                            Err(TryRecvError::Empty),
                            "seed {seed}"
                        );
                    }
                }
                80..=89 => model.push((tx.subscribe(&mut ch), tail)),
                _ if !model.is_empty() => {
                    let index = rng.below(model.len() as u64) as usize;
                    let (receiver, _) = model.swap_remove(index);
                    receiver.unsubscribe(&mut ch);
                }
                _ => {}
            }

            let retained = model
                .iter()
                .map(|(_, cursor)| *cursor)
                .min()
                .map_or(0, |slowest| tail - slowest);
            assert_eq!(
                tx.retained_message_count(&ch),
                retained as usize,
                "seed {seed}"
            );
            for (receiver, cursor) in &model {
                assert_eq!(
                    receiver.unread_message_count(&ch),
                    (tail - cursor) as usize,
                    "seed {seed}"
                );
            }
        }
    }
}

#[test]
fn a_departure_returns_exactly_what_it_alone_was_holding() {
    let (mut ch, mut tx, mut rx1) = unbounded::<i32, ()>();
    let id = ch.subscribe();
    for value in 0..5 {
        tx.send(&mut ch, value);
    }
    assert_eq!(rx1.try_recv(&mut ch), Ok(0));
    assert_eq!(rx1.try_recv(&mut ch), Ok(1));
    let reclaimed = ch.unsubscribe(id);
    assert_eq!(reclaimed.iter().map(|msg| **msg).collect::<Vec<_>>(), vec![0, 1]);
    assert_eq!(ch.retained(), 3);
    assert_eq!(rx1.try_recv(&mut ch), Ok(2));
}

#[test]
fn a_message_without_receivers_comes_back() {
    let (mut ch, _tx, rx) = unbounded::<i32, ()>();
    rx.unsubscribe(&mut ch);
    let (discarded, woken) = ch.publish(Arc::new(3));
    assert_eq!(discarded.map(|msg| *msg), Some(3));
    assert_eq!(woken.len(), 0);
    assert!(!ch.version_overflows());
}
