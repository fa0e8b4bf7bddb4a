use fibers_timeout_queue::clock::now_nanos;
use fibers_timeout_queue::wakeup::wakeup_delay;
use fibers_timeout_queue::TimeoutQueue;
use std::time::Duration;

const MS: u128 = 1_000_000;

#[test]
fn push_and_pop_works() {
    let mut queue = TimeoutQueue::new();
    assert!(queue.is_empty());

    queue.push_at(1, 20 * MS, 0);
    queue.push_at(2, 10 * MS, 0);
    assert_eq!(queue.pop_at(0), None);
    assert_eq!(queue.len(), 2);

    assert_eq!(queue.pop_at(12 * MS), Some(2));
    assert_eq!(queue.len(), 1);

    assert_eq!(queue.pop_at(22 * MS), Some(1));
    assert_eq!(queue.len(), 0);
}

#[test]
fn filter_pop_works() {
    let mut queue = TimeoutQueue::new();
    for i in 0..100u64 {
        queue.push_at(i, i as u128 * MS, 0);
    }
    let now = 50 * MS;

    assert_eq!(queue.len(), 100);
    assert_eq!(queue.filter_pop_at(|n| *n == 25, now), Some(25));
    assert_eq!(queue.filter_pop_at(|n| *n == 80, now), None);
    assert_eq!(queue.len(), 20);

    let now = 100 * MS;
    assert_eq!(queue.pop_at(now), Some(80));
    assert_eq!(queue.len(), 19);
}

#[test]
fn fresh_queue_is_empty() {
    let mut queue: TimeoutQueue<u32> = TimeoutQueue::new();
    assert!(queue.is_empty());
    assert_eq!(queue.len(), 0);
    assert_eq!(queue.pop(), None);
    assert_eq!(queue.pop_at(u128::MAX), None);
    assert!(queue.is_empty());

    let mut other: TimeoutQueue<u32> = TimeoutQueue::default();
    assert!(other.is_empty());
    assert_eq!(other.pop(), None);
}

#[test]
fn pops_follow_expiry_order() {
    let mut queue = TimeoutQueue::new();
    let timeouts: [u128; 6] = [40, 10, 60, 30, 50, 20];
    for t in timeouts {
        queue.push_at(t, t * MS, 0);
    }
    let mut seen = Vec::new();
    while let Some(t) = queue.pop_at(100 * MS) {
        seen.push(t);
    }
    assert_eq!(seen, vec![10, 20, 30, 40, 50, 60]);
    assert!(queue.is_empty());
}

#[test]
fn item_is_never_due_early() {
    let mut queue = TimeoutQueue::new();
    queue.push_at(7, 100, 1000);
    assert_eq!(queue.pop_at(1000), None);
    assert_eq!(queue.pop_at(1099), None);
    assert_eq!(queue.len(), 1);
    assert_eq!(queue.pop_at(1100), Some(7));
}

#[test]
fn drained_queue_stays_drained() {
    let mut queue = TimeoutQueue::new();
    queue.push_at(1, 0, 0);
    assert_eq!(queue.pop_at(0), Some(1));
    for now in [0u128, 10, 1000, u128::MAX] {
        assert_eq!(queue.pop_at(now), None);
        assert_eq!(queue.len(), 0);
    }
    assert_eq!(queue.filter_pop_at(|_| false, 5), None);
    assert_eq!(queue.len(), 0);
}

#[test]
fn count_tracks_pushes_and_removals() {
    let mut queue = TimeoutQueue::new();
    for i in 0..10u64 {
        queue.push_at(i, i as u128, 0);
        assert_eq!(queue.len(), i as usize + 1);
    }
    // 0 and 1 are discarded, 2 is returned.
    assert_eq!(queue.filter_pop_at(|n| *n >= 2, 100), Some(2));
    assert_eq!(queue.len(), 7);
    // 3 is returned.
    assert_eq!(queue.pop_at(100), Some(3));
    assert_eq!(queue.len(), 6);
    // 4 and 5 are discarded, 6 is kept since it has not expired.
    assert_eq!(queue.filter_pop_at(|n| *n >= 6, 5), None);
    assert_eq!(queue.len(), 4);
}

#[test]
fn filter_pop_discards_prefix() {
    let mut queue = TimeoutQueue::new();
    for i in 0..10u64 {
        queue.push_at(i, i as u128 * MS, 0);
    }
    assert_eq!(queue.filter_pop_at(|n| *n > 5, 10 * MS), Some(6));
    assert_eq!(queue.len(), 3);
    assert_eq!(queue.pop_at(10 * MS), Some(7));
    assert_eq!(queue.pop_at(10 * MS), Some(8));
    assert_eq!(queue.pop_at(10 * MS), Some(9));
    assert_eq!(queue.pop_at(10 * MS), None);
}

#[test]
fn filter_pop_before_expiry_keeps_accepted_item() {
    let mut queue = TimeoutQueue::new();
    for i in 0..10u64 {
        queue.push_at(i, i as u128 * MS, 0);
    }
    assert_eq!(queue.filter_pop_at(|n| *n > 5, 0), None);
    assert_eq!(queue.len(), 4);
    assert_eq!(queue.pop_at(10 * MS), Some(6));
}

#[test]
fn filter_pop_discards_unexpired_rejected_items() {
    let mut queue = TimeoutQueue::new();
    queue.push_at(1, 1000 * MS, 0);
    queue.push_at(2, 2000 * MS, 0);
    assert_eq!(queue.filter_pop_at(|n| *n == 2, 0), None);
    assert_eq!(queue.len(), 1);
    assert_eq!(queue.pop_at(2000 * MS), Some(2));
}

#[test]
fn pop_stops_on_unexpired() {
    let mut queue = TimeoutQueue::new();
    queue.push_at(1, 1000 * MS, 0);
    queue.push_at(2, 100 * MS, 0);
    queue.push_at(3, 10 * MS, 0);
    assert_eq!(queue.pop_at(0), None);
    assert_eq!(queue.len(), 3);
}

#[test]
fn end_to_end_scenario() {
    let mut queue = TimeoutQueue::new();
    queue.push_at(1, 1000 * MS, 0);
    queue.push_at(2, 100 * MS, 0);
    queue.push_at(3, 10 * MS, 0);
    assert_eq!(queue.pop_at(0), None);
    assert_eq!(queue.pop_at(50 * MS), Some(3));
    assert_eq!(queue.pop_at(50 * MS), None);
}

#[test]
fn expiry_beyond_the_clock_saturates() {
    let mut queue = TimeoutQueue::new();
    queue.push_at(1, u128::MAX, 5);
    assert_eq!(queue.pop_at(u128::MAX - 1), None);
    assert_eq!(queue.pop_at(u128::MAX), Some(1));
}

#[test]
fn real_clock_push_and_pop() {
    let mut queue = TimeoutQueue::new();
    queue.push(1, Duration::from_secs(3600));
    assert_eq!(queue.pop(), None);
    assert_eq!(queue.len(), 1);
    queue.push(2, Duration::from_millis(0));
    assert_eq!(queue.pop(), Some(2));
    assert_eq!(queue.filter_pop(|n| *n != 1), None);
    assert!(queue.is_empty());
}

#[test]
fn real_clock_reads_after_epoch() {
    let now = now_nanos();
    // Later than 2001-09-09, in nanoseconds since the epoch.
    assert!(now > 1_000_000_000 * 1_000_000_000);
}

#[test]
fn wakeup_delay_values() {
    assert_eq!(wakeup_delay(100, 40), 60);
    assert_eq!(wakeup_delay(40, 40), 0);
    assert_eq!(wakeup_delay(10, 20), 0);
    assert_eq!(wakeup_delay(u128::MAX, 0), u64::MAX);
}
