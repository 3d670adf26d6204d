use std::sync::atomic::{AtomicUsize, Ordering};
use std::sync::Arc;
use std::task::{Wake, Waker};
use waitlist::flags::{make_flags, LOCKED, NOTIFIED, WAITING};
use waitlist::ring::{next_after, steps_between};
use waitlist::Inner;

/// Counts how often it is woken.
struct Counter(AtomicUsize);

impl Wake for Counter {
    fn wake(self: Arc<Self>) {
        self.0.fetch_add(1, Ordering::SeqCst);
    }

    fn wake_by_ref(self: &Arc<Self>) {
        self.0.fetch_add(1, Ordering::SeqCst);
    }
}

fn counter() -> (Arc<Counter>, Waker) {
    let counter = Arc::new(Counter(AtomicUsize::new(0)));
    let waker = Waker::from(counter.clone());
    (counter, waker)
}

fn count(counter: &Arc<Counter>) -> usize {
    counter.0.load(Ordering::SeqCst)
}

#[test]
fn successor_wraps_to_zero() {
    assert_eq!(1, next_after(0));
    assert_eq!(8, next_after(7));
    assert_eq!(usize::MAX, next_after(usize::MAX - 1));
    assert_eq!(0, next_after(usize::MAX));
}

#[test]
fn steps_are_counted_forward_around_the_ring() {
    assert_eq!(0, steps_between(3, 3));
    assert_eq!(4, steps_between(5, 9));
    assert_eq!(usize::MAX, steps_between(4, 3));
    assert_eq!(2, steps_between(usize::MAX, 1));
    assert_eq!(usize::MAX, steps_between(0, usize::MAX));
    assert_eq!(1, steps_between(usize::MAX, 0));
}

#[test]
fn flags_are_made_of_two_bits() {
    assert_eq!(1, LOCKED);
    assert_eq!(2, WAITING);
    assert_eq!(4, NOTIFIED);
    assert_eq!(0, make_flags(false, false));
    assert_eq!(2, make_flags(true, false));
    assert_eq!(4, make_flags(false, true));
    assert_eq!(6, make_flags(true, true));
}

#[test]
fn new_store_is_empty() {
    let inner = Inner::with_capacity(8);
    assert_eq!(0, inner.waiting_count());
    assert_eq!(0, inner.notified_count());
    assert_eq!(0, inner.min_key());
    assert_eq!(0, inner.next_key());
    assert_eq!(0, inner.flags());
    assert!(inner.has_spare_key());
    assert!(!inner.is_waiting(0));
    assert!(!inner.may_hold(0));
    assert!(!inner.is_in_waiting_range(0));
}

#[test]
fn store_starts_at_the_given_key() {
    let mut inner = Inner::starting_at(2, 41);
    assert_eq!(41, inner.min_key());
    assert_eq!(41, inner.next_key());
    assert_eq!(41, inner.insert(Waker::noop().clone()));
    assert_eq!(42, inner.insert(Waker::noop().clone()));
    assert_eq!(43, inner.next_key());
    assert_eq!(41, inner.min_key());
}

#[test]
fn insert_hands_out_consecutive_keys() {
    let mut inner = Inner::with_capacity(0);
    for expected in 0..5 {
        assert_eq!(expected, inner.insert(Waker::noop().clone()));
        assert_eq!(expected + 1, inner.waiting_count());
        assert_eq!(expected + 1, inner.next_key());
    }
    assert_eq!(0, inner.min_key());
    assert_eq!(WAITING, inner.flags());
}

#[test]
fn waiting_range_is_half_open() {
    let mut inner = Inner::starting_at(0, 5);
    inner.insert(Waker::noop().clone());
    inner.insert(Waker::noop().clone());
    inner.insert(Waker::noop().clone());
    assert!(!inner.is_in_waiting_range(4));
    assert!(inner.is_in_waiting_range(5));
    assert!(inner.is_in_waiting_range(6));
    assert!(inner.is_in_waiting_range(7));
    assert!(!inner.is_in_waiting_range(8));
    assert!(!inner.is_in_waiting_range(0));
    assert!(!inner.is_in_waiting_range(usize::MAX));
}

#[test]
fn waiting_range_shrinks_from_the_front() {
    let mut inner = Inner::starting_at(0, 5);
    inner.insert(Waker::noop().clone());
    inner.insert(Waker::noop().clone());
    inner.insert(Waker::noop().clone());
    assert!(inner.notify_first());
    assert_eq!(6, inner.min_key());
    assert!(!inner.is_in_waiting_range(5));
    assert!(inner.is_in_waiting_range(6));
    assert!(inner.notify_all());
    assert_eq!(8, inner.min_key());
    assert!(!inner.is_in_waiting_range(6));
    assert!(!inner.is_in_waiting_range(7));
    assert!(!inner.is_in_waiting_range(8));
}

#[test]
fn waiting_range_wraps_around() {
    let mut inner = Inner::starting_at(0, usize::MAX - 1);
    inner.insert(Waker::noop().clone());
    inner.insert(Waker::noop().clone());
    inner.insert(Waker::noop().clone());
    assert_eq!(1, inner.next_key());
    assert!(!inner.is_in_waiting_range(usize::MAX - 2));
    assert!(inner.is_in_waiting_range(usize::MAX - 1));
    assert!(inner.is_in_waiting_range(usize::MAX));
    assert!(inner.is_in_waiting_range(0));
    assert!(!inner.is_in_waiting_range(1));
    assert!(inner.is_waiting(usize::MAX));
    assert!(inner.is_waiting(0));
    assert!(!inner.is_waiting(1));
}

#[test]
fn remove_tells_whether_the_entry_was_woken() {
    let mut inner = Inner::with_capacity(0);
    let (woken, waker) = counter();
    let k1 = inner.insert(waker.clone());
    let k2 = inner.insert(waker.clone());
    assert!(inner.notify_first());
    assert_eq!(1, count(&woken));

    assert!(inner.remove(k1));
    assert_eq!(0, inner.notified_count());
    assert!(!inner.remove(k2));
    assert_eq!(0, inner.waiting_count());
    assert_eq!(1, count(&woken));
    assert_eq!(0, inner.flags());
}

#[test]
fn remove_from_the_middle_keeps_the_order() {
    let mut inner = Inner::with_capacity(0);
    let (c1, w1) = counter();
    let (c2, w2) = counter();
    let (c3, w3) = counter();
    let _k1 = inner.insert(w1);
    let k2 = inner.insert(w2);
    let k3 = inner.insert(w3);

    assert!(!inner.remove(k2));
    assert!(!inner.is_waiting(k2));
    assert!(inner.is_waiting(k3));
    assert_eq!(2, inner.waiting_count());

    assert!(inner.notify_first());
    assert_eq!((1, 0, 0), (count(&c1), count(&c2), count(&c3)));
    assert!(inner.notify_first());
    assert_eq!((1, 0, 1), (count(&c1), count(&c2), count(&c3)));
    assert!(!inner.notify_first());
}

#[test]
fn cancel_forwards_only_a_wakeup_that_was_made() {
    let mut inner = Inner::with_capacity(0);
    let (c1, w1) = counter();
    let (c2, w2) = counter();
    let (c3, w3) = counter();
    let k1 = inner.insert(w1);
    let k2 = inner.insert(w2);
    let k3 = inner.insert(w3);

    assert!(!inner.cancel(k2));
    assert_eq!((0, 0, 0), (count(&c1), count(&c2), count(&c3)));

    assert!(inner.notify_first());
    assert!(inner.cancel(k1));
    assert_eq!((1, 0, 1), (count(&c1), count(&c2), count(&c3)));
    assert_eq!(1, inner.notified_count());
    assert_eq!(0, inner.waiting_count());

    assert!(!inner.cancel(k3));
    assert_eq!(0, inner.notified_count());
    assert_eq!((1, 0, 1), (count(&c1), count(&c2), count(&c3)));
}

#[test]
fn update_keeps_the_key_of_a_waiting_entry() {
    let mut inner = Inner::with_capacity(0);
    let (c1, w1) = counter();
    let (c2, w2) = counter();
    let k1 = inner.insert(w1);
    assert_eq!(k1, inner.update(k1, w2));
    assert_eq!(1, inner.waiting_count());
    assert_eq!(1, inner.next_key());
    assert!(inner.notify_first());
    assert_eq!((0, 1), (count(&c1), count(&c2)));
}

#[test]
fn update_gives_a_woken_entry_a_new_key() {
    let mut inner = Inner::with_capacity(0);
    let (c1, w1) = counter();
    let k1 = inner.insert(w1.clone());
    let _k2 = inner.insert(Waker::noop().clone());
    assert!(inner.notify_first());
    assert_eq!(1, inner.notified_count());

    let renewed = inner.update(k1, w1);
    assert_eq!(2, renewed);
    assert_eq!(0, inner.notified_count());
    assert_eq!(2, inner.waiting_count());
    assert!(inner.is_waiting(renewed));
    assert!(!inner.is_waiting(k1));

    assert!(inner.notify_first());
    assert_eq!(1, count(&c1));
    assert!(inner.notify_first());
    assert_eq!(2, count(&c1));
}

#[test]
fn update_if_pending_tells_whether_the_entry_still_waits() {
    let mut inner = Inner::with_capacity(0);
    let (c1, w1) = counter();
    let (c2, w2) = counter();
    let k1 = inner.insert(w1);

    assert!(inner.update_if_pending(k1, w2.clone()));
    assert_eq!(1, inner.waiting_count());
    assert!(inner.notify_first());
    assert_eq!((0, 1), (count(&c1), count(&c2)));

    assert!(!inner.update_if_pending(k1, w2));
    assert_eq!(0, inner.notified_count());
    assert_eq!(0, inner.waiting_count());
    assert_eq!((0, 1), (count(&c1), count(&c2)));
}

#[test]
fn notify_all_moves_every_entry_to_the_notified() {
    let mut inner = Inner::with_capacity(0);
    let (c1, w1) = counter();
    let (c2, w2) = counter();
    let k1 = inner.insert(w1);
    let k2 = inner.insert(w2);

    assert!(inner.notify_all());
    assert_eq!((1, 1), (count(&c1), count(&c2)));
    assert_eq!(2, inner.notified_count());
    assert_eq!(0, inner.waiting_count());
    assert_eq!(2, inner.min_key());
    assert_eq!(NOTIFIED, inner.flags());
    assert!(!inner.notify_all());

    assert!(inner.remove(k1));
    assert!(inner.remove(k2));
    assert_eq!(0, inner.flags());
}

#[test]
fn may_hold_follows_the_counters() {
    let mut inner = Inner::with_capacity(0);
    let k1 = inner.insert(Waker::noop().clone());
    assert!(inner.may_hold(k1));
    assert!(!inner.may_hold(k1 + 1));
    assert!(inner.notify_first());
    assert!(inner.may_hold(k1));
    assert!(inner.remove(k1));
    assert!(!inner.may_hold(k1));
}

#[test]
fn store_has_both_flags_when_some_wait_and_some_were_woken() {
    let mut inner = Inner::with_capacity(0);
    inner.insert(Waker::noop().clone());
    inner.insert(Waker::noop().clone());
    assert!(inner.notify_first());
    assert_eq!(WAITING | NOTIFIED, inner.flags());
    assert_eq!(1, inner.waiting_count());
    assert_eq!(1, inner.notified_count());
}
