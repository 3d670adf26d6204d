use std::sync::atomic::{AtomicUsize, Ordering};
use std::sync::Arc;
use std::task::{Context, Wake, Waker};
use waitlist::{Inner, WaitHandle, Waitlist};

/// Counts how often it is woken.
struct Counter(AtomicUsize);

impl Wake for Counter {
    fn wake(self: Arc<Self>) {
        self.0.fetch_add(1, Ordering::SeqCst);
    }

    fn wake_by_ref(self: &Arc<Self>) {
        self.0.fetch_add(1, Ordering::SeqCst);
    }
}

pub struct MockWaker {
    inner: Arc<Counter>,
    waker: Waker,
}

impl MockWaker {
    pub fn new() -> Self {
        let inner = Arc::new(Counter(AtomicUsize::new(0)));
        let waker = Waker::from(inner.clone());
        MockWaker { inner, waker }
    }

    pub fn to_context(&self) -> Context<'_> {
        Context::from_waker(&self.waker)
    }

    pub fn notified_count(&self) -> usize {
        self.inner.0.load(Ordering::SeqCst)
    }
}

impl Default for MockWaker {
    fn default() -> Self {
        Self::new()
    }
}

fn wait_for_waker(wl: &mut Waitlist, w: &MockWaker) -> WaitHandle {
    let mut handle = wl.wait();
    handle.set_context(wl, &w.to_context());
    handle
}

fn add_all(wl: &mut Waitlist, wakers: &[MockWaker]) -> Vec<WaitHandle> {
    wakers.iter().map(|w| wait_for_waker(wl, w)).collect()
}

#[test]
fn wraparound() {
    const KEY_START: usize = usize::MAX - 1;
    let mut inner = Inner::starting_at(0, KEY_START);

    let waker = Waker::noop();

    inner.insert(waker.clone());
    let k2 = inner.insert(waker.clone());
    let k3 = inner.insert(waker.clone());
    assert_eq!(0, k3);
    assert_eq!(1, inner.next_key());
    assert!(inner.notify_first());
    assert_eq!(usize::MAX, inner.min_key());
    assert!(inner.is_in_waiting_range(k2));
    assert!(inner.is_in_waiting_range(k3));
    assert_eq!(0, inner.update(0, waker.clone()));
    assert!(!inner.remove(0));
    assert!(!inner.remove(k2));
}

#[test]
fn fifo_order() {
    const N: usize = 7;
    let wakers: [MockWaker; N] = Default::default();
    let mut waitlist = Waitlist::new();
    let _refs = add_all(&mut waitlist, &wakers);

    for i in 0..N {
        waitlist.notify_one();

        for (j, w) in wakers.iter().enumerate() {
            let expected = if j <= i { 1 } else { 0 };
            assert_eq!(
                expected,
                w.notified_count(),
                "Incorrect notification count for waker {} after notification {}",
                j,
                i
            );
        }
    }
}

#[test]
fn notify_all() {
    const N: usize = 7;
    let wakers: [MockWaker; N] = Default::default();
    let mut waitlist = Waitlist::new();
    let _refs = add_all(&mut waitlist, &wakers);
    waitlist.notify_all();

    for (i, w) in wakers.iter().enumerate() {
        assert_eq!(1, w.notified_count(), "Waker {} was not notified", i);
    }
}

#[test]
fn notify_any() {
    let mut waitlist = Waitlist::new();
    let w1 = MockWaker::new();
    let mut k1 = wait_for_waker(&mut waitlist, &w1);
    let w2 = MockWaker::new();
    let _k2 = wait_for_waker(&mut waitlist, &w2);

    assert!(waitlist.notify_any());
    assert!(!waitlist.notify_any());
    assert_eq!(1, w1.notified_count());
    assert_eq!(0, w2.notified_count());
    assert!(k1.finish(&mut waitlist));
    assert!(waitlist.notify_any());
    assert_eq!(1, w2.notified_count());
}

#[test]
fn cancel_notifies_next() {
    let w1 = MockWaker::new();
    let w2 = MockWaker::new();
    let mut waitlist = Waitlist::new();

    let mut k1 = wait_for_waker(&mut waitlist, &w1);
    let _k2 = wait_for_waker(&mut waitlist, &w2);

    waitlist.notify_one();
    assert!(k1.cancel(&mut waitlist));
    assert_eq!(1, w2.notified_count(), "Second task wasn't notified");
}

#[test]
fn try_finish_works() {
    let mut waitlist = Waitlist::new();
    let waker = MockWaker::new();
    let mut cx = waker.to_context();
    let mut waiter = waitlist.wait();

    waiter.set_context(&mut waitlist, &mut cx); // start waiting

    assert!(!waiter.try_finish(&mut waitlist, &mut cx));
    assert!(!waiter.try_finish(&mut waitlist, &mut cx));
    waitlist.notify_one();
    assert!(waiter.try_finish(&mut waitlist, &mut cx));

    // after finishing, it should continue to return true
    assert!(waiter.try_finish(&mut waitlist, &mut cx));
}

#[test]
fn notify_after_clearing() {
    let mut waitlist = Waitlist::new();
    let w1 = MockWaker::new();
    let k1 = wait_for_waker(&mut waitlist, &w1);
    waitlist.notify_one();
    assert_eq!(1, w1.notified_count());

    let _k2 = wait_for_waker(&mut waitlist, &w1);
    let w2 = MockWaker::new();
    let k3 = wait_for_waker(&mut waitlist, &w2);
    waitlist.notify_all();

    assert_eq!(2, w1.notified_count());
    assert_eq!(1, w2.notified_count());
    k1.discard(&mut waitlist);
    k3.discard(&mut waitlist);
    let _k2 = wait_for_waker(&mut waitlist, &w2);
    assert!(waitlist.notify_one());
    assert_eq!(2, w2.notified_count());
}

#[test]
fn update() {
    let mut waitlist = Waitlist::new();

    let w1 = MockWaker::new();
    let mut k1 = wait_for_waker(&mut waitlist, &w1);
    let w2 = MockWaker::new();
    k1.set_context(&mut waitlist, &w2.to_context());
    waitlist.notify_all();
    assert_eq!(0, w1.notified_count());
    assert_eq!(1, w2.notified_count());
    k1.set_context(&mut waitlist, &w1.to_context());
    waitlist.notify_all();
    assert_eq!(1, w1.notified_count());

    let _k2 = wait_for_waker(&mut waitlist, &MockWaker::new());
    let _k3 = wait_for_waker(&mut waitlist, &MockWaker::new());
    k1.set_context(&mut waitlist, &w2.to_context());
    waitlist.notify_all();
    assert_eq!(2, w2.notified_count());
}
