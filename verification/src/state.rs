//! The mathematical model of a wait list.
//!
//! A [`State`] is what a wait list *is*, independent of how it is stored: the
//! waiting entries in arrival order, the set of keys that have been woken and
//! not yet given back, the two counters that bound the keys in use, and the
//! record of every wake-up made so far. Each operation of the engine is
//! defined here as a function from one `State` to the next; the executable
//! code is proved to follow these definitions.

use crate::resume::Waiter;
use crate::ring::{distance, successor};
use std::task::Waker;
use vstd::prelude::*;

verus! {

/// Abstract contents of a wait list.
#[verifier::ext_equal]
pub struct State {
    /// Entries that still wait to be woken, earliest arrival first.
    pub waiting: Seq<Waiter>,
    /// Keys whose entry has been woken and whose holder has not yet finished
    /// or cancelled.
    pub notified: Set<usize>,
    /// Start of the ring interval that holds every waiting key.
    pub min_key: usize,
    /// The key the next arrival receives; end of that interval.
    pub next_key: usize,
    /// Every entry woken so far, in the order the wake-ups were made.
    pub woken: Seq<Waiter>,
}

impl State {
    /// A wait list with nothing in it whose first key will be `first_key`.
    pub open spec fn starting_at(first_key: usize) -> State {
        State {
            waiting: Seq::empty(),
            notified: Set::empty(),
            min_key: first_key,
            next_key: first_key,
            woken: Seq::empty(),
        }
    }

    /// Keys of the waiting entries, in queue order.
    pub open spec fn keys(self) -> Seq<usize> {
        self.waiting.map_values(|w: Waiter| w.key)
    }

    /// Width of the interval of keys that may be waiting.
    pub open spec fn span(self) -> int {
        distance(self.min_key, self.next_key)
    }

    /// `key` belongs to an entry that has not been woken.
    pub open spec fn is_waiting(self, key: usize) -> bool {
        self.keys().contains(key)
    }

    /// `key` belongs to an entry that was woken and not yet given back.
    pub open spec fn is_notified(self, key: usize) -> bool {
        self.notified.contains(key)
    }

    /// `key` is held by somebody: it is waiting or notified.
    pub open spec fn is_live(self, key: usize) -> bool {
        self.is_waiting(key) || self.is_notified(key)
    }

    /// Queue position of a waiting key.
    pub open spec fn position(self, key: usize) -> int
        recommends
            self.is_waiting(key),
    {
        self.keys().index_of(key)
    }

    /// Every key that `before` held is still held, but for the key of
    /// `except`.
    pub open spec fn keeps_holders(self, before: State, except: Option<usize>) -> bool {
        forall|key: usize|
            before.is_live(key) && except != Some(key) ==> #[trigger] self.is_live(key)
    }

    /// The invariant of the model.
    ///
    /// Waiting keys sit inside the interval from `min_key` up to but not
    /// including `next_key`, in strictly increasing ring order, so no key
    /// waits twice. Notified keys sit strictly beyond `next_key`, so a key is
    /// never both waiting and notified and `next_key` itself is always free.
    pub open spec fn wf(self) -> bool {
        &&& self.notified.finite()
        &&& forall|i: int|
            0 <= i < self.waiting.len() ==> distance(self.min_key, (#[trigger] self.waiting[i]).key)
                < self.span()
        &&& forall|i: int, j: int|
            0 <= i < j < self.waiting.len() ==> distance(
                self.min_key,
                (#[trigger] self.waiting[i]).key,
            ) < distance(self.min_key, (#[trigger] self.waiting[j]).key)
        &&& forall|k: usize| #[trigger]
            self.notified.contains(k) ==> distance(self.min_key, k) > self.span()
    }

    /// There is a key to hand out: taking `next_key` leaves its successor
    /// free, so the interval of waiting keys neither closes the ring nor runs
    /// into a key that is still notified.
    pub open spec fn can_insert(self) -> bool {
        &&& successor(self.next_key) != self.min_key
        &&& !self.notified.contains(successor(self.next_key))
    }

    /// Appends an entry for `waker` at the tail, under the key `next_key`.
    pub open spec fn insert(self, waker: Waker) -> State {
        State {
            waiting: self.waiting.push(Waiter { key: self.next_key, waker }),
            next_key: successor(self.next_key),
            ..self
        }
    }

    /// Swaps the callback of the waiting entry `key`; its place in the queue
    /// stays.
    pub open spec fn replace(self, key: usize, waker: Waker) -> State
        recommends
            self.is_waiting(key),
    {
        State { waiting: self.waiting.update(self.position(key), Waiter { key, waker }), ..self }
    }

    /// Gives back a notified key without any further effect.
    pub open spec fn consume(self, key: usize) -> State
        recommends
            self.is_notified(key),
    {
        State { notified: self.notified.remove(key), ..self }
    }

    /// Re-registers `key` with a new callback. A waiting entry keeps its
    /// place; a notified one gives its key back and queues again at the tail
    /// under a new key.
    pub open spec fn update(self, key: usize, waker: Waker) -> State
        recommends
            self.is_live(key),
    {
        if self.is_waiting(key) {
            self.replace(key, waker)
        } else {
            self.consume(key).insert(waker)
        }
    }

    /// The key under which the entry is registered after [`State::update`].
    pub open spec fn update_key(self, key: usize) -> usize {
        if self.is_waiting(key) {
            key
        } else {
            self.next_key
        }
    }

    /// Takes `key` out of the wait list, whatever its status.
    pub open spec fn remove(self, key: usize) -> State
        recommends
            self.is_live(key),
    {
        if self.is_waiting(key) {
            State { waiting: self.waiting.remove(self.position(key)), ..self }
        } else {
            self.consume(key)
        }
    }

    /// Wakes the earliest waiting entry, if there is one.
    pub open spec fn notify_first(self) -> State {
        if self.waiting.len() == 0 {
            self
        } else {
            State {
                waiting: self.waiting.drop_first(),
                notified: self.notified.insert(self.waiting[0].key),
                min_key: successor(self.waiting[0].key),
                next_key: self.next_key,
                woken: self.woken.push(self.waiting[0]),
            }
        }
    }

    /// Wakes every waiting entry, earliest first.
    pub open spec fn notify_all(self) -> State {
        State {
            waiting: Seq::empty(),
            notified: self.notified.union(self.keys().to_set()),
            min_key: self.next_key,
            next_key: self.next_key,
            woken: self.woken + self.waiting,
        }
    }

    /// Wakes the earliest waiting entry unless some wake-up is still
    /// unconsumed.
    pub open spec fn notify_any(self) -> State {
        if self.notified.len() == 0 {
            self.notify_first()
        } else {
            self
        }
    }

    /// Takes `key` out; if it had been woken already, passes the wake-up on
    /// to the earliest entry still waiting.
    pub open spec fn cancel(self, key: usize) -> State
        recommends
            self.is_live(key),
    {
        if self.is_waiting(key) {
            self.remove(key)
        } else {
            self.remove(key).notify_first()
        }
    }

    /// If `key` still waits, installs the new callback; if it was woken,
    /// gives the key back.
    pub open spec fn update_if_pending(self, key: usize, waker: Waker) -> State
        recommends
            self.is_live(key),
    {
        if self.is_waiting(key) {
            self.replace(key, waker)
        } else {
            self.consume(key)
        }
    }
}

/// Operations repeated.
impl State {
    /// Wakes the earliest waiting entry `n` times in a row.
    pub open spec fn notify_first_times(self, n: nat) -> State
        decreases n,
    {
        if n == 0 {
            self
        } else {
            self.notify_first().notify_first_times((n - 1) as nat)
        }
    }

    /// Registers a new entry for each of `wakers`, in their order.
    pub open spec fn insert_all(self, wakers: Seq<Waker>) -> State
        decreases wakers.len(),
    {
        if wakers.len() == 0 {
            self
        } else {
            self.insert(wakers[0]).insert_all(wakers.drop_first())
        }
    }

    /// There is a key for each of `count` arrivals in a row.
    pub open spec fn can_insert_times(self, count: nat) -> bool
        decreases count,
    {
        count > 0 ==> self.can_insert() && State {
            next_key: successor(self.next_key),
            ..self
        }.can_insert_times((count - 1) as nat)
    }
}

/// What the operations do when they are reached through a handle, which
/// either holds a key or holds none.
impl State {
    /// The handle's key, if it has one, is held in this wait list.
    pub open spec fn holds(self, handle: Option<usize>) -> bool {
        handle matches Some(key) ==> self.is_live(key)
    }

    /// Registering through `handle` finds a key where it needs one: a handle
    /// without a key, or with a notified one, joins the queue under a new key.
    pub open spec fn can_register(self, handle: Option<usize>) -> bool {
        match handle {
            Some(key) => self.is_notified(key) ==> self.consume(key).can_insert(),
            None => self.can_insert(),
        }
    }

    /// Registers `waker` for the holder of `handle`.
    pub open spec fn register(self, handle: Option<usize>, waker: Waker) -> State {
        match handle {
            Some(key) => self.update(key, waker),
            None => self.insert(waker),
        }
    }

    /// The key that `handle` holds after [`State::register`].
    pub open spec fn registered_key(self, handle: Option<usize>) -> usize {
        match handle {
            Some(key) => self.update_key(key),
            None => self.next_key,
        }
    }

    /// Whether the event that `handle` waits for has happened: it holds a
    /// key whose entry was woken.
    pub open spec fn has_fired(self, handle: Option<usize>) -> bool {
        handle matches Some(key) && self.is_notified(key)
    }

    /// Detaches `handle` without passing anything on.
    pub open spec fn finish(self, handle: Option<usize>) -> State {
        match handle {
            Some(key) => self.remove(key),
            None => self,
        }
    }

    /// Detaches `handle`; a wake-up it had received goes to the next entry.
    pub open spec fn abandon(self, handle: Option<usize>) -> State {
        match handle {
            Some(key) => self.cancel(key),
            None => self,
        }
    }

    /// Whether [`State::abandon`] wakes somebody.
    pub open spec fn abandon_forwards(self, handle: Option<usize>) -> bool {
        self.has_fired(handle) && self.waiting.len() > 0
    }

    /// Consumes the wake-up of `handle` if there is one, and installs `waker`
    /// for it otherwise.
    pub open spec fn try_finish(self, handle: Option<usize>, waker: Waker) -> State {
        match handle {
            Some(key) => self.update_if_pending(key, waker),
            None => self,
        }
    }

    /// Whether the holder of `handle` is done after [`State::try_finish`]:
    /// it is, unless its entry still waits.
    pub open spec fn try_finish_done(self, handle: Option<usize>) -> bool {
        !(handle matches Some(key) && self.is_waiting(key))
    }
}

} // verus!
