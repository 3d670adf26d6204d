//! The waiter store: a queue of waiting entries in arrival order, keyed by a
//! wrapping counter, with a count of the wake-ups that nobody has consumed yet.

use crate::flags::{flags_of, make_flags};
use crate::holders::{
    lemma_cancel_keeps_holders, lemma_insert_keeps_holders, lemma_notify_all_keeps_holders,
    lemma_notify_first_keeps_holders, lemma_remove_keeps_holders,
    lemma_update_if_pending_keeps_holders, lemma_update_keeps_holders,
};
use crate::resume::{wake, WakeLog, Waiter};
use crate::ring::{in_range, next_after, steps_between, successor};
use crate::state::State;
use crate::wellformed::{
    lemma_cancel, lemma_consume, lemma_insert, lemma_live_count, lemma_notify_all,
    lemma_notify_first, lemma_position, lemma_remove, lemma_replace, lemma_status_exclusive,
    lemma_update_if_pending, lemma_waiting_has_position,
};
use std::collections::VecDeque;
use std::task::Waker;
use vstd::prelude::*;

verus! {

/// Mutable state of a wait list.
///
/// Only the number of notified keys is stored; which keys they are is known
/// to the proofs alone, as is the record of wake-ups.
pub struct Inner {
    queue: VecDeque<Waiter>,
    notified_count: usize,
    min_key: usize,
    next_key: usize,
    notified: Ghost<Set<usize>>,
    woken: WakeLog,
}

impl View for Inner {
    type V = State;

    closed spec fn view(&self) -> State {
        State {
            waiting: self.queue@,
            notified: self.notified@,
            min_key: self.min_key,
            next_key: self.next_key,
            woken: self.woken@,
        }
    }
}

impl Inner {
    /// The stored counters agree with the model, and the model is well formed.
    pub closed spec fn wf(&self) -> bool {
        &&& self@.wf()
        &&& self.notified_count == self.notified@.len()
    }

    /// What `wf` says to the outside: the model is well formed.
    pub proof fn lemma_wf(&self)
        requires
            self.wf(),
        ensures
            self@.wf(),
    {
    }

    /// An empty store with room reserved for `cap` entries. Keys start at zero.
    pub fn with_capacity(cap: usize) -> (inner: Inner)
        ensures
            inner.wf(),
            inner@ == State::starting_at(0),
    {
        Inner::starting_at(cap, 0)
    }

    /// An empty store with room reserved for `cap` entries whose first key is
    /// `first_key`.
    pub fn starting_at(cap: usize, first_key: usize) -> (inner: Inner)
        ensures
            inner.wf(),
            inner@ == State::starting_at(first_key),
    {
        Inner {
            queue: VecDeque::with_capacity(cap),
            notified_count: 0,
            min_key: first_key,
            next_key: first_key,
            notified: Ghost(Set::empty()),
            woken: WakeLog::new(),
        }
    }

    /// Number of entries that wait.
    pub fn waiting_count(&self) -> (count: usize)
        ensures
            count == self@.waiting.len(),
    {
        self.queue.len()
    }

    /// Number of wake-ups that have not been consumed.
    pub fn notified_count(&self) -> (count: usize)
        requires
            self.wf(),
        ensures
            count == self@.notified.len(),
    {
        self.notified_count
    }

    /// Start of the interval of keys that may wait.
    pub fn min_key(&self) -> (key: usize)
        ensures
            key == self@.min_key,
    {
        self.min_key
    }

    /// The key that the next arrival receives.
    pub fn next_key(&self) -> (key: usize)
        ensures
            key == self@.next_key,
    {
        self.next_key
    }

    /// The flags word that describes the store.
    pub fn flags(&self) -> (flags: usize)
        requires
            self.wf(),
        ensures
            flags == flags_of(self@),
    {
        make_flags(self.queue.len() > 0, self.notified_count > 0)
    }

    /// Whether `key` lies in the interval of keys that may wait. A key outside
    /// of it has been resolved already, which is known without a scan.
    pub fn is_in_waiting_range(&self, key: usize) -> (hit: bool)
        ensures
            hit == in_range(self@.min_key, self@.next_key, key),
            self.wf() && self@.is_waiting(key) ==> hit,
    {
        proof {
            if self.wf() && self@.is_waiting(key) {
                lemma_waiting_has_position(self@, key);
            }
        }
        steps_between(self.min_key, key) < steps_between(self.min_key, self.next_key)
    }

    /// Whether the store can hold `key` as far as its counters tell: the key
    /// waits, or some wake-up is unconsumed. Which keys were woken is not
    /// stored, so this is as much as can be tested at run time.
    pub fn may_hold(&self, key: usize) -> (held: bool)
        requires
            self.wf(),
        ensures
            held == (self@.is_waiting(key) || self@.notified.len() > 0),
            self@.is_live(key) ==> held,
    {
        self.notified_count > 0 || self.is_waiting(key)
    }

    /// Whether handing out `next_key` would leave the interval of waiting
    /// keys short of the whole ring. Without that no key can be handed out.
    pub fn has_spare_key(&self) -> (spare: bool)
        ensures
            spare == (successor(self@.next_key) != self@.min_key),
            self@.can_insert() ==> spare,
    {
        next_after(self.next_key) != self.min_key
    }

    /// Whether `key` belongs to an entry that waits.
    pub fn is_waiting(&self, key: usize) -> (waits: bool)
        requires
            self.wf(),
        ensures
            waits == self@.is_waiting(key),
    {
        self.position_of(key).is_some()
    }

    /// Queue position of `key`, if it waits.
    fn position_of(&self, key: usize) -> (found: Option<usize>)
        requires
            self.wf(),
        ensures
            match found {
                Some(i) => self@.is_waiting(key) && i == self@.position(key),
                None => !self@.is_waiting(key),
            },
    {
        if !self.is_in_waiting_range(key) {
            return None;
        }
        let n: usize = self.queue.len();
        let mut i: usize = 0;
        while i < n
            invariant
                self.wf(),
                n == self.queue@.len(),
                i <= n,
                forall|j: int| 0 <= j < i ==> (#[trigger] self.queue@[j]).key != key,
            decreases n - i,
        {
            if self.queue[i].key == key {
                proof {
                    lemma_position(self@, i as int);
                }
                return Some(i);
            }
            i += 1;
        }
        proof {
            if self@.is_waiting(key) {
                lemma_waiting_has_position(self@, key);
            }
        }
        None
    }

    /// Installs `waker` in the entry at queue position `i`, which holds `key`.
    fn replace_at(&mut self, i: usize, key: usize, waker: Waker)
        requires
            old(self).wf(),
            old(self)@.is_waiting(key),
            i == old(self)@.position(key),
        ensures
            final(self).wf(),
            final(self)@ == old(self)@.replace(key, waker),
    {
        proof {
            lemma_waiting_has_position(self@, key);
            lemma_replace(self@, key, waker);
        }
        let _ = self.queue.remove(i);
        self.queue.insert(i, Waiter { key, waker });
        assert(self.queue@ =~= old(self).queue@.update(i as int, Waiter { key, waker }));
    }

    /// Gives back the notified key `key`.
    fn consume(&mut self, key: usize)
        requires
            old(self).wf(),
            old(self)@.is_notified(key),
        ensures
            final(self).wf(),
            final(self)@ == old(self)@.consume(key),
    {
        proof {
            lemma_consume(self@, key);
        }
        self.notified_count -= 1;
        self.notified = Ghost(self.notified@.remove(key));
    }

    /// Registers a new entry for `waker` at the tail of the queue and returns
    /// its key.
    pub fn insert(&mut self, waker: Waker) -> (key: usize)
        requires
            old(self).wf(),
            old(self)@.can_insert(),
        ensures
            final(self).wf(),
            final(self)@ == old(self)@.insert(waker),
            key == old(self)@.next_key,
            final(self)@.keeps_holders(old(self)@, None),
            final(self)@.is_waiting(key),
    {
        proof {
            lemma_insert(self@, waker);
            lemma_insert_keeps_holders(self@, waker);
        }
        let key = self.next_key;
        self.next_key = next_after(self.next_key);
        self.queue.push_back(Waiter { key, waker });
        key
    }

    /// Registers `waker` for the holder of `key` and returns the key under
    /// which it is registered from now on. An entry that still waits keeps its
    /// key and its place. One that was woken already gives its key back and
    /// joins the queue again at the tail.
    pub fn update(&mut self, key: usize, waker: Waker) -> (new_key: usize)
        requires
            old(self).wf(),
            old(self)@.is_live(key),
            old(self)@.is_notified(key) ==> old(self)@.consume(key).can_insert(),
        ensures
            final(self).wf(),
            final(self)@ == old(self)@.update(key, waker),
            new_key == old(self)@.update_key(key),
            final(self)@.keeps_holders(old(self)@, Some(key)),
            final(self)@.is_waiting(new_key),
    {
        proof {
            lemma_status_exclusive(self@, key);
            lemma_update_keeps_holders(self@, key, waker);
        }
        match self.position_of(key) {
            Some(i) => {
                self.replace_at(i, key, waker);
                key
            },
            None => {
                self.consume(key);
                self.insert(waker)
            },
        }
    }

    /// Takes `key` out of the store. Returns whether its entry had been woken.
    pub fn remove(&mut self, key: usize) -> (was_notified: bool)
        requires
            old(self).wf(),
            old(self)@.is_live(key),
        ensures
            final(self).wf(),
            final(self)@ == old(self)@.remove(key),
            was_notified == old(self)@.is_notified(key),
            final(self)@.keeps_holders(old(self)@, Some(key)),
            !final(self)@.is_live(key),
    {
        proof {
            lemma_status_exclusive(self@, key);
            lemma_remove(self@, key);
            lemma_remove_keeps_holders(self@, key);
        }
        match self.position_of(key) {
            Some(i) => {
                let _ = self.queue.remove(i);
                false
            },
            None => {
                self.consume(key);
                true
            },
        }
    }

    /// Takes `key` out of the store and, if its entry had been woken, wakes
    /// the earliest entry that still waits in its place. Returns whether such
    /// a wake-up was made.
    pub fn cancel(&mut self, key: usize) -> (forwarded: bool)
        requires
            old(self).wf(),
            old(self)@.is_live(key),
        ensures
            final(self).wf(),
            final(self)@ == old(self)@.cancel(key),
            forwarded == (old(self)@.is_notified(key) && old(self)@.waiting.len() > 0),
            final(self)@.keeps_holders(old(self)@, Some(key)),
            !final(self)@.is_live(key),
    {
        proof {
            lemma_status_exclusive(self@, key);
            lemma_cancel_keeps_holders(self@, key);
            lemma_cancel(self@, key);
        }
        if self.remove(key) {
            self.notify_first()
        } else {
            false
        }
    }

    /// If `key` still waits, installs `waker` for it and returns `true`. If
    /// its entry was woken, gives the key back and returns `false`.
    pub fn update_if_pending(&mut self, key: usize, waker: Waker) -> (pending: bool)
        requires
            old(self).wf(),
            old(self)@.is_live(key),
        ensures
            final(self).wf(),
            final(self)@ == old(self)@.update_if_pending(key, waker),
            pending == old(self)@.is_waiting(key),
            final(self)@.keeps_holders(old(self)@, Some(key)),
            final(self)@.is_live(key) == pending,
    {
        proof {
            lemma_status_exclusive(self@, key);
            lemma_update_if_pending_keeps_holders(self@, key, waker);
            lemma_update_if_pending(self@, key, waker);
        }
        match self.position_of(key) {
            Some(i) => {
                self.replace_at(i, key, waker);
                true
            },
            None => {
                self.consume(key);
                false
            },
        }
    }

    /// Wakes the earliest entry that waits. Returns `false` if none does.
    pub fn notify_first(&mut self) -> (woke: bool)
        requires
            old(self).wf(),
        ensures
            final(self).wf(),
            final(self)@ == old(self)@.notify_first(),
            woke == (old(self)@.waiting.len() > 0),
            final(self)@.keeps_holders(old(self)@, None),
    {
        proof {
            lemma_notify_first(self@);
            lemma_notify_first_keeps_holders(self@);
            lemma_live_count(self@);
        }
        match self.queue.pop_front() {
            Some(waiter) => {
                self.notified_count += 1;
                self.min_key = next_after(waiter.key);
                self.notified = Ghost(self.notified@.insert(waiter.key));
                wake(waiter, &mut self.woken);
                true
            },
            None => false,
        }
    }

    /// Wakes every entry that waits, earliest first. Returns whether there was
    /// any.
    pub fn notify_all(&mut self) -> (woke: bool)
        requires
            old(self).wf(),
        ensures
            final(self).wf(),
            final(self)@ == old(self)@.notify_all(),
            woke == (old(self)@.waiting.len() > 0),
            final(self)@.keeps_holders(old(self)@, None),
    {
        let ghost before = self@;
        proof {
            lemma_notify_all(before);
            lemma_notify_all_keeps_holders(before);
            lemma_live_count(before);
        }
        let num_notified: usize = self.queue.len();
        let ghost mut done: int = 0;
        loop
            invariant_except_break
                0 <= done <= before.waiting.len(),
                self.queue@ == before.waiting.skip(done),
            invariant
                self.woken@ == before.woken + before.waiting.take(done),
                self.notified@ == before.notified,
                self.notified_count == old(self).notified_count,
                self.min_key == before.min_key,
                self.next_key == before.next_key,
            ensures
                done == before.waiting.len(),
                self.queue@ == Seq::<Waiter>::empty(),
            decreases self.queue@.len(),
        {
            match self.queue.pop_front() {
                Some(waiter) => {
                    proof {
                        assert(waiter == before.waiting[done]);
                        assert(before.waiting.take(done + 1) == before.waiting.take(done).push(
                            waiter,
                        ));
                        done = done + 1;
                    }
                    wake(waiter, &mut self.woken);
                },
                None => {
                    break ;
                },
            }
        }
        assert(before.waiting.take(done) == before.waiting);
        self.notified_count += num_notified;
        self.min_key = self.next_key;
        self.notified = Ghost(self.notified@.union(before.keys().to_set()));
        num_notified > 0
    }
}

} // verus!
