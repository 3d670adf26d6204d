//! The wait list: the waiter store together with its flags word.

use crate::flags::{flags_of, has_notified, has_waiting, lemma_flags_exact, NOTIFIED, WAITING};
use crate::handle::WaitHandle;
use crate::inner::Inner;
use crate::state::State;
use std::task::Waker;
use vstd::prelude::*;

verus! {

/// An ordered list of wakers.
///
/// Waiters register a waker through a [`WaitHandle`] and are woken in the
/// order in which they registered.
pub struct Waitlist {
    flags: usize,
    inner: Inner,
}

impl View for Waitlist {
    type V = State;

    closed spec fn view(&self) -> State {
        self.inner@
    }
}

impl Waitlist {
    /// The store is well formed and the flags word describes it.
    pub closed spec fn wf(&self) -> bool {
        &&& self.inner.wf()
        &&& self.flags == flags_of(self.inner@)
    }

    /// What `wf` says to the outside: the model is well formed.
    pub proof fn lemma_wf(&self)
        requires
            self.wf(),
        ensures
            self@.wf(),
    {
        self.inner.lemma_wf();
    }

    /// Creates an empty wait list.
    pub fn new() -> (waitlist: Waitlist)
        ensures
            waitlist.wf(),
            waitlist@ == State::starting_at(0),
    {
        Waitlist::with_capacity(0)
    }

    /// Creates an empty wait list with room reserved for `cap` waiters.
    pub fn with_capacity(cap: usize) -> (waitlist: Waitlist)
        ensures
            waitlist.wf(),
            waitlist@ == State::starting_at(0),
    {
        Waitlist::starting_at(cap, 0)
    }

    /// Creates an empty wait list with room reserved for `cap` waiters whose
    /// keys start at `first_key`.
    pub fn starting_at(cap: usize, first_key: usize) -> (waitlist: Waitlist)
        ensures
            waitlist.wf(),
            waitlist@ == State::starting_at(first_key),
    {
        let inner = Inner::starting_at(cap, first_key);
        let flags = inner.flags();
        Waitlist { flags, inner }
    }

    /// Returns a handle with which a task can wait for an event.
    ///
    /// The handle is not registered yet: this call leaves the wait list as it
    /// is. Attach a waker with [`WaitHandle::set_context`].
    pub fn wait(&self) -> (handle: WaitHandle)
        ensures
            handle@ is None,
    {
        WaitHandle::from_key(self, None)
    }

    /// The flags word as it was published after the last operation.
    pub fn flags(&self) -> (flags: usize)
        requires
            self.wf(),
        ensures
            flags == flags_of(self@),
            has_waiting(flags) <==> self@.waiting.len() > 0,
            has_notified(flags) <==> self@.notified.len() > 0,
    {
        proof {
            lemma_flags_exact(self@);
        }
        self.flags
    }

    /// The store behind the flags word, for reading.
    pub fn inner(&self) -> (inner: &Inner)
        requires
            self.wf(),
        ensures
            inner.wf(),
            inner@ == self@,
    {
        &self.inner
    }

    /// Wakes the first waiter in the queue.
    ///
    /// Returns `true` if a waiter was woken and `false` if the queue was
    /// empty.
    pub fn notify_one(&mut self) -> (woke: bool)
        requires
            old(self).wf(),
        ensures
            final(self).wf(),
            final(self)@ == old(self)@.notify_first(),
            woke == (old(self)@.waiting.len() > 0),
            final(self)@.keeps_holders(old(self)@, None),
    {
        proof {
            lemma_flags_exact(self@);
        }
        if self.flags & WAITING != 0 {
            let woke = self.inner.notify_first();
            self.flags = self.inner.flags();
            woke
        } else {
            false
        }
    }

    /// Wakes all waiters in the queue, in the order of the queue.
    ///
    /// Returns `true` if at least one waiter was woken.
    pub fn notify_all(&mut self) -> (woke: bool)
        requires
            old(self).wf(),
        ensures
            final(self).wf(),
            final(self)@ == (if woke {
                old(self)@.notify_all()
            } else {
                old(self)@
            }),
            woke == (old(self)@.waiting.len() > 0),
            final(self)@.keeps_holders(old(self)@, None),
    {
        proof {
            lemma_flags_exact(self@);
        }
        if self.flags & WAITING != 0 {
            let woke = self.inner.notify_all();
            self.flags = self.inner.flags();
            woke
        } else {
            false
        }
    }

    /// Wakes the first waiter, unless a waiter has been woken already and has
    /// not finished yet.
    ///
    /// So several events that arrive before the first woken task gets to run
    /// wake one task, not several.
    pub fn notify_any(&mut self) -> (woke: bool)
        requires
            old(self).wf(),
        ensures
            final(self).wf(),
            final(self)@ == old(self)@.notify_any(),
            woke == (old(self)@.notified.len() == 0 && old(self)@.waiting.len() > 0),
            final(self)@.keeps_holders(old(self)@, None),
    {
        proof {
            lemma_flags_exact(self@);
        }
        let flags = self.flags;
        if flags & NOTIFIED == 0 && flags & WAITING != 0 {
            let woke = self.inner.notify_first();
            self.flags = self.inner.flags();
            woke
        } else {
            false
        }
    }

    /// Registers a new waiter and publishes the flags.
    pub(crate) fn insert(&mut self, waker: Waker) -> (key: usize)
        requires
            old(self).wf(),
            old(self)@.can_insert(),
        ensures
            final(self).wf(),
            final(self)@ == old(self)@.insert(waker),
            key == old(self)@.next_key,
            final(self)@.keeps_holders(old(self)@, None),
            final(self)@.is_waiting(key),
    {
        let key = self.inner.insert(waker);
        self.flags = self.inner.flags();
        key
    }

    /// Registers a waker for a key that is held and publishes the flags.
    pub(crate) fn update(&mut self, key: usize, waker: Waker) -> (new_key: usize)
        requires
            old(self).wf(),
            old(self)@.is_live(key),
            old(self)@.is_notified(key) ==> old(self)@.consume(key).can_insert(),
        ensures
            final(self).wf(),
            final(self)@ == old(self)@.update(key, waker),
            new_key == old(self)@.update_key(key),
            final(self)@.keeps_holders(old(self)@, Some(key)),
            final(self)@.is_waiting(new_key),
    {
        let new_key = self.inner.update(key, waker);
        self.flags = self.inner.flags();
        new_key
    }

    /// Takes a key out and publishes the flags.
    pub(crate) fn remove(&mut self, key: usize) -> (was_notified: bool)
        requires
            old(self).wf(),
            old(self)@.is_live(key),
        ensures
            final(self).wf(),
            final(self)@ == old(self)@.remove(key),
            was_notified == old(self)@.is_notified(key),
            final(self)@.keeps_holders(old(self)@, Some(key)),
            !final(self)@.is_live(key),
    {
        let was_notified = self.inner.remove(key);
        self.flags = self.inner.flags();
        was_notified
    }

    /// Takes a key out, passes its wake-up on, and publishes the flags.
    pub(crate) fn cancel(&mut self, key: usize) -> (forwarded: bool)
        requires
            old(self).wf(),
            old(self)@.is_live(key),
        ensures
            final(self).wf(),
            final(self)@ == old(self)@.cancel(key),
            forwarded == (old(self)@.is_notified(key) && old(self)@.waiting.len() > 0),
            final(self)@.keeps_holders(old(self)@, Some(key)),
            !final(self)@.is_live(key),
    {
        let forwarded = self.inner.cancel(key);
        self.flags = self.inner.flags();
        forwarded
    }

    /// Installs a waker if the key still waits, gives the key back if not,
    /// and publishes the flags.
    pub(crate) fn update_if_pending(&mut self, key: usize, waker: Waker) -> (pending: bool)
        requires
            old(self).wf(),
            old(self)@.is_live(key),
        ensures
            final(self).wf(),
            final(self)@ == old(self)@.update_if_pending(key, waker),
            pending == old(self)@.is_waiting(key),
            final(self)@.keeps_holders(old(self)@, Some(key)),
            final(self)@.is_live(key) == pending,
    {
        let pending = self.inner.update_if_pending(key, waker);
        self.flags = self.inner.flags();
        pending
    }
}

impl Default for Waitlist {
    /// An empty wait list, as [`Waitlist::new`] makes it.
    fn default() -> (waitlist: Waitlist)
        ensures
            waitlist.wf(),
            waitlist@ == State::starting_at(0),
    {
        Waitlist::new()
    }
}

} // verus!
