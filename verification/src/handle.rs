//! The handle by which one task waits.

use crate::wellformed::lemma_status_exclusive;
use crate::waitlist::Waitlist;
use std::task::Context;
use std::task::Waker;
use vstd::prelude::*;

verus! {

/// Handle for controlling the wait status of a task.
///
/// A handle holds at most one registration at a time, named by a key of the
/// wait list it was made for. Every operation takes that wait list. To use a
/// handle with another wait list, or after its key was given back by other
/// means, breaks the precondition that the wait list holds the key.
///
/// A handle that is dropped while it holds a key leaves its entry behind.
/// Call [`WaitHandle::discard`] instead of dropping it.
pub struct WaitHandle {
    key: Option<usize>,
}

impl View for WaitHandle {
    type V = Option<usize>;

    closed spec fn view(&self) -> Option<usize> {
        self.key
    }
}

/// The outcome of polling a handle.
#[derive(Clone, Copy, Debug, PartialEq, Eq, Structural)]
pub enum Readiness {
    /// The event has not happened; the waker is registered.
    Pending,
    /// The event has happened and the handle has consumed it.
    Ready,
}

impl WaitHandle {
    /// Marks the task as completed.
    ///
    /// Takes the handle's entry out of the wait list without waking anybody.
    /// Returns `true` if the handle had been woken, that is, if the event it
    /// waited for has happened.
    pub fn finish(&mut self, waitlist: &mut Waitlist) -> (fired: bool)
        requires
            old(waitlist).wf(),
            old(waitlist)@.holds(old(self)@),
        ensures
            final(waitlist).wf(),
            final(waitlist)@ == old(waitlist)@.finish(old(self)@),
            final(self)@ is None,
            fired == old(waitlist)@.has_fired(old(self)@),
            final(waitlist)@.keeps_holders(old(waitlist)@, old(self)@),
    {
        match self.key.take() {
            Some(key) => waitlist.remove(key),
            None => false,
        }
    }

    /// Marks that the task was cancelled.
    ///
    /// Takes the handle's entry out of the wait list. If the handle had been
    /// woken, the wake-up is not lost: the earliest waiter that is left is
    /// woken in its place. Returns `true` if such a waiter was woken.
    pub fn cancel(&mut self, waitlist: &mut Waitlist) -> (forwarded: bool)
        requires
            old(waitlist).wf(),
            old(waitlist)@.holds(old(self)@),
        ensures
            final(waitlist).wf(),
            final(waitlist)@ == old(waitlist)@.abandon(old(self)@),
            final(self)@ is None,
            forwarded == old(waitlist)@.abandon_forwards(old(self)@),
            old(self)@ is None ==> final(waitlist)@ == old(waitlist)@ && !forwarded,
            final(waitlist)@.keeps_holders(old(waitlist)@, old(self)@),
    {
        match self.key.take() {
            Some(key) => waitlist.cancel(key),
            None => false,
        }
    }

    /// Gives the handle up. A handle that holds a key is cancelled; one that
    /// holds none leaves the wait list untouched.
    pub fn discard(self, waitlist: &mut Waitlist)
        requires
            old(waitlist).wf(),
            old(waitlist)@.holds(self@),
        ensures
            final(waitlist).wf(),
            final(waitlist)@ == old(waitlist)@.abandon(self@),
            self@ is None ==> final(waitlist)@ == old(waitlist)@,
            final(waitlist)@.keeps_holders(old(waitlist)@, self@),
    {
        let mut handle = self;
        let _ = handle.cancel(waitlist);
    }

    /// Registers `waker` as the callback that resumes the task.
    ///
    /// The first call enters the task at the tail of the queue. A later call
    /// replaces the callback and keeps the place in the queue, unless the
    /// task was woken in between: then it joins the queue again at the tail.
    pub fn set_waker(&mut self, waitlist: &mut Waitlist, waker: Waker)
        requires
            old(waitlist).wf(),
            old(waitlist)@.holds(old(self)@),
            old(waitlist)@.can_register(old(self)@),
        ensures
            final(waitlist).wf(),
            final(waitlist)@ == old(waitlist)@.register(old(self)@, waker),
            final(self)@ == Some(old(waitlist)@.registered_key(old(self)@)),
            final(waitlist)@.keeps_holders(old(waitlist)@, old(self)@),
            final(waitlist)@.is_waiting(old(waitlist)@.registered_key(old(self)@)),
    {
        let key = match self.key {
            Some(key) => waitlist.update(key, waker),
            None => waitlist.insert(waker),
        };
        self.key = Some(key);
    }

    /// Registers the waker of `cx` as the callback that resumes the task, as
    /// [`WaitHandle::set_waker`] does with a clone of that waker.
    pub fn set_context(&mut self, waitlist: &mut Waitlist, cx: &Context<'_>)
        requires
            old(waitlist).wf(),
            old(waitlist)@.holds(old(self)@),
            old(waitlist)@.can_register(old(self)@),
        ensures
            final(waitlist).wf(),
            exists|waker: Waker| final(waitlist)@ == #[trigger] old(waitlist)@.register(old(self)@, waker),
            final(self)@ == Some(old(waitlist)@.registered_key(old(self)@)),
            final(waitlist)@.keeps_holders(old(waitlist)@, old(self)@),
            final(waitlist)@.is_waiting(old(waitlist)@.registered_key(old(self)@)),
    {
        self.set_waker(waitlist, cx.waker().clone())
    }

    /// The key that the handle holds, if it holds one.
    pub fn key(&self) -> (key: Option<usize>)
        ensures
            key == self@,
    {
        self.key
    }

    /// Returns `true` if the handle holds a key: it has been registered and
    /// has neither finished nor been cancelled since.
    pub fn is_pending(&self) -> (pending: bool)
        ensures
            pending == (self@ is Some),
    {
        self.key.is_some()
    }

    /// Marks the task as finished if it was woken, and registers `waker` for
    /// it if it still waits.
    ///
    /// Returns `true` if the task has nothing left to wait for: it was woken,
    /// or the handle held no key. Returns `false` if the task still waits, now
    /// with `waker` as its callback.
    pub fn try_finish_with(&mut self, waitlist: &mut Waitlist, waker: Waker) -> (done: bool)
        requires
            old(waitlist).wf(),
            old(waitlist)@.holds(old(self)@),
        ensures
            final(waitlist).wf(),
            final(waitlist)@ == old(waitlist)@.try_finish(old(self)@, waker),
            done == old(waitlist)@.try_finish_done(old(self)@),
            final(self)@ == (if done {
                None
            } else {
                old(self)@
            }),
            final(waitlist)@.keeps_holders(old(waitlist)@, old(self)@),
            final(waitlist)@.holds(final(self)@),
    {
        if let Some(key) = self.key {
            if waitlist.update_if_pending(key, waker) {
                return false;
            } else {
                self.key = None;
            }
        }
        true
    }

    /// Marks the task as finished if it was woken, and registers the waker of
    /// `cx` for it if it still waits, as [`WaitHandle::try_finish_with`] does
    /// with a clone of that waker.
    pub fn try_finish(&mut self, waitlist: &mut Waitlist, cx: &mut Context<'_>) -> (done: bool)
        requires
            old(waitlist).wf(),
            old(waitlist)@.holds(old(self)@),
        ensures
            final(waitlist).wf(),
            exists|waker: Waker| final(waitlist)@ == #[trigger] old(waitlist)@.try_finish(old(self)@, waker),
            done == old(waitlist)@.try_finish_done(old(self)@),
            final(self)@ == (if done {
                None
            } else {
                old(self)@
            }),
            final(waitlist)@.keeps_holders(old(waitlist)@, old(self)@),
            final(waitlist)@.holds(final(self)@),
    {
        self.try_finish_with(waitlist, cx.waker().clone())
    }

    /// One step of waiting, for a task that is polled.
    ///
    /// A handle without a key registers `waker` and stays pending. A handle
    /// whose entry was woken gives its key back and is ready. A handle whose
    /// entry still waits takes `waker` as its new callback and stays pending.
    pub fn poll(&mut self, waitlist: &mut Waitlist, waker: Waker) -> (outcome: Readiness)
        requires
            old(waitlist).wf(),
            old(waitlist)@.holds(old(self)@),
            old(self)@ is None ==> old(waitlist)@.can_insert(),
        ensures
            final(waitlist).wf(),
            final(waitlist)@.keeps_holders(old(waitlist)@, old(self)@),
            final(waitlist)@.holds(final(self)@),
            match old(self)@ {
                None => {
                    &&& outcome == Readiness::Pending
                    &&& final(waitlist)@ == old(waitlist)@.insert(waker)
                    &&& final(self)@ == Some(old(waitlist)@.next_key)
                },
                Some(key) => {
                    &&& outcome == (if old(waitlist)@.is_notified(key) {
                        Readiness::Ready
                    } else {
                        Readiness::Pending
                    })
                    &&& final(waitlist)@ == old(waitlist)@.update_if_pending(key, waker)
                    &&& final(self)@ == (if old(waitlist)@.is_notified(key) {
                        None
                    } else {
                        Some(key)
                    })
                },
            },
    {
        proof {
            waitlist.lemma_wf();
            if let Some(key) = self@ {
                lemma_status_exclusive(waitlist@, key);
            }
        }
        if self.key.is_none() {
            self.set_waker(waitlist, waker);
            Readiness::Pending
        } else if self.try_finish_with(waitlist, waker) {
            Readiness::Ready
        } else {
            Readiness::Pending
        }
    }

    /// Gives up the handle and returns its key, which
    /// [`WaitHandle::from_key`] turns into a handle again. The entry stays in
    /// the wait list.
    pub fn into_key(self) -> (key: Option<usize>)
        ensures
            key == self@,
    {
        self.key
    }

    /// Makes a handle for `waitlist` from a key that [`WaitHandle::into_key`]
    /// returned for a handle of the same wait list. The handle takes over the
    /// entry of that key.
    ///
    /// Nothing checks at run time that the key comes from there. The
    /// operations of the handle require that the wait list holds the key.
    pub fn from_key(waitlist: &Waitlist, key: Option<usize>) -> (handle: WaitHandle)
        ensures
            handle@ == key,
    {
        WaitHandle { key }
    }
}

} // verus!
