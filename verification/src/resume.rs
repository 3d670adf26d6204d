//! The resumption callback and what the engine may do with one.
//!
//! A waiter hands the engine a [`Waker`]. The engine keeps it, may replace it
//! by a later one, and invokes it once when the waiter is woken. What an
//! invocation does is the caller's business and lies outside of what is
//! proved here.

use std::task::Context;
use std::task::Waker;
use vstd::prelude::*;

verus! {

#[verifier::external_type_specification]
#[verifier::external_body]
pub struct ExWaker(Waker);

#[verifier::external_type_specification]
#[verifier::external_body]
pub struct ExContext<'a>(Context<'a>);

/// `Context::waker` hands out the waker that the context was made from.
/// Nothing is claimed about it.
pub assume_specification<'a>[ Context::<'a>::waker ](cx: &Context<'a>) -> (waker: &'a Waker)
;

/// `Waker::clone` makes another handle on the same callback. Nothing is
/// claimed about it.
pub assume_specification[ <Waker as Clone>::clone ](waker: &Waker) -> (copy: Waker)
;

/// One registered wait: the key handed to its holder and the callback that
/// resumes it.
pub struct Waiter {
    pub key: usize,
    pub waker: Waker,
}

/// The record of the wake-ups that a wait list has made, oldest first.
///
/// A log holds no data at run time. It exists so that contracts can say whose
/// callback was invoked and in which order. A log starts empty and grows only
/// in [`wake`], which enters a waiter and invokes its callback in one step.
pub struct WakeLog {
    entries: Ghost<Seq<Waiter>>,
}

impl View for WakeLog {
    type V = Seq<Waiter>;

    closed spec fn view(&self) -> Seq<Waiter> {
        self.entries@
    }
}

impl WakeLog {
    /// A log without entries.
    pub fn new() -> (log: WakeLog)
        ensures
            log@ == Seq::<Waiter>::empty(),
    {
        WakeLog { entries: Ghost(Seq::empty()) }
    }
}

/// Calls `Waker::wake`, which runs the callback and uses the waker up.
///
/// Nothing is claimed about what the callback does: it is the caller's code.
/// It must return, and it cannot reach the wait list that invokes it, which
/// stays borrowed for as long as the call lasts.
#[verifier::external_body]
fn invoke(waker: Waker) {
    waker.wake()
}

/// Wakes `waiter`: enters it in `log` and invokes its callback.
///
/// The entry is book-keeping made here, next to the call. That the callback
/// ran is not proved, only that this function, which makes the call, is the
/// one place where a log grows.
pub(crate) fn wake(waiter: Waiter, log: &mut WakeLog)
    ensures
        final(log)@ == old(log)@.push(waiter),
{
    log.entries = Ghost(log.entries@.push(waiter));
    invoke(waiter.waker)
}

} // verus!
