//! No operation takes a key away from a holder that is not party to it.
//!
//! A handle stays good for as long as its holder keeps it, whatever is done
//! through other handles and whoever is woken: an operation can end the hold
//! of the key it is applied to, and of no other.

use crate::state::State;
use std::task::Waker;
use vstd::prelude::*;

verus! {

/// The entry at a queue position waits under its key.
pub proof fn lemma_entry_waits(s: State, i: int)
    requires
        0 <= i < s.waiting.len(),
    ensures
        s.is_waiting(s.waiting[i].key),
{
    assert(s.keys()[i] == s.waiting[i].key);
}

/// A key that waits has a place in the queue.
pub proof fn lemma_place_of(s: State, key: usize) -> (i: int)
    requires
        s.is_waiting(key),
    ensures
        0 <= i < s.waiting.len(),
        s.waiting[i].key == key,
        i == s.position(key),
{
    let i = s.position(key);
    assert(0 <= i < s.keys().len() && s.keys()[i] == key);
    i
}

/// A new arrival waits under the key it was given, and takes nobody's key.
pub proof fn lemma_insert_keeps_holders(s: State, waker: Waker)
    ensures
        s.insert(waker).keeps_holders(s, None),
        s.insert(waker).is_waiting(s.next_key),
{
    let t = s.insert(waker);
    lemma_entry_waits(t, s.waiting.len() as int);
    assert forall|key: usize| s.is_live(key) implies #[trigger] t.is_live(key) by {
        if s.is_waiting(key) {
            let i = lemma_place_of(s, key);
            assert(t.waiting[i] == s.waiting[i]);
            lemma_entry_waits(t, i);
        }
    }
}

/// Swapping a callback leaves every key as it was.
pub proof fn lemma_replace_keeps_holders(s: State, key: usize, waker: Waker)
    requires
        s.is_waiting(key),
    ensures
        s.replace(key, waker).keeps_holders(s, None),
        s.replace(key, waker).is_waiting(key),
{
    let t = s.replace(key, waker);
    let p = lemma_place_of(s, key);
    assert forall|other: usize| s.is_live(other) implies #[trigger] t.is_live(other) by {
        if s.is_waiting(other) {
            let i = lemma_place_of(s, other);
            assert(t.waiting[i].key == other);
            lemma_entry_waits(t, i);
        }
    }
    assert(t.waiting[p].key == key);
    lemma_entry_waits(t, p);
}

/// Giving a key back ends the hold of that key only.
pub proof fn lemma_consume_keeps_holders(s: State, key: usize)
    ensures
        s.consume(key).keeps_holders(s, Some(key)),
{
    let t = s.consume(key);
    assert(t.keys() == s.keys());
}

/// Taking a key out ends the hold of that key only.
pub proof fn lemma_remove_keeps_holders(s: State, key: usize)
    ensures
        s.remove(key).keeps_holders(s, Some(key)),
{
    let t = s.remove(key);
    if s.is_waiting(key) {
        let p = lemma_place_of(s, key);
        assert forall|other: usize| s.is_live(other) && other != key implies #[trigger] t.is_live(
            other,
        ) by {
            if s.is_waiting(other) {
                let i = lemma_place_of(s, other);
                let j = if i < p {
                    i
                } else {
                    i - 1
                };
                assert(t.waiting[j] == s.waiting[i]);
                lemma_entry_waits(t, j);
            }
        }
    } else {
        lemma_consume_keeps_holders(s, key);
    }
}

/// A wake-up takes nobody's key: the entry woken holds its key on, as a
/// notified one.
pub proof fn lemma_notify_first_keeps_holders(s: State)
    ensures
        s.notify_first().keeps_holders(s, None),
        s.waiting.len() > 0 ==> s.notify_first().is_notified(s.waiting[0].key),
{
    let t = s.notify_first();
    if s.waiting.len() > 0 {
        assert forall|key: usize| s.is_live(key) implies #[trigger] t.is_live(key) by {
            if s.is_waiting(key) {
                let i = lemma_place_of(s, key);
                if i > 0 {
                    assert(t.waiting[i - 1] == s.waiting[i]);
                    lemma_entry_waits(t, i - 1);
                }
            }
        }
    }
}

/// Waking everybody takes nobody's key: every key that was held is notified.
pub proof fn lemma_notify_all_keeps_holders(s: State)
    ensures
        s.notify_all().keeps_holders(s, None),
        forall|key: usize| s.is_live(key) <==> #[trigger] s.notify_all().is_notified(key),
{
}

/// Waking one unless a wake-up is unconsumed takes nobody's key.
pub proof fn lemma_notify_any_keeps_holders(s: State)
    ensures
        s.notify_any().keeps_holders(s, None),
{
    lemma_notify_first_keeps_holders(s);
}

/// Registering again ends no hold but, where the entry had been woken, that
/// of its old key; the entry waits under the key it has afterwards.
pub proof fn lemma_update_keeps_holders(s: State, key: usize, waker: Waker)
    requires
        s.is_live(key),
    ensures
        s.update(key, waker).keeps_holders(s, Some(key)),
        s.update(key, waker).is_waiting(s.update_key(key)),
{
    if s.is_waiting(key) {
        lemma_replace_keeps_holders(s, key, waker);
    } else {
        let c = s.consume(key);
        lemma_consume_keeps_holders(s, key);
        lemma_insert_keeps_holders(c, waker);
        let t = c.insert(waker);
        assert forall|other: usize| s.is_live(other) && other != key implies #[trigger] t.is_live(
            other,
        ) by {
            assert(c.is_live(other));
        }
    }
}

/// Cancelling ends the hold of the cancelled key only.
pub proof fn lemma_cancel_keeps_holders(s: State, key: usize)
    ensures
        s.cancel(key).keeps_holders(s, Some(key)),
{
    let r = s.remove(key);
    lemma_remove_keeps_holders(s, key);
    if !s.is_waiting(key) {
        lemma_notify_first_keeps_holders(r);
        let t = r.notify_first();
        assert forall|other: usize| s.is_live(other) && other != key implies #[trigger] t.is_live(
            other,
        ) by {
            assert(r.is_live(other));
        }
    }
}

/// Looking whether an entry still waits ends no hold but that of a key that
/// is given back; an entry that waits goes on waiting under its key.
pub proof fn lemma_update_if_pending_keeps_holders(s: State, key: usize, waker: Waker)
    ensures
        s.update_if_pending(key, waker).keeps_holders(s, Some(key)),
        s.is_waiting(key) ==> s.update_if_pending(key, waker).is_waiting(key),
{
    if s.is_waiting(key) {
        lemma_replace_keeps_holders(s, key, waker);
    } else {
        lemma_consume_keeps_holders(s, key);
    }
}

} // verus!
