//! What holds of a wait list however it is used.
//!
//! Each statement here is about the model, [`State`], and so about every
//! executable operation, whose contract names the model function it follows.

use crate::resume::Waiter;
use crate::ring::{distance, lemma_distance_basics, successor};
use crate::state::State;
use crate::wellformed::{
    lemma_consume, lemma_insert, lemma_keys_distinct, lemma_notify_all, lemma_notify_first,
    lemma_position, lemma_remove, lemma_replace, lemma_status_exclusive,
    lemma_waiting_has_position,
};
use std::task::Waker;
use vstd::prelude::*;

verus! {

/// Arrivals join the queue at the tail, in their order, under consecutive
/// keys, and leave everything else as it was.
pub proof fn lemma_insert_all(s: State, wakers: Seq<Waker>)
    requires
        s.wf(),
        s.can_insert_times(wakers.len()),
    ensures
        s.insert_all(wakers).wf(),
        s.insert_all(wakers).waiting.len() == s.waiting.len() + wakers.len(),
        s.insert_all(wakers).waiting.take(s.waiting.len() as int) == s.waiting,
        forall|i: int|
            0 <= i < wakers.len() ==> (#[trigger] s.insert_all(wakers).waiting[s.waiting.len()
                + i]).waker == wakers[i],
        s.insert_all(wakers).notified == s.notified,
        s.insert_all(wakers).woken == s.woken,
    decreases wakers.len(),
{
    if wakers.len() > 0 {
        let s1 = s.insert(wakers[0]);
        let rest = wakers.drop_first();
        lemma_insert(s, wakers[0]);
        assert(s1.can_insert_times(rest.len())) by {
            lemma_can_insert_times_ignores_queue(
                State { next_key: s1.next_key, ..s },
                s1,
                rest.len(),
            );
        }
        lemma_insert_all(s1, rest);
        let t = s.insert_all(wakers);
        assert(t == s1.insert_all(rest));
        assert(s1.waiting.take(s.waiting.len() as int) == s.waiting);
        assert(t.waiting.take(s.waiting.len() as int) == t.waiting.take(
            s1.waiting.len() as int,
        ).take(s.waiting.len() as int));
        assert forall|i: int| 0 <= i < wakers.len() implies (#[trigger] t.waiting[s.waiting.len()
            + i]).waker == wakers[i] by {
            if i == 0 {
                assert(t.waiting.take(s1.waiting.len() as int)[s.waiting.len() as int]
                    == t.waiting[s.waiting.len() as int]);
            } else {
                assert(t.waiting[s1.waiting.len() + (i - 1)].waker == rest[i - 1]);
            }
        }
    } else {
        assert(s.waiting.take(s.waiting.len() as int) == s.waiting);
    }
}

/// Keys do not run out while the interval of waiting keys, grown by the
/// arrivals, stays short of the whole ring and of every notified key.
pub proof fn lemma_room_for_arrivals(s: State, count: nat)
    requires
        s.wf(),
        s.span() + count <= usize::MAX,
        forall|k: usize| #[trigger]
            s.notified.contains(k) ==> distance(s.min_key, k) > s.span() + count,
    ensures
        s.can_insert_times(count),
    decreases count,
{
    if count > 0 {
        lemma_distance_basics(s.min_key, s.next_key);
        let grown = State { next_key: successor(s.next_key), ..s };
        if s.notified.contains(successor(s.next_key)) {
            assert(distance(s.min_key, successor(s.next_key)) > s.span() + count);
        }
        lemma_room_for_arrivals(grown, (count - 1) as nat);
    }
}

/// A wait list that was just made is well formed and has a key for each of
/// `usize::MAX` arrivals in a row, wherever its keys start.
pub proof fn lemma_new_list_has_room(first_key: usize, count: nat)
    requires
        count <= usize::MAX,
    ensures
        State::starting_at(first_key).wf(),
        State::starting_at(first_key).can_insert_times(count),
{
    lemma_distance_basics(first_key, first_key);
    lemma_room_for_arrivals(State::starting_at(first_key), count);
}

/// Whether there are keys for the next arrivals depends on the two counters
/// and on the notified keys, not on who waits.
pub proof fn lemma_can_insert_times_ignores_queue(a: State, b: State, count: nat)
    requires
        a.min_key == b.min_key,
        a.next_key == b.next_key,
        a.notified == b.notified,
    ensures
        a.can_insert_times(count) == b.can_insert_times(count),
    decreases count,
{
    if count > 0 {
        lemma_can_insert_times_ignores_queue(
            State { next_key: successor(a.next_key), ..a },
            State { next_key: successor(b.next_key), ..b },
            (count - 1) as nat,
        );
    }
}

/// As long as somebody waits, each wake-up of the earliest entry wakes
/// exactly one entry, the one at the head of the queue: `n` of them wake the
/// first `n` entries in queue order and leave the rest waiting in their
/// order.
pub proof fn lemma_notify_first_times(s: State, n: nat)
    requires
        s.wf(),
        n <= s.waiting.len(),
    ensures
        s.notify_first_times(n).wf(),
        s.notify_first_times(n).woken == s.woken + s.waiting.take(n as int),
        s.notify_first_times(n).waiting == s.waiting.skip(n as int),
        s.notify_first_times(n).notified.len() == s.notified.len() + n,
    decreases n,
{
    if n > 0 {
        let s1 = s.notify_first();
        lemma_notify_first(s);
        lemma_notify_first_times(s1, (n - 1) as nat);
        let t = s.notify_first_times(n);
        assert(t == s1.notify_first_times((n - 1) as nat));
        assert(s.woken.push(s.waiting[0]) + s.waiting.drop_first().take(n - 1) == s.woken
            + s.waiting.take(n as int));
        assert(s.waiting.drop_first().skip(n - 1) == s.waiting.skip(n as int));
    } else {
        assert(s.woken + s.waiting.take(0) == s.woken);
        assert(s.waiting.skip(0) == s.waiting);
    }
}

/// First come, first woken.
///
/// Let waiters register with the callbacks `wakers`, in that order. Then wake
/// the earliest entry once for each entry that waited before them, and `n`
/// times more. The wake-ups go first to those who waited before, then to the
/// first `n` of the new callbacks, in the order in which they registered, one
/// per wake-up, and to nobody else. The other new waiters wait on in their
/// order.
pub proof fn lemma_fifo_fairness(s: State, wakers: Seq<Waker>, n: nat)
    requires
        s.wf(),
        s.can_insert_times(wakers.len()),
        n <= wakers.len(),
    ensures
        ({
            let t = s.insert_all(wakers).notify_first_times(s.waiting.len() + n);
            let before = s.woken.len() + s.waiting.len();
            &&& t.wf()
            &&& t.woken.len() == before + n
            &&& t.woken.take(before as int) == s.woken + s.waiting
            &&& forall|i: int| 0 <= i < n ==> (#[trigger] t.woken[before + i]).waker == wakers[i]
            &&& t.waiting.len() == wakers.len() - n
            &&& forall|i: int|
                0 <= i < wakers.len() - n ==> (#[trigger] t.waiting[i]).waker == wakers[n + i]
        }),
{
    let m = s.waiting.len();
    let q = s.insert_all(wakers);
    lemma_insert_all(s, wakers);
    lemma_notify_first_times(q, m + n);
    let t = q.notify_first_times(m + n);
    let before = s.woken.len() + m;
    assert(q.waiting.take((m + n) as int).take(m as int) == q.waiting.take(m as int));
    assert(t.woken.take(before as int) == s.woken + s.waiting);
    assert forall|i: int| 0 <= i < n implies (#[trigger] t.woken[before + i]).waker
        == wakers[i] by {
        assert(t.woken[before + i] == q.waiting[m + i]);
    }
    assert forall|i: int| 0 <= i < wakers.len() - n implies (#[trigger] t.waiting[i]).waker
        == wakers[n + i] by {
        assert(t.waiting[i] == q.waiting[m + (n + i)]);
    }
}

/// Waking everybody wakes each waiting entry once and nobody twice: the
/// wake-ups made are the queue itself, in its order, in which no key occurs
/// twice. Afterwards nobody waits, and every key that waited is notified.
pub proof fn lemma_notify_all_once_each(s: State)
    requires
        s.wf(),
    ensures
        s.notify_all().wf(),
        s.notify_all().woken == s.woken + s.waiting,
        s.notify_all().waiting.len() == 0,
        forall|i: int, j: int|
            0 <= i < j < s.waiting.len() ==> (#[trigger] s.waiting[i]).key
                != (#[trigger] s.waiting[j]).key,
        forall|key: usize| s.is_live(key) <==> #[trigger] s.notify_all().is_notified(key),
        s.notify_all().notified.len() == s.notified.len() + s.waiting.len(),
{
    lemma_notify_all(s);
    lemma_keys_distinct(s);
    assert forall|i: int, j: int| 0 <= i < j < s.waiting.len() implies (#[trigger] s.waiting[i]).key
        != (#[trigger] s.waiting[j]).key by {
        assert(s.keys()[i] != s.keys()[j]);
    }
}

/// Waking one unless a wake-up is unconsumed, done twice in a row, wakes at
/// most one entry: the second call finds the wake-up of the first, or nobody
/// to wake, and changes nothing.
pub proof fn lemma_notify_any_twice(s: State)
    requires
        s.wf(),
    ensures
        s.notify_any().wf(),
        s.notify_any().notify_any() == s.notify_any(),
        !(s.notify_any().notified.len() == 0 && s.notify_any().waiting.len() > 0),
        s.notify_any().notify_any().woken.len() <= s.woken.len() + 1,
{
    lemma_notify_first(s);
}

/// Cancelling an entry that was woken passes the wake-up on: the earliest
/// entry that waits is woken, once, and takes the place of the cancelled one
/// among the notified.
pub proof fn lemma_cancel_forwards(s: State, key: usize)
    requires
        s.wf(),
        s.is_notified(key),
        s.waiting.len() > 0,
    ensures
        s.cancel(key).wf(),
        s.cancel(key).woken == s.woken.push(s.waiting[0]),
        s.cancel(key).waiting == s.waiting.drop_first(),
        !s.cancel(key).is_live(key),
        s.cancel(key).is_notified(s.waiting[0].key),
        s.cancel(key).notified.len() == s.notified.len(),
{
    lemma_status_exclusive(s, key);
    lemma_remove(s, key);
    lemma_consume(s, key);
    let r = s.remove(key);
    lemma_notify_first(r);
    lemma_position(s, 0);
    lemma_status_exclusive(s, s.waiting[0].key);
    let c = s.cancel(key);
    if c.is_waiting(key) {
        lemma_waiting_has_position(c, key);
        let p = c.position(key);
        assert(c.waiting[p] == s.waiting[p + 1]);
        lemma_position(s, p + 1);
    }
}

/// Cancelling an entry that still waits wakes nobody.
pub proof fn lemma_cancel_waiting_is_silent(s: State, key: usize)
    requires
        s.wf(),
        s.is_waiting(key),
    ensures
        s.cancel(key).wf(),
        s.cancel(key).woken == s.woken,
        s.cancel(key).notified == s.notified,
        s.cancel(key).waiting == s.waiting.remove(s.position(key)),
        !s.cancel(key).is_live(key),
{
    lemma_remove(s, key);
}

/// Two waiters, one wake-up, one cancellation: the wake-up reaches the first
/// waiter, and when that one cancels, the second, once.
pub proof fn lemma_cancel_forwards_to_second(s: State, first: Waiter, second: Waiter)
    requires
        s.wf(),
        s.waiting == seq![first, second],
    ensures
        s.notify_first().woken == s.woken.push(first),
        s.notify_first().cancel(first.key).woken == s.woken.push(first).push(second),
        s.notify_first().cancel(first.key).waiting.len() == 0,
{
    let s1 = s.notify_first();
    lemma_notify_first(s);
    assert(s1.waiting == seq![second]);
    lemma_cancel_forwards(s1, first.key);
    assert(s1.waiting.drop_first().len() == 0);
}

/// Registering twice through one handle makes one entry, not two: the second
/// call swaps the callback of the entry that the first call made. Once those
/// who waited before have been woken, one wake-up invokes the second
/// callback, and a further one finds nobody.
pub proof fn lemma_register_twice(s: State, first: Waker, second: Waker)
    requires
        s.wf(),
        s.can_insert(),
    ensures
        ({
            let key = s.registered_key(None);
            let entry = Waiter { key, waker: second };
            let s1 = s.register(None, first);
            let s2 = s1.register(Some(key), second);
            &&& s1.holds(Some(key))
            &&& s1.can_register(Some(key))
            &&& s1.registered_key(Some(key)) == key
            &&& s2.wf()
            &&& s2.waiting == s.waiting.push(entry)
            &&& s2.notified == s.notified
            &&& s2.woken == s.woken
            &&& s2.notify_first_times(s.waiting.len() + 1).woken == (s.woken + s.waiting).push(
                entry,
            )
            &&& s2.notify_first_times(s.waiting.len() + 2) == s2.notify_first_times(
                s.waiting.len() + 1,
            )
        }),
{
    let key = s.next_key;
    let entry = Waiter { key, waker: second };
    let s1 = s.insert(first);
    lemma_insert(s, first);
    lemma_replace(s1, key, second);
    let s2 = s1.replace(key, second);
    assert(s2.waiting == s.waiting.push(entry));
    let m = s.waiting.len();
    lemma_notify_first_times(s2, m + 1);
    assert(s2.waiting.take((m + 1) as int) == s.waiting.push(entry));
    assert(s.woken + s.waiting.push(entry) == (s.woken + s.waiting).push(entry));
    lemma_notify_first_times_split(s2, m + 1, 1);
    let t = s2.notify_first_times(m + 1);
    assert(t.waiting.len() == 0);
    assert(t.notify_first_times(1) == t.notify_first().notify_first_times(0));
}

/// Wake-ups made one after the other, in two batches, are the same as made in
/// one batch.
pub proof fn lemma_notify_first_times_split(s: State, a: nat, b: nat)
    ensures
        s.notify_first_times(a + b) == s.notify_first_times(a).notify_first_times(b),
    decreases a,
{
    if a > 0 {
        lemma_notify_first_times_split(s.notify_first(), (a - 1) as nat, b);
        assert(s.notify_first_times(a + b) == s.notify_first().notify_first_times(
            (a + b - 1) as nat,
        ));
    }
}

/// A key that was given back is free, and stays free until it is handed out
/// again: the next arrival gets a key that nobody holds, and changes the
/// status of no other key. So the old holder's key names the new entry only
/// if it is the very key that the new entry received.
pub proof fn lemma_reuse_safety(s: State, key: usize, waker: Waker)
    requires
        s.wf(),
        s.is_live(key),
        s.remove(key).can_insert(),
    ensures
        !s.remove(key).is_live(key),
        !s.remove(key).is_live(s.remove(key).next_key),
        s.remove(key).insert(waker).wf(),
        forall|other: usize|
            other != s.remove(key).next_key ==> (#[trigger] s.remove(key).insert(
                waker,
            ).is_waiting(other) <==> s.remove(key).is_waiting(other)),
        forall|other: usize| #[trigger]
            s.remove(key).insert(waker).is_notified(other) <==> s.remove(key).is_notified(other),
        s.remove(key).insert(waker).is_live(key) <==> key == s.remove(key).next_key,
{
    let r = s.remove(key);
    lemma_remove(s, key);
    lemma_insert(r, waker);
    let t = r.insert(waker);
    assert forall|other: usize| other != r.next_key implies (#[trigger] t.is_waiting(other)
        <==> r.is_waiting(other)) by {
        if t.is_waiting(other) {
            lemma_waiting_has_position(t, other);
            let p = t.position(other);
            assert(t.waiting[p] == r.waiting[p]);
            assert(r.keys()[p] == other);
        }
        if r.is_waiting(other) {
            lemma_waiting_has_position(r, other);
            let p = r.position(other);
            assert(t.waiting[p] == r.waiting[p]);
            assert(t.keys()[p] == other);
        }
    }
}

/// A handle that holds no key can be cancelled or discarded any number of
/// times: nothing happens.
pub proof fn lemma_abandon_unregistered(s: State)
    ensures
        s.abandon(None) == s,
        !s.abandon_forwards(None),
        s.finish(None) == s,
        !s.has_fired(None),
{
}

/// No wake-up is lost. The number of unconsumed wake-ups goes up by one with
/// each entry woken, and goes down by one only when a woken holder finishes,
/// or cancels while nobody is left to take the wake-up over.
pub proof fn lemma_wakeups_are_conserved(s: State, key: usize)
    requires
        s.wf(),
    ensures
        s.waiting.len() > 0 ==> s.notify_first().notified.len() == s.notified.len() + 1,
        s.is_notified(key) ==> s.remove(key).notified.len() == s.notified.len() - 1,
        s.is_notified(key) && s.waiting.len() > 0 ==> s.cancel(key).notified.len()
            == s.notified.len(),
        s.is_notified(key) && s.waiting.len() == 0 ==> s.cancel(key).notified.len()
            == s.notified.len() - 1,
        s.is_waiting(key) ==> s.remove(key).notified == s.notified && s.cancel(key).notified
            == s.notified,
{
    lemma_notify_first(s);
    lemma_status_exclusive(s, key);
    if s.is_notified(key) {
        lemma_consume(s, key);
        if s.waiting.len() > 0 {
            lemma_cancel_forwards(s, key);
        }
    }
}

} // verus!
