//! Every operation of the model keeps the invariant.

use crate::ring::{
    distance, lemma_distance_basics, lemma_distance_injective, lemma_distance_rebase, successor,
};
use crate::state::State;
use std::task::Waker;
use vstd::prelude::*;
use vstd::set_lib::{lemma_len_subset, lemma_set_disjoint_lens};

verus! {

/// In a well-formed state a waiting key is found at exactly one position.
pub proof fn lemma_position(s: State, i: int)
    requires
        s.wf(),
        0 <= i < s.waiting.len(),
    ensures
        s.is_waiting(s.waiting[i].key),
        s.position(s.waiting[i].key) == i,
{
    let key = s.waiting[i].key;
    assert(s.keys()[i] == key);
    let p = s.position(key);
    assert(0 <= p < s.keys().len() && s.keys()[p] == key);
    assert(s.waiting[p].key == key);
    if p < i {
        assert(distance(s.min_key, s.waiting[p].key) < distance(s.min_key, s.waiting[i].key));
    }
    if i < p {
        assert(distance(s.min_key, s.waiting[i].key) < distance(s.min_key, s.waiting[p].key));
    }
}

/// A waiting key names an entry of the queue.
pub proof fn lemma_waiting_has_position(s: State, key: usize)
    requires
        s.is_waiting(key),
    ensures
        0 <= s.position(key) < s.waiting.len(),
        s.waiting[s.position(key)].key == key,
{
    let p = s.position(key);
    assert(0 <= p < s.keys().len() && s.keys()[p] == key);
}

/// Every key is in exactly one of three conditions: waiting, notified, or
/// free. The key that the next arrival will receive is always free.
pub proof fn lemma_status_exclusive(s: State, key: usize)
    requires
        s.wf(),
    ensures
        !(s.is_waiting(key) && s.is_notified(key)),
        !s.is_live(s.next_key),
{
    if s.is_waiting(key) {
        lemma_waiting_has_position(s, key);
    }
    if s.is_waiting(s.next_key) {
        lemma_waiting_has_position(s, s.next_key);
    }
}

/// No key waits twice.
pub proof fn lemma_keys_distinct(s: State)
    requires
        s.wf(),
    ensures
        s.keys().no_duplicates(),
{
    assert forall|i: int, j: int|
        0 <= i < s.keys().len() && 0 <= j < s.keys().len() && i != j implies s.keys()[i]
        != s.keys()[j] by {
        if i < j {
            assert(distance(s.min_key, s.waiting[i].key) < distance(s.min_key, s.waiting[j].key));
        } else {
            assert(distance(s.min_key, s.waiting[j].key) < distance(s.min_key, s.waiting[i].key));
        }
    }
}

/// The live keys never fill the ring: one key at least, `next_key`, is free.
/// So both counts fit a `usize` together.
pub proof fn lemma_live_count(s: State)
    requires
        s.wf(),
    ensures
        s.keys().to_set().finite(),
        s.keys().to_set().len() == s.waiting.len(),
        s.notified.disjoint(s.keys().to_set()),
        s.notified.len() + s.waiting.len() <= usize::MAX,
{
    broadcast use vstd::seq_lib::seq_to_set_is_finite;
    broadcast use vstd::set_lib::full_set_properties;

    let waiting_keys = s.keys().to_set();
    lemma_keys_distinct(s);
    s.keys().unique_seq_to_set();
    assert forall|k: usize| !(s.notified.contains(k) && waiting_keys.contains(k)) by {
        lemma_status_exclusive(s, k);
    }
    lemma_set_disjoint_lens(s.notified, waiting_keys);
    let live = s.notified + waiting_keys;
    let others = Set::<usize>::full().remove(s.next_key);
    assert forall|k: usize| live.contains(k) implies others.contains(k) by {
        lemma_status_exclusive(s, k);
        lemma_status_exclusive(s, s.next_key);
    }
    vstd::set_lib::range_set_properties::<usize>(0, usize::MAX);
    assert(Set::<usize>::full() =~= Set::<usize>::range(0, usize::MAX).insert(usize::MAX));
    assert(Set::<usize>::full().len() == usize::MAX + 1);
    lemma_len_subset(live, others);
}

/// Handing out a key keeps the invariant, and the key handed out was free.
pub proof fn lemma_insert(s: State, waker: Waker)
    requires
        s.wf(),
        s.can_insert(),
    ensures
        s.insert(waker).wf(),
        !s.is_live(s.next_key),
        s.insert(waker).is_waiting(s.next_key),
        s.insert(waker).position(s.next_key) == s.waiting.len(),
{
    let t = s.insert(waker);
    lemma_status_exclusive(s, s.next_key);
    lemma_distance_basics(s.min_key, s.next_key);
    assert forall|i: int| 0 <= i < t.waiting.len() implies distance(
        t.min_key,
        (#[trigger] t.waiting[i]).key,
    ) < t.span() by {
        if i < s.waiting.len() {
            assert(t.waiting[i] == s.waiting[i]);
        }
    }
    assert forall|i: int, j: int| 0 <= i < j < t.waiting.len() implies distance(
        t.min_key,
        (#[trigger] t.waiting[i]).key,
    ) < distance(t.min_key, (#[trigger] t.waiting[j]).key) by {
        assert(t.waiting[i] == s.waiting[i]);
        if j < s.waiting.len() {
            assert(t.waiting[j] == s.waiting[j]);
        }
    }
    assert forall|k: usize| #[trigger] t.notified.contains(k) implies distance(t.min_key, k)
        > t.span() by {
        if distance(s.min_key, k) == s.span() + 1 {
            lemma_distance_injective(s.min_key, k, successor(s.next_key));
        }
    }
    lemma_position(t, s.waiting.len() as int);
}

/// Swapping a callback keeps the invariant and every key's status.
pub proof fn lemma_replace(s: State, key: usize, waker: Waker)
    requires
        s.wf(),
        s.is_waiting(key),
    ensures
        s.replace(key, waker).wf(),
        s.replace(key, waker).keys() == s.keys(),
{
    let t = s.replace(key, waker);
    lemma_waiting_has_position(s, key);
    let p = s.position(key);
    assert forall|i: int| 0 <= i < t.waiting.len() implies (#[trigger] t.waiting[i]).key
        == s.waiting[i].key by {}
    assert(t.keys() =~= s.keys());
    assert forall|i: int| 0 <= i < t.waiting.len() implies distance(
        t.min_key,
        (#[trigger] t.waiting[i]).key,
    ) < t.span() by {
        assert(t.waiting[i].key == s.waiting[i].key);
    }
    assert forall|i: int, j: int| 0 <= i < j < t.waiting.len() implies distance(
        t.min_key,
        (#[trigger] t.waiting[i]).key,
    ) < distance(t.min_key, (#[trigger] t.waiting[j]).key) by {
        assert(t.waiting[i].key == s.waiting[i].key);
        assert(t.waiting[j].key == s.waiting[j].key);
    }
}

/// Giving a notified key back keeps the invariant.
pub proof fn lemma_consume(s: State, key: usize)
    requires
        s.wf(),
        s.is_notified(key),
    ensures
        s.consume(key).wf(),
        s.consume(key).notified.len() == s.notified.len() - 1,
        !s.consume(key).is_live(key),
{
    lemma_status_exclusive(s, key);
}

/// Taking a key out keeps the invariant and frees the key.
pub proof fn lemma_remove(s: State, key: usize)
    requires
        s.wf(),
        s.is_live(key),
    ensures
        s.remove(key).wf(),
        !s.remove(key).is_live(key),
        s.is_waiting(key) ==> s.remove(key).waiting.len() == s.waiting.len() - 1,
{
    let t = s.remove(key);
    lemma_status_exclusive(s, key);
    if s.is_waiting(key) {
        lemma_waiting_has_position(s, key);
        let p = s.position(key);
        assert forall|i: int| 0 <= i < t.waiting.len() implies #[trigger] t.waiting[i]
            == s.waiting[if i < p {
            i
        } else {
            i + 1
        }] by {}
        assert forall|i: int| 0 <= i < t.waiting.len() implies distance(
            t.min_key,
            (#[trigger] t.waiting[i]).key,
        ) < t.span() by {
            assert(t.waiting[i] == s.waiting[if i < p {
                i
            } else {
                i + 1
            }]);
        }
        assert forall|i: int, j: int| 0 <= i < j < t.waiting.len() implies distance(
            t.min_key,
            (#[trigger] t.waiting[i]).key,
        ) < distance(t.min_key, (#[trigger] t.waiting[j]).key) by {
            assert(t.waiting[i] == s.waiting[if i < p {
                i
            } else {
                i + 1
            }]);
            assert(t.waiting[j] == s.waiting[if j < p {
                j
            } else {
                j + 1
            }]);
        }
        if t.is_waiting(key) {
            lemma_waiting_has_position(t, key);
            let q = t.position(key);
            let q0 = if q < p {
                q
            } else {
                q + 1
            };
            assert(t.waiting[q] == s.waiting[q0]);
            lemma_position(s, q0);
        }
    } else {
        lemma_consume(s, key);
    }
}

/// Waking the earliest entry keeps the invariant.
pub proof fn lemma_notify_first(s: State)
    requires
        s.wf(),
    ensures
        s.notify_first().wf(),
        s.waiting.len() > 0 ==> !s.is_notified(s.waiting[0].key) && s.notify_first().notified.len()
            == s.notified.len() + 1,
{
    if s.waiting.len() > 0 {
        let t = s.notify_first();
        let head = s.waiting[0].key;
        lemma_position(s, 0);
        lemma_status_exclusive(s, head);
        lemma_distance_rebase(s.min_key, head, s.next_key);
        assert forall|i: int| 0 <= i < t.waiting.len() implies distance(
            t.min_key,
            (#[trigger] t.waiting[i]).key,
        ) < t.span() by {
            assert(t.waiting[i] == s.waiting[i + 1]);
            lemma_distance_rebase(s.min_key, head, s.waiting[i + 1].key);
        }
        assert forall|i: int, j: int| 0 <= i < j < t.waiting.len() implies distance(
            t.min_key,
            (#[trigger] t.waiting[i]).key,
        ) < distance(t.min_key, (#[trigger] t.waiting[j]).key) by {
            assert(t.waiting[i] == s.waiting[i + 1]);
            assert(t.waiting[j] == s.waiting[j + 1]);
            lemma_distance_rebase(s.min_key, head, s.waiting[i + 1].key);
            lemma_distance_rebase(s.min_key, head, s.waiting[j + 1].key);
        }
        assert forall|k: usize| #[trigger] t.notified.contains(k) implies distance(t.min_key, k)
            > t.span() by {
            lemma_distance_rebase(s.min_key, head, k);
        }
    }
}

/// Waking everybody keeps the invariant.
pub proof fn lemma_notify_all(s: State)
    requires
        s.wf(),
    ensures
        s.notify_all().wf(),
        s.notify_all().notified.len() == s.notified.len() + s.waiting.len(),
{
    broadcast use vstd::seq_lib::seq_to_set_is_finite;

    let t = s.notify_all();
    lemma_live_count(s);
    lemma_set_disjoint_lens(s.notified, s.keys().to_set());
    lemma_distance_basics(t.min_key, t.next_key);
    assert forall|k: usize| #[trigger] t.notified.contains(k) implies distance(t.min_key, k)
        > t.span() by {
        lemma_status_exclusive(s, k);
        lemma_status_exclusive(s, s.next_key);
        lemma_distance_basics(s.next_key, k);
    }
}

/// Registering again keeps the invariant: the entry keeps its key while it
/// waits, and gets a key that was free if it had been woken.
pub proof fn lemma_update(s: State, key: usize, waker: Waker)
    requires
        s.wf(),
        s.is_live(key),
        s.is_notified(key) ==> s.consume(key).can_insert(),
    ensures
        s.update(key, waker).wf(),
        s.update(key, waker).is_waiting(s.update_key(key)),
{
    lemma_status_exclusive(s, key);
    if s.is_waiting(key) {
        lemma_replace(s, key, waker);
    } else {
        lemma_consume(s, key);
        lemma_insert(s.consume(key), waker);
    }
}

/// Cancelling keeps the invariant and frees the key.
pub proof fn lemma_cancel(s: State, key: usize)
    requires
        s.wf(),
        s.is_live(key),
    ensures
        s.cancel(key).wf(),
        !s.cancel(key).is_live(key),
{
    lemma_status_exclusive(s, key);
    lemma_remove(s, key);
    if !s.is_waiting(key) {
        let r = s.remove(key);
        lemma_notify_first(r);
        let c = r.notify_first();
        if r.waiting.len() > 0 {
            lemma_position(s, 0);
            if c.is_waiting(key) {
                lemma_waiting_has_position(c, key);
                let p = c.position(key);
                assert(c.waiting[p] == s.waiting[p + 1]);
                lemma_position(s, p + 1);
            }
        }
    }
}

/// Looking whether an entry still waits keeps the invariant: the entry waits
/// on, or its key is free.
pub proof fn lemma_update_if_pending(s: State, key: usize, waker: Waker)
    requires
        s.wf(),
        s.is_live(key),
    ensures
        s.update_if_pending(key, waker).wf(),
        s.is_waiting(key) ==> s.update_if_pending(key, waker).is_waiting(key),
        s.is_notified(key) ==> !s.update_if_pending(key, waker).is_live(key),
{
    lemma_status_exclusive(s, key);
    if s.is_waiting(key) {
        lemma_replace(s, key, waker);
    } else {
        lemma_consume(s, key);
    }
}

/// Waking one unless a wake-up is unconsumed keeps the invariant.
pub proof fn lemma_notify_any(s: State)
    requires
        s.wf(),
    ensures
        s.notify_any().wf(),
{
    lemma_notify_first(s);
}

} // verus!
