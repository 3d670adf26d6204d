//! Arithmetic on the ring of keys.
//!
//! Keys are drawn from a counter that wraps at `usize::MAX`, so "earlier" and
//! "later" only make sense relative to a starting point. Everything here
//! measures forward distance from such a point.

use vstd::prelude::*;

verus! {

/// Number of distinct keys.
pub open spec fn ring_size() -> int {
    usize::MAX + 1
}

/// Forward steps needed to reach `to` when counting up from `from`, wrapping
/// past `usize::MAX` to zero.
pub open spec fn distance(from: usize, to: usize) -> int {
    if from <= to {
        to - from
    } else {
        to - from + ring_size()
    }
}

/// The key that follows `key` on the ring.
pub open spec fn successor(key: usize) -> usize {
    if key == usize::MAX {
        0
    } else {
        (key + 1) as usize
    }
}

/// Whether `key` lies in the half-open ring interval that starts at `min` and
/// ends just before `next`.
pub open spec fn in_range(min: usize, next: usize, key: usize) -> bool {
    distance(min, key) < distance(min, next)
}

/// Computes [`successor`].
pub fn next_after(key: usize) -> (following: usize)
    ensures
        following == successor(key),
{
    key.wrapping_add(1)
}

/// Computes [`distance`].
pub fn steps_between(from: usize, to: usize) -> (steps: usize)
    ensures
        steps == distance(from, to),
{
    to.wrapping_sub(from)
}

/// A distance is always a valid `usize`, is zero only between a key and
/// itself, and grows by one when the end point moves to its successor (unless
/// that closes the ring).
pub proof fn lemma_distance_basics(from: usize, to: usize)
    ensures
        0 <= distance(from, to) < ring_size(),
        distance(from, to) == 0 <==> from == to,
        successor(to) != from ==> distance(from, successor(to)) == distance(from, to) + 1,
        successor(to) == from ==> distance(from, to) == ring_size() - 1,
{
}

/// Moving the starting point forward to just past `pivot` shortens every
/// distance that reached beyond `pivot` by the same amount, and sends `pivot`
/// itself to the far end of the ring.
pub proof fn lemma_distance_rebase(from: usize, pivot: usize, to: usize)
    ensures
        distance(from, to) > distance(from, pivot) ==> distance(successor(pivot), to) == distance(
            from,
            to,
        ) - distance(from, pivot) - 1,
        distance(successor(pivot), pivot) == ring_size() - 1,
{
}

/// Two keys at the same distance from a common starting point are the same key.
pub proof fn lemma_distance_injective(from: usize, a: usize, b: usize)
    requires
        distance(from, a) == distance(from, b),
    ensures
        a == b,
{
}

} // verus!
