//! The flags word: a summary of a wait list in a few bits, cheap to read, by
//! which a notifier sees that it has nothing to do.

use crate::state::State;
use vstd::prelude::*;

verus! {

/// Kept free for a lock that lives in the flags word itself. No flags word
/// that is computed here has it set.
pub const LOCKED: usize = 1;

/// Set when at least one entry waits to be woken.
pub const WAITING: usize = 2;

/// Set when at least one entry has been woken and not yet given back.
pub const NOTIFIED: usize = 4;

/// The waiting bit of a flags word.
pub open spec fn has_waiting(flags: usize) -> bool {
    flags & WAITING != 0
}

/// The notified bit of a flags word.
pub open spec fn has_notified(flags: usize) -> bool {
    flags & NOTIFIED != 0
}

/// The flags word with the given two bits and no other.
pub open spec fn flags_with(waiting: bool, notified: bool) -> usize {
    (if waiting {
        WAITING
    } else {
        0
    }) | (if notified {
        NOTIFIED
    } else {
        0
    })
}

/// The flags word that describes `s`.
pub open spec fn flags_of(s: State) -> usize {
    flags_with(s.waiting.len() > 0, s.notified.len() > 0)
}

/// A flags word gives back the bits it was made from, and nothing else is set
/// in it.
pub proof fn lemma_flags_with(waiting: bool, notified: bool)
    ensures
        has_waiting(flags_with(waiting, notified)) == waiting,
        has_notified(flags_with(waiting, notified)) == notified,
        flags_with(waiting, notified) & LOCKED == 0,
        flags_with(waiting, notified) == (if waiting {
            2int
        } else {
            0int
        }) + (if notified {
            4int
        } else {
            0int
        }),
{
    assert(0usize | 0usize == 0 && 0usize | 4usize == 4 && 2usize | 0usize == 2 && 2usize | 4usize
        == 6) by (bit_vector);
    assert(0usize & 2usize == 0 && 2usize & 2usize == 2 && 4usize & 2usize == 0 && 6usize & 2usize
        == 2) by (bit_vector);
    assert(0usize & 4usize == 0 && 2usize & 4usize == 0 && 4usize & 4usize == 4 && 6usize & 4usize
        == 4) by (bit_vector);
    assert(0usize & 1usize == 0 && 2usize & 1usize == 0 && 4usize & 1usize == 0 && 6usize & 1usize
        == 0) by (bit_vector);
}

/// The flags word never understates: its bits are set exactly when there are
/// waiting entries and unconsumed wake-ups.
pub proof fn lemma_flags_exact(s: State)
    ensures
        has_waiting(flags_of(s)) <==> s.waiting.len() > 0,
        has_notified(flags_of(s)) <==> s.notified.len() > 0,
        flags_of(s) & LOCKED == 0,
{
    lemma_flags_with(s.waiting.len() > 0, s.notified.len() > 0);
}

/// Builds a flags word from its two bits.
pub fn make_flags(waiting: bool, notified: bool) -> (flags: usize)
    ensures
        flags == flags_with(waiting, notified),
{
    let mut flags: usize = 0;
    if waiting {
        flags |= WAITING;
    }
    if notified {
        flags |= NOTIFIED;
    }
    proof {
        lemma_flags_with(waiting, notified);
        assert(0usize | 2usize == 2 && 0usize | 4usize == 4) by (bit_vector);
    }
    flags
}

} // verus!
