//! An ordered list of wakers: tasks register to be woken and are woken in the
//! order in which they registered.

use vstd::prelude::*;

pub mod flags;
pub mod handle;
pub mod holders;
pub mod inner;
pub mod laws;
pub mod resume;
pub mod ring;
pub mod state;
pub mod waitlist;
pub mod wellformed;

pub use handle::{Readiness, WaitHandle};
pub use inner::Inner;
pub use resume::Waiter;
pub use state::State;
pub use waitlist::Waitlist;

verus! {

} // verus!
