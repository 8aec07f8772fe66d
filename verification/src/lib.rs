//! Runtime core of a single-core, OS-free microcontroller firmware.
//!
//! The crate models how a small set of memory-mapped peripherals (a GPIO
//! output line, two hardware timers, an edge-triggered interrupt controller)
//! is shared among one idle context and several interrupt contexts, with
//! interrupt priority as the only synchronization primitive.  Register-level
//! access to a concrete chip is left to the surrounding application; this
//! library holds the access discipline and the event semantics, verified.
use vstd::prelude::*;

pub mod edge;
pub mod kernel;
pub mod ledger;
pub mod output;
pub mod system;
pub mod timer;

verus! {

/// Busy-wait spin loop used by the idle context to pace its work.
/// Timing only: it touches no peripheral and has no observable effect.
pub fn delay(count: u32) {
    let mut i: u32 = 0;
    while i < count
        invariant
            i <= count,
        decreases count - i,
    {
        i = i + 1;
    }
}

} // verus!
