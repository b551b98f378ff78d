//! The network stack's view of the board clock. Reading the hardware
//! millisecond counter happens outside; these functions turn that reading
//! into the 32-bit values the stack's callbacks hand on.

use vstd::prelude::*;

verus! {

/// Current time for the network stack: the millisecond counter, truncated
/// to its low 32 bits.
pub fn sys_now(clock_ms: u64) -> (r: u32)
    ensures
        r == clock_ms as u32,
{
    clock_ms as u32
}

/// Jiffies for the network stack: the same millisecond counter, truncated
/// the same way.
pub fn sys_jiffies(clock_ms: u64) -> (r: u32)
    ensures
        r == clock_ms as u32,
{
    clock_ms as u32
}

} // verus!
