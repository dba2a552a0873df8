//! Busy-wait delays: how many core cycles to spin for a given time.
use vstd::prelude::*;

verus! {

/// Core cycles per microsecond (a 16 MHz clock).
pub const CYCLES_PER_US: u32 = 16;

/// Cycles that calling and setting up a delay already costs.
pub const SETUP_CYCLES: u32 = 21;

/// The cycles to spin for `us` microseconds: none for 0 or 1 (the setup
/// already takes that long), else 16 per microsecond less the setup, and at
/// most `u32::MAX`.
pub open spec fn spin_cycles(us: int) -> int {
    if us <= 1 {
        0
    } else if CYCLES_PER_US * us - SETUP_CYCLES > u32::MAX {
        u32::MAX as int
    } else {
        CYCLES_PER_US * us - SETUP_CYCLES
    }
}

/// The cycles to spin so that a wait lasts at least `us` microseconds.
pub fn delay_cycles_for_us(us: u32) -> (r: u32)
    ensures
        r == spin_cycles(us as int),
{
    if us <= 1 {
        return 0;
    }
    let per_us: u64 = CYCLES_PER_US as u64;
    let setup: u64 = SETUP_CYCLES as u64;
    assert(per_us == 16 && setup == 21);
    let cycles: u64 = us as u64 * per_us - setup;
    if cycles > u32::MAX as u64 {
        u32::MAX
    } else {
        cycles as u32
    }
}

/// The cycles to spin so that a wait lasts at least `ms` milliseconds.
pub fn delay_cycles_for_ms(ms: u16) -> (r: u32)
    ensures
        r == spin_cycles(ms * 1000),
{
    delay_cycles_for_us(ms as u32 * 1000)
}

} // verus!
