//! Serial line setup: the baud divisor and the double-speed flag.
use vstd::prelude::*;

verus! {

/// The core clock rate, in Hz.
pub const CPU_HZ: u32 = 16_000_000;

/// The largest divisor the 12-bit baud register holds.
pub const MAX_UBRR: u32 = 4095;

/// The divisor with double speed on (8 samples per bit): the rounded value
/// of `(C/4/B - 1)/2` taken exactly, which is `C/(8B)` rounded down. It is
/// computed as `C/8/B` in integer arithmetic.
pub open spec fn ubrr_fast(clock: int, baud: int) -> int {
    clock / 8 / baud
}

/// The divisor with double speed off (16 samples per bit): the rounded value
/// of `(C/8/B - 1)/2`, which is `C/(16B)` rounded down, computed as `C/16/B`.
pub open spec fn ubrr_normal(clock: int, baud: int) -> int {
    clock / 16 / baud
}

/// Whether `baud` can be had from `clock`: one of the two divisors fits the
/// register.
pub open spec fn baud_supported(clock: int, baud: int) -> bool {
    &&& 1 <= baud
    &&& (ubrr_fast(clock, baud) <= MAX_UBRR || ubrr_normal(clock, baud) <= MAX_UBRR)
}

/// The setting of the serial device's rate registers.
#[derive(Clone, Copy, Debug, PartialEq, Eq, Structural)]
pub struct BaudRate {
    /// The divisor for the baud register.
    pub ubrr: u16,
    /// Whether double speed is on.
    pub u2x: bool,
}

impl BaudRate {
    /// The setting for `baud` on a core clocked at `clock` Hz: double speed
    /// with its divisor when that divisor fits 12 bits, else normal speed with
    /// the divisor recomputed.
    pub fn for_clock(clock: u32, baud: u32) -> (r: BaudRate)
        requires
            baud_supported(clock as int, baud as int),
        ensures
            ubrr_fast(clock as int, baud as int) <= MAX_UBRR ==> r.u2x && r.ubrr == ubrr_fast(
                clock as int,
                baud as int,
            ),
            ubrr_fast(clock as int, baud as int) > MAX_UBRR ==> !r.u2x && r.ubrr == ubrr_normal(
                clock as int,
                baud as int,
            ),
    {
        let fast = clock / 8 / baud;
        if fast <= MAX_UBRR {
            BaudRate { ubrr: fast as u16, u2x: true }
        } else {
            BaudRate { ubrr: (clock / 16 / baud) as u16, u2x: false }
        }
    }

    /// The setting for `baud` on this board's core clock, or `None` when that
    /// rate cannot be had from it.
    pub fn try_new(baud: u32) -> (r: Option<BaudRate>)
        ensures
            r.is_some() <==> baud_supported(CPU_HZ as int, baud as int),
            r matches Some(b) ==> (ubrr_fast(CPU_HZ as int, baud as int) <= MAX_UBRR ==> b.u2x
                && b.ubrr == ubrr_fast(CPU_HZ as int, baud as int)),
            r matches Some(b) ==> (ubrr_fast(CPU_HZ as int, baud as int) > MAX_UBRR ==> !b.u2x
                && b.ubrr == ubrr_normal(CPU_HZ as int, baud as int)),
    {
        if baud == 0 || (CPU_HZ / 8 / baud > MAX_UBRR && CPU_HZ / 16 / baud > MAX_UBRR) {
            return None;
        }
        Some(BaudRate::for_clock(CPU_HZ, baud))
    }

    /// The setting for `baud` on this board's core clock.
    pub fn new(baud: u32) -> (r: BaudRate)
        requires
            baud_supported(CPU_HZ as int, baud as int),
        ensures
            ubrr_fast(CPU_HZ as int, baud as int) <= MAX_UBRR ==> r.u2x && r.ubrr == ubrr_fast(
                CPU_HZ as int,
                baud as int,
            ),
            ubrr_fast(CPU_HZ as int, baud as int) > MAX_UBRR ==> !r.u2x && r.ubrr == ubrr_normal(
                CPU_HZ as int,
                baud as int,
            ),
    {
        BaudRate::for_clock(CPU_HZ, baud)
    }
}

} // verus!
