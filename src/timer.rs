//! The timer-driven clock: a periodic compare-match interrupt adds a fixed
//! number of milliseconds to a counter, and a wait sleeps until the counter
//! reaches its target.
use vstd::prelude::*;

verus! {

/// The timer's clock divisors.
#[derive(Clone, Copy, Debug, PartialEq, Eq, Structural)]
pub enum Prescaler {
    Div8,
    Div64,
    Div256,
    Div1024,
}

impl Prescaler {
    /// The divisor as a number.
    pub open spec fn spec_divisor(self) -> u32 {
        match self {
            Prescaler::Div8 => 8,
            Prescaler::Div64 => 64,
            Prescaler::Div256 => 256,
            Prescaler::Div1024 => 1024,
        }
    }

    /// The divisor as a number.
    pub fn divisor(self) -> (r: u32)
        ensures
            r == self.spec_divisor(),
    {
        match self {
            Prescaler::Div8 => 8,
            Prescaler::Div64 => 64,
            Prescaler::Div256 => 256,
            Prescaler::Div1024 => 1024,
        }
    }

    /// The prescaler that divides by `d`, if the timer has one.
    pub fn from_divisor(d: u32) -> (r: Option<Prescaler>)
        ensures
            r matches Some(p) ==> p.spec_divisor() == d,
            r.is_none() <==> (d != 8 && d != 64 && d != 256 && d != 1024),
    {
        match d {
            8 => Some(Prescaler::Div8),
            64 => Some(Prescaler::Div64),
            256 => Some(Prescaler::Div256),
            1024 => Some(Prescaler::Div1024),
            _ => None,
        }
    }
}

/// The prescaler this board's clock runs its timer with.
pub const PRESCALER: u32 = 1024;

/// The compare value at which the timer restarts and interrupts.
pub const TIMER_COUNTS: u8 = 219;

/// The core clock rate, in kHz.
pub const CPU_KHZ: u32 = 16_000;

/// Milliseconds that pass between two timer interrupts, rounded down:
/// `prescaler * counts / clock_khz`.
pub fn millis_increment(prescaler: Prescaler, counts: u8, clock_khz: u32) -> (r: u32)
    requires
        clock_khz >= 1,
    ensures
        r == (prescaler.spec_divisor() * counts) as int / (clock_khz as int),
{
    let p = prescaler.divisor();
    let ticks: u32 = p * (counts as u32);
    ticks / clock_khz
}

/// The count after one interrupt: `millis + inc`, stopping at `u32::MAX`.
pub open spec fn ticked(millis: u32, inc: u32) -> u32 {
    if millis + inc > u32::MAX {
        u32::MAX
    } else {
        (millis + inc) as u32
    }
}

/// The count after `k` more interrupts, starting from `millis`.
pub open spec fn after_ticks(millis: u32, inc: u32, k: nat) -> u32
    decreases k,
{
    if k == 0 {
        millis
    } else {
        ticked(after_ticks(millis, inc, (k - 1) as nat), inc)
    }
}

/// The millisecond counter shared between the timer interrupt and the code
/// that waits on it.
pub struct MillisClock {
    millis: u32,
    increment: u32,
}

impl MillisClock {
    /// The milliseconds counted since the last reset.
    pub closed spec fn spec_millis(&self) -> u32 {
        self.millis
    }

    /// The milliseconds that one interrupt adds.
    pub closed spec fn spec_increment(&self) -> u32 {
        self.increment
    }

    /// A counter at zero that each interrupt advances by `increment`.
    pub fn new(increment: u32) -> (c: MillisClock)
        ensures
            c.spec_millis() == 0,
            c.spec_increment() == increment,
    {
        MillisClock { millis: 0, increment }
    }

    /// The timer interrupt: adds the increment, stopping at `u32::MAX` so
    /// the count never runs backwards.
    pub fn tick(&mut self)
        ensures
            final(self).spec_increment() == old(self).spec_increment(),
            final(self).spec_millis() == ticked(old(self).spec_millis(), old(self).spec_increment()),
    {
        self.millis = self.millis.saturating_add(self.increment);
    }

    /// Starts a wait: the count goes back to zero.
    pub fn reset(&mut self)
        ensures
            final(self).spec_increment() == old(self).spec_increment(),
            final(self).spec_millis() == 0,
    {
        self.millis = 0;
    }

    /// The milliseconds counted since the last reset.
    pub fn millis(&self) -> (r: u32)
        ensures
            r == self.spec_millis(),
    {
        self.millis
    }

    /// Whether a wait of `ms` milliseconds begun at the last reset is over.
    pub fn reached(&self, ms: u16) -> (r: bool)
        ensures
            r == (self.spec_millis() >= ms),
    {
        self.millis >= ms as u32
    }
}

/// A wait always ends: with an increment of at least one millisecond, `ms`
/// more interrupts bring any clock to `ms` or beyond, so that `reached(ms)`
/// holds; after a reset a wait of 1 ms is over after a single interrupt. (A
/// wait of 0 ms is over at once: `reached(0)` holds of every count.)
pub proof fn lemma_wait_ends(c: MillisClock, ms: u16)
    requires
        c.spec_increment() >= 1,
    ensures
        after_ticks(c.spec_millis(), c.spec_increment(), ms as nat) >= ms,
        after_ticks(0, c.spec_increment(), 1) >= 1,
{
    lemma_ticks_grow(c.spec_millis(), c.spec_increment(), ms as nat);
    lemma_ticks_grow(0, c.spec_increment(), 1);
}

/// Each interrupt adds at least one, until the count stops at `u32::MAX`.
proof fn lemma_ticks_grow(millis: u32, inc: u32, k: nat)
    requires
        inc >= 1,
    ensures
        after_ticks(millis, inc, k) >= if millis + k > u32::MAX {
            u32::MAX as int
        } else {
            millis + k
        },
    decreases k,
{
    if k > 0 {
        lemma_ticks_grow(millis, inc, (k - 1) as nat);
    }
}

} // verus!
