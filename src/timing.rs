//! Standard Morse timing, derived from a words-per-minute speed.
use vstd::prelude::*;

verus! {

/// The durations, in milliseconds, that pace a transmission.
#[derive(Clone, Copy, Debug, PartialEq, Eq, Structural)]
pub struct Timing {
    /// One dot, and the gap between the signals of one character.
    pub dit_ms: u16,
    /// One dash.
    pub dah_ms: u16,
    /// The gap between two characters of a word.
    pub ics_ms: u16,
    /// The gap between two words.
    pub iws_ms: u16,
}

impl Timing {
    /// Whether these are the durations for `wpm` words per minute: a dit of
    /// `60000 / (50 * wpm)` ms, a dash and a character gap of three dits, a
    /// word gap of seven.
    pub open spec fn is_for(self, wpm: int) -> bool {
        &&& self.dit_ms == 60000int / (50 * wpm)
        &&& self.dah_ms == 3 * self.dit_ms
        &&& self.ics_ms == 3 * self.dit_ms
        &&& self.iws_ms == 7 * self.dit_ms
    }

    /// The durations for a speed of `wpm` words per minute.
    pub fn from_wpm(wpm: u16) -> (t: Timing)
        requires
            wpm >= 1,
        ensures
            t.is_for(wpm as int),
    {
        let unit: u32 = 50 * (wpm as u32);
        let dit: u32 = 60000 / unit;
        assert(dit <= 1200) by (nonlinear_arith)
            requires
                unit >= 50,
                dit == 60000u32 / unit,
        ;
        let dit = dit as u16;
        Timing { dit_ms: dit, dah_ms: 3 * dit, ics_ms: 3 * dit, iws_ms: 7 * dit }
    }
}

} // verus!
