//! The emitter: turns characters into the timed on/off steps of one output
//! pin. It decides what happens; the caller drives the pin and waits.
use vstd::prelude::*;

use crate::codes::{code_of, lemma_word_space_iff, lookup, MorseChar, MorseSignal};
use crate::timing::Timing;

verus! {

/// One step for the pin driver.
#[derive(Clone, Copy, Debug, PartialEq, Eq, Structural)]
pub enum Action {
    /// Keep the pin as it is for this many milliseconds.
    Wait(u16),
    /// Drive the pin high.
    LedOn,
    /// Drive the pin low.
    LedOff,
}

/// How long one signal keeps the pin high.
pub open spec fn signal_ms(s: MorseSignal, t: Timing) -> u16 {
    match s {
        MorseSignal::Dot => t.dit_ms,
        MorseSignal::Dash => t.dah_ms,
    }
}

/// The steps that send a run of signals: each one a pulse, one dit apart.
pub open spec fn signal_actions(s: Seq<MorseSignal>, t: Timing) -> Seq<Action>
    decreases s.len(),
{
    if s.len() == 0 {
        seq![]
    } else {
        let gap = if s.len() > 1 {
            seq![Action::Wait(t.dit_ms)]
        } else {
            seq![]
        };
        signal_actions(s.drop_last(), t) + gap + seq![
            Action::LedOn,
            Action::Wait(signal_ms(s.last(), t)),
            Action::LedOff,
        ]
    }
}

/// The steps for one code: nothing for a word space; otherwise the gap that
/// precedes the character (a word gap if one is pending, else a character
/// gap), then its signals.
pub open spec fn code_actions(want_iws: bool, code: Seq<MorseSignal>, t: Timing) -> Seq<Action> {
    if code.len() == 0 {
        seq![]
    } else {
        seq![Action::Wait(if want_iws { t.iws_ms } else { t.ics_ms })] + signal_actions(code, t)
    }
}

/// Whether a word gap is pending after `text` has been sent, starting from
/// `want_iws`: the last character decides.
pub open spec fn want_after(want_iws: bool, text: Seq<char>) -> bool {
    if text.len() == 0 {
        want_iws
    } else {
        code_of(text.last()).len() == 0
    }
}

/// The steps that send `text`, character by character, starting from
/// `want_iws`.
pub open spec fn text_actions(want_iws: bool, text: Seq<char>, t: Timing) -> Seq<Action>
    decreases text.len(),
{
    if text.len() == 0 {
        seq![]
    } else {
        let prefix = text.drop_last();
        text_actions(want_iws, prefix, t) + code_actions(
            want_after(want_iws, prefix),
            code_of(text.last()),
            t,
        )
    }
}

impl MorseChar {
    /// The steps that send this code's signals: for each, the pin goes high
    /// for a dit or a dash and low again, with one dit between signals.
    pub fn emit(self, t: &Timing) -> (acts: Vec<Action>)
        ensures
            acts@ == signal_actions(self@, *t),
    {
        let mut acts: Vec<Action> = Vec::new();
        let mut it = self.signal_iter();
        let ghost mut done: Seq<MorseSignal> = seq![];
        let mut first = true;
        loop
            invariant
                first == (done.len() == 0),
                done + it@ == self@,
                acts@ == signal_actions(done, *t),
            ensures
                acts@ == signal_actions(self@, *t),
            decreases it@.len(),
        {
            let ghost before = it@;
            match it.next() {
                None => {
                    assert(done =~= self@);
                    break;
                },
                Some(sig) => {
                    if !first {
                        acts.push(Action::Wait(t.dit_ms));
                    }
                    acts.push(Action::LedOn);
                    acts.push(
                        Action::Wait(
                            match sig {
                                MorseSignal::Dot => t.dit_ms,
                                MorseSignal::Dash => t.dah_ms,
                            },
                        ),
                    );
                    acts.push(Action::LedOff);
                    first = false;
                    proof {
                        let next = done.push(sig);
                        assert(next.drop_last() =~= done);
                        assert(next + it@ =~= done + before);
                        done = next;
                    }
                },
            }
        }
        acts
    }
}

/// The emitter's state: its timing, and whether a word gap is pending.
pub struct Morser {
    timing: Timing,
    want_iws: bool,
}

impl Morser {
    /// The durations this emitter paces with.
    pub closed spec fn timing(&self) -> Timing {
        self.timing
    }

    /// Whether a word boundary has been seen and not yet sent as a gap.
    pub closed spec fn want_iws(&self) -> bool {
        self.want_iws
    }

    /// An emitter for `wpm` words per minute, with no word gap pending.
    pub fn new(wpm: u16) -> (m: Morser)
        requires
            wpm >= 1,
        ensures
            m.timing().is_for(wpm as int),
            !m.want_iws(),
    {
        Morser { timing: Timing::from_wpm(wpm), want_iws: false }
    }

    /// The steps that send one code. A word space sends nothing and leaves a
    /// word gap pending (so a run of spaces makes one gap); any other code
    /// sends its gap and its signals and clears it.
    pub fn emit_code(&mut self, code: MorseChar) -> (acts: Vec<Action>)
        ensures
            acts@ == code_actions(old(self).want_iws(), code@, old(self).timing()),
            final(self).want_iws() == (code@.len() == 0),
            final(self).timing() == old(self).timing(),
    {
        if code.is_space() {
            self.want_iws = true;
            return Vec::new();
        }
        let t = self.timing;
        let mut acts: Vec<Action> = Vec::new();
        acts.push(Action::Wait(if self.want_iws { t.iws_ms } else { t.ics_ms }));
        self.want_iws = false;
        let mut pulses = code.emit(&t);
        acts.append(&mut pulses);
        acts
    }

    /// The steps that send `text`: each character is folded to lower case,
    /// looked up, and emitted in order. Nothing is added after the last
    /// character: gaps are only ever sent before a character.
    pub fn write_str(&mut self, text: &str) -> (acts: Vec<Action>)
        ensures
            acts@ == text_actions(old(self).want_iws(), text@, old(self).timing()),
            final(self).want_iws() == want_after(old(self).want_iws(), text@),
            final(self).timing() == old(self).timing(),
    {
        let ghost start = self.want_iws;
        let t = self.timing;
        let mut acts: Vec<Action> = Vec::new();
        for c in it: text.chars()
            invariant
                self.timing == t,
                t == old(self).timing(),
                start == old(self).want_iws(),
                it.seq() == text@,
                acts@ == text_actions(start, text@.take(it.index() as int), t),
                self.want_iws == want_after(start, text@.take(it.index() as int)),
        {
            let ghost before = text@.take(it.index() as int);
            let mut step = self.emit_code(lookup(c));
            acts.append(&mut step);
            proof {
                let after = text@.take(it.index() + 1);
                assert(after.drop_last() =~= before);
            }
        }
        proof {
            assert(text@.take(text@.len() as int) =~= text@);
        }
        acts
    }
}

/// Sending `a` then `b` gives the steps of `a` followed by those of `b`, with
/// `b` started in the state that `a` left.
pub proof fn lemma_text_actions_append(want_iws: bool, a: Seq<char>, b: Seq<char>, t: Timing)
    ensures
        text_actions(want_iws, a + b, t) == text_actions(want_iws, a, t) + text_actions(
            want_after(want_iws, a),
            b,
            t,
        ),
        want_after(want_iws, a + b) == want_after(want_after(want_iws, a), b),
    decreases b.len(),
{
    if b.len() == 0 {
        assert(a + b =~= a);
        assert(text_actions(want_iws, a, t) + seq![] =~= text_actions(want_iws, a, t));
    } else {
        let b1 = b.drop_last();
        assert((a + b).drop_last() =~= a + b1);
        assert((a + b).last() == b.last());
        lemma_text_actions_append(want_iws, a, b1, t);
        let wa = want_after(want_iws, a);
        assert(text_actions(want_iws, a + b, t) =~= text_actions(want_iws, a, t) + text_actions(
            wa,
            b,
            t,
        ));
    }
}

/// Consecutive spaces do not add up: two spaces in a row send exactly what
/// one space sends, whatever stands before and after them.
pub proof fn lemma_spaces_collapse(want_iws: bool, before: Seq<char>, after: Seq<char>, t: Timing)
    ensures
        text_actions(want_iws, before + seq![' ', ' '] + after, t) == text_actions(
            want_iws,
            before + seq![' '] + after,
            t,
        ),
{
    lemma_word_space_iff(' ');
    let one = before + seq![' '];
    let two = before + seq![' ', ' '];
    assert(two.drop_last() =~= one);
    assert(one.drop_last() =~= before);
    assert(text_actions(want_iws, two, t) =~= text_actions(want_iws, one, t));
    lemma_text_actions_append(want_iws, two, after, t);
    lemma_text_actions_append(want_iws, one, after, t);
}

/// Two spaces and then a character send one word gap and then the
/// character's signals.
pub proof fn lemma_one_word_gap(want_iws: bool, c: char, t: Timing)
    requires
        code_of(c).len() > 0,
    ensures
        text_actions(want_iws, seq![' ', ' ', c], t) == seq![Action::Wait(t.iws_ms)]
            + signal_actions(code_of(c), t),
{
    lemma_word_space_iff(' ');
    let text = seq![' ', ' ', c];
    assert(text.drop_last() =~= seq![' ', ' ']);
    assert(seq![' ', ' '].drop_last() =~= seq![' ']);
    assert(seq![' '].drop_last() =~= Seq::<char>::empty());
    assert(text_actions(want_iws, Seq::<char>::empty(), t) =~= seq![]);
    assert(seq![' '].last() == ' ');
    assert(seq![' ', ' '].last() == ' ');
    assert(text_actions(want_iws, seq![' '], t) =~= seq![]);
    assert(text_actions(want_iws, seq![' ', ' '], t) =~= seq![]);
    assert(want_after(want_iws, seq![' ', ' ']));
    assert(text.last() == c);
    assert(text_actions(want_iws, text, t) =~= seq![Action::Wait(t.iws_ms)] + signal_actions(
        code_of(c),
        t,
    ));
}

/// Nothing trails the last signal: the steps for any text are empty or end
/// by switching the pin off, never with a wait.
pub proof fn lemma_no_trailing_wait(want_iws: bool, text: Seq<char>, t: Timing)
    ensures
        text_actions(want_iws, text, t).len() == 0 || text_actions(want_iws, text, t).last()
            == Action::LedOff,
    decreases text.len(),
{
    if text.len() > 0 {
        let prefix = text.drop_last();
        lemma_no_trailing_wait(want_iws, prefix, t);
        let code = code_of(text.last());
        if code.len() > 0 {
            let sa = signal_actions(code, t);
            assert(sa.last() == Action::LedOff);
        } else {
            assert(text_actions(want_iws, text, t) =~= text_actions(want_iws, prefix, t));
        }
    }
}

} // verus!
