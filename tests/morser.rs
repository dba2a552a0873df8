use morser::codes::lookup;
use morser::morser::{Action, Morser};
use morser::timing::Timing;

use Action::{LedOff, LedOn, Wait};

#[test]
fn timing_at_ten_words_per_minute() {
    let t = Timing::from_wpm(10);
    assert_eq!(t.dit_ms, 120);
    assert_eq!(t.dah_ms, 360);
    assert_eq!(t.ics_ms, 360);
    assert_eq!(t.iws_ms, 840);
}

#[test]
fn timing_at_twenty_words_per_minute() {
    let t = Timing::from_wpm(20);
    assert_eq!(t, Timing { dit_ms: 60, dah_ms: 180, ics_ms: 180, iws_ms: 420 });
}

#[test]
fn two_spaces_make_one_word_gap() {
    let mut m = Morser::new(10);
    let acts = m.write_str("  e");
    assert_eq!(acts, vec![Wait(840), LedOn, Wait(120), LedOff]);

    let mut one = Morser::new(10);
    let mut two = Morser::new(10);
    assert_eq!(one.write_str("e e"), two.write_str("e  e"));
    let gaps = two.write_str("t  t").iter().filter(|a| **a == Wait(840)).count();
    assert_eq!(gaps, 1);
}

#[test]
fn sos_has_no_trailing_delay() {
    let mut m = Morser::new(10);
    let acts = m.write_str("SOS");
    let dot = [LedOn, Wait(120), LedOff];
    let dash = [LedOn, Wait(360), LedOff];
    let mut expected = vec![Wait(360)];
    expected.extend(dot);
    expected.push(Wait(120));
    expected.extend(dot);
    expected.push(Wait(120));
    expected.extend(dot);
    expected.push(Wait(360));
    expected.extend(dash);
    expected.push(Wait(120));
    expected.extend(dash);
    expected.push(Wait(120));
    expected.extend(dash);
    expected.push(Wait(360));
    expected.extend(dot);
    expected.push(Wait(120));
    expected.extend(dot);
    expected.push(Wait(120));
    expected.extend(dot);
    assert_eq!(acts, expected);
    assert_eq!(acts.last(), Some(&LedOff));
}

#[test]
fn space_only_leaves_a_gap_pending() {
    let mut m = Morser::new(10);
    assert!(m.emit_code(lookup(' ')).is_empty());
    assert_eq!(m.emit_code(lookup('t')), vec![Wait(840), LedOn, Wait(360), LedOff]);
    assert_eq!(m.emit_code(lookup('t')), vec![Wait(360), LedOn, Wait(360), LedOff]);
}

#[test]
fn emit_spaces_signals_one_dit_apart() {
    let t = Timing::from_wpm(10);
    assert_eq!(
        lookup('a').emit(&t),
        vec![LedOn, Wait(120), LedOff, Wait(120), LedOn, Wait(360), LedOff]
    );
    assert!(lookup(' ').emit(&t).is_empty());
}

#[test]
fn empty_text_sends_nothing() {
    let mut m = Morser::new(10);
    assert!(m.write_str("").is_empty());
    assert!(m.write_str(" ").is_empty());
}
