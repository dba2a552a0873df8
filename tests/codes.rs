use morser::codes::{lookup, MorseChar, MorseSignal};

use MorseSignal::{Dash, Dot};

fn signals(code: MorseChar) -> Vec<MorseSignal> {
    let mut it = code.signal_iter();
    let mut out = Vec::new();
    while let Some(s) = it.next() {
        out.push(s);
    }
    out
}

#[test]
fn s_is_three_dots() {
    assert_eq!(signals(lookup('s')), vec![Dot, Dot, Dot]);
}

#[test]
fn o_is_three_dashes() {
    assert_eq!(signals(lookup('o')), vec![Dash, Dash, Dash]);
}

#[test]
fn zero_is_five_dashes() {
    assert_eq!(signals(lookup('0')), vec![Dash, Dash, Dash, Dash, Dash]);
}

#[test]
fn mixed_patterns_keep_their_order() {
    assert_eq!(signals(lookup('a')), vec![Dot, Dash]);
    assert_eq!(signals(lookup('b')), vec![Dash, Dot, Dot, Dot]);
    assert_eq!(signals(lookup('4')), vec![Dot, Dot, Dot, Dot, Dash]);
    assert_eq!(signals(lookup('.')), vec![Dot, Dash, Dot, Dash, Dot, Dash]);
    assert_eq!(signals(lookup('@')), vec![Dot, Dash, Dash, Dot, Dash, Dot]);
}

#[test]
fn upper_case_folds_to_lower() {
    assert_eq!(signals(lookup('S')), signals(lookup('s')));
    assert_eq!(signals(lookup('Q')), vec![Dash, Dash, Dot, Dash]);
    assert!(!lookup('Z').is_space());
}

#[test]
fn space_and_unknown_characters_are_word_spaces() {
    assert!(lookup(' ').is_space());
    assert!(lookup('#').is_space());
    assert!(lookup('\n').is_space());
    assert!(lookup('é').is_space());
    assert!(lookup('\u{1F600}').is_space());
    assert!(signals(lookup('#')).is_empty());
}

#[test]
fn table_characters_are_not_word_spaces() {
    for c in "abcdefghijklmnopqrstuvwxyz0123456789.,:?'-/()\"+*@".chars() {
        assert!(!lookup(c).is_space(), "{c}");
    }
}

#[test]
fn from_str_packs_a_pattern() {
    assert_eq!(signals(MorseChar::from_str("-.-")), vec![Dash, Dot, Dash]);
    assert_eq!(signals(MorseChar::from_str("--------")), vec![Dash; 8]);
    assert!(MorseChar::from_str("").is_space());
}

#[test]
fn iterator_stays_exhausted() {
    let mut it = lookup('e').signal_iter();
    assert_eq!(it.next(), Some(Dot));
    assert_eq!(it.next(), None);
    assert_eq!(it.next(), None);
}

#[test]
fn z_and_open_parenthesis_follow_the_table() {
    assert_eq!(signals(lookup('z')), vec![Dash, Dash, Dot, Dash]);
    assert_eq!(signals(lookup('(')), vec![Dash, Dot, Dot, Dash, Dot]);
}
