use morser::ring::{Drain, PushOutcome, RingBuffer, Transmitter};

#[test]
fn capacity_eight_holds_seven() {
    let mut q: RingBuffer<8> = RingBuffer::new();
    assert!(q.is_empty());
    assert_eq!(q.push_bytes(&[1, 2, 3, 4, 5, 6, 7, 8]), 7);
    assert_eq!(q.push_bytes(&[9]), 0);
    for expected in 1..=7u8 {
        assert_eq!(q.pop(), Some(expected));
    }
    assert_eq!(q.pop(), None);
    assert!(q.is_empty());
    assert_eq!(q.push_bytes(&[10, 11, 12, 13, 14, 15, 16]), 7);
    for expected in 10..=16u8 {
        assert_eq!(q.pop(), Some(expected));
    }
    assert!(q.is_empty());
}

#[test]
fn bytes_leave_in_order_across_the_wrap() {
    let mut q: RingBuffer<4> = RingBuffer::new();
    let mut next_in: u8 = 0;
    let mut next_out: u8 = 0;
    for _ in 0..50 {
        let n = q.push_bytes(&[next_in, next_in.wrapping_add(1)]);
        next_in = next_in.wrapping_add(n as u8);
        while let Some(b) = q.pop() {
            assert_eq!(b, next_out);
            next_out = next_out.wrapping_add(1);
        }
    }
    assert_eq!(next_in, next_out);
}

#[test]
fn empty_push_writes_nothing() {
    let mut q: RingBuffer<2> = RingBuffer::new();
    assert_eq!(q.push_bytes(&[]), 0);
    assert_eq!(q.push_bytes(&[7, 8]), 1);
    assert_eq!(q.pop(), Some(7));
}

#[test]
fn arms_once_per_transition() {
    let mut t: Transmitter<8> = Transmitter::new();
    let first = t.push_bytes(b"ab", false);
    assert_eq!(first, PushOutcome { written: 2, arm: true, send_now: None });
    let second = t.push_bytes(b"c", false);
    assert_eq!(second, PushOutcome { written: 1, arm: false, send_now: None });
    assert_eq!(t.on_tx_empty(), Drain::Send(b'a'));
    assert_eq!(t.on_tx_empty(), Drain::Send(b'b'));
    assert_eq!(t.on_tx_empty(), Drain::Send(b'c'));
    assert_eq!(t.on_tx_empty(), Drain::Disarm);
    let third = t.push_bytes(b"d", false);
    assert_eq!(third, PushOutcome { written: 1, arm: true, send_now: None });
}

#[test]
fn no_arming_while_still_armed_and_empty() {
    let mut t: Transmitter<8> = Transmitter::new();
    let first = t.push_bytes(b"x", true);
    assert_eq!(first, PushOutcome { written: 1, arm: true, send_now: Some(b'x') });
    let second = t.push_bytes(b"y", false);
    assert!(!second.arm);
    assert_eq!(t.on_tx_empty(), Drain::Send(b'y'));
    assert_eq!(t.on_tx_empty(), Drain::Disarm);
}

#[test]
fn nothing_pushed_nothing_armed() {
    let mut t: Transmitter<8> = Transmitter::new();
    assert_eq!(t.push_bytes(b"", true), PushOutcome { written: 0, arm: false, send_now: None });
    assert_eq!(t.on_tx_empty(), Drain::Disarm);
}

#[test]
fn full_transmitter_takes_part() {
    let mut t: Transmitter<4> = Transmitter::new();
    let r = t.push_bytes(b"hello", false);
    assert_eq!(r.written, 3);
    assert!(r.arm);
    assert_eq!(t.push_bytes(b"!", false).written, 0);
}

#[test]
fn text_is_queued_as_its_utf8_bytes() {
    let mut t: Transmitter<8> = Transmitter::new();
    let first = t.write_str("hé", true);
    assert_eq!(first, PushOutcome { written: 3, arm: true, send_now: Some(b'h') });
    let second = t.write_str("llo!", false);
    assert_eq!(second, PushOutcome { written: 4, arm: false, send_now: None });
    assert_eq!(t.on_tx_empty(), Drain::Send(0xC3));
    assert_eq!(t.on_tx_empty(), Drain::Send(0xA9));
    assert_eq!(t.on_tx_empty(), Drain::Send(b'l'));
}

#[test]
fn text_fills_only_the_free_slots() {
    let mut t: Transmitter<4> = Transmitter::new();
    let r = t.write_str("morse", false);
    assert_eq!(r, PushOutcome { written: 3, arm: true, send_now: None });
    assert_eq!(t.write_str("", false), PushOutcome { written: 0, arm: false, send_now: None });
}
