use morser::uart::BaudRate;

#[test]
fn baud_57600_uses_double_speed() {
    let b = BaudRate::new(57_600);
    assert_eq!(b, BaudRate { ubrr: 34, u2x: true });
}

#[test]
fn baud_460800_uses_double_speed() {
    assert_eq!(BaudRate::new(460_800), BaudRate { ubrr: 4, u2x: true });
}

#[test]
fn slow_baud_falls_back_to_normal_speed() {
    assert_eq!(BaudRate::new(300), BaudRate { ubrr: 3333, u2x: false });
    assert_eq!(BaudRate::for_clock(8_000_000, 9_600), BaudRate { ubrr: 104, u2x: true });
}

#[test]
fn unsupported_rates_are_refused() {
    assert_eq!(BaudRate::try_new(0), None);
    assert_eq!(BaudRate::try_new(30), None);
    assert_eq!(BaudRate::try_new(244), None);
    assert_eq!(BaudRate::try_new(245), Some(BaudRate { ubrr: 4081, u2x: false }));
    assert_eq!(BaudRate::try_new(8_000_000), Some(BaudRate { ubrr: 0, u2x: true }));
    assert_eq!(BaudRate::try_new(57_600), Some(BaudRate { ubrr: 34, u2x: true }));
    assert_eq!(BaudRate::try_new(4_000_000), Some(BaudRate { ubrr: 0, u2x: true }));
}
