use morser::delay::{delay_cycles_for_ms, delay_cycles_for_us};
use morser::timer::{millis_increment, MillisClock, Prescaler, CPU_KHZ, TIMER_COUNTS};

#[test]
fn short_busy_waits_are_no_ops() {
    assert_eq!(delay_cycles_for_us(0), 0);
    assert_eq!(delay_cycles_for_us(1), 0);
    assert_eq!(delay_cycles_for_ms(0), 0);
}

#[test]
fn busy_wait_cycle_counts() {
    assert_eq!(delay_cycles_for_us(2), 11);
    assert_eq!(delay_cycles_for_us(1000), 15979);
    assert_eq!(delay_cycles_for_ms(1), 15979);
    assert_eq!(delay_cycles_for_ms(u16::MAX), 65_535_000 * 16 - 21);
    assert_eq!(delay_cycles_for_us(u32::MAX), u32::MAX);
}

#[test]
fn tick_length_for_this_board() {
    assert_eq!(millis_increment(Prescaler::Div1024, TIMER_COUNTS, CPU_KHZ), 14);
    assert_eq!(millis_increment(Prescaler::Div64, 249, 16_000), 0);
    assert_eq!(millis_increment(Prescaler::Div256, 250, 16), 4000);
}

#[test]
fn timer_waits_of_zero_and_one_end() {
    let mut c = MillisClock::new(14);
    c.reset();
    assert!(c.reached(0));
    assert!(!c.reached(1));
    c.tick();
    assert!(c.reached(1));
    assert_eq!(c.millis(), 14);
}

#[test]
fn timer_count_saturates_and_resets() {
    let mut c = MillisClock::new(u32::MAX - 1);
    c.tick();
    c.tick();
    assert_eq!(c.millis(), u32::MAX);
    c.reset();
    assert_eq!(c.millis(), 0);
}

#[test]
fn prescaler_divisors() {
    assert_eq!(Prescaler::from_divisor(1024), Some(Prescaler::Div1024));
    assert_eq!(Prescaler::from_divisor(8).map(|p| p.divisor()), Some(8));
    assert_eq!(Prescaler::from_divisor(100), None);
}
