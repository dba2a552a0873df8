use morser::fizzbuzz::{FizzBuzz, FizzBuzzIter};

#[test]
fn first_fifteen_turns() {
    let mut it = FizzBuzzIter::default();
    let mut words = Vec::new();
    for _ in 0..15 {
        words.push(it.next().unwrap().text());
    }
    assert_eq!(
        words,
        vec![
            "1", "2", "Fizz", "4", "Buzz", "Fizz", "7", "8", "Fizz", "Buzz", "11", "Fizz", "13",
            "14", "FizzBuzz"
        ]
    );
}

#[test]
fn counts_are_written_in_decimal() {
    assert_eq!(FizzBuzz::Count(0).text(), "0");
    assert_eq!(FizzBuzz::Count(42).text(), "42");
    assert_eq!(FizzBuzz::Count(65535).text(), "65535");
}

#[test]
fn game_ends_at_the_largest_count() {
    let mut it = FizzBuzzIter::new();
    let mut n: u32 = 0;
    let mut last = None;
    while let Some(t) = it.next() {
        n += 1;
        last = Some(t);
    }
    assert_eq!(n, 65535);
    assert_eq!(last, Some(FizzBuzz::FizzBuzz));
    assert_eq!(it.next(), None);
}
