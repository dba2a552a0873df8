//! Sample text: the counting game in which multiples of three are "Fizz",
//! multiples of five "Buzz", and multiples of both "FizzBuzz".
use vstd::prelude::*;

verus! {

/// One turn of the game.
#[derive(Clone, Copy, Debug, PartialEq, Eq, Structural)]
pub enum FizzBuzz {
    Count(u16),
    Fizz,
    Buzz,
    FizzBuzz,
}

/// The turn for the number `n`.
pub open spec fn turn(n: u16) -> FizzBuzz {
    if n % 15 == 0 {
        FizzBuzz::FizzBuzz
    } else if n % 3 == 0 {
        FizzBuzz::Fizz
    } else if n % 5 == 0 {
        FizzBuzz::Buzz
    } else {
        FizzBuzz::Count(n)
    }
}

/// The decimal digit for `d` below ten.
pub open spec fn digit(d: nat) -> char {
    (48 + d) as char
}

/// `n` written in decimal, without leading zeros.
pub open spec fn decimal(n: nat) -> Seq<char>
    decreases n,
{
    if n < 10 {
        seq![digit(n)]
    } else {
        decimal(n / 10).push(digit(n % 10))
    }
}

/// Relies on the standard library's `Display` for `u16`: it writes the number
/// in decimal, without sign or leading zeros.
#[verifier::external_body]
fn decimal_text(n: u16) -> (r: String)
    ensures
        r@ == decimal(n as nat),
{
    format!("{}", n)
}

impl FizzBuzz {
    /// What the turn says.
    pub open spec fn spec_text(self) -> Seq<char> {
        match self {
            FizzBuzz::Count(c) => decimal(c as nat),
            FizzBuzz::Fizz => "Fizz"@,
            FizzBuzz::Buzz => "Buzz"@,
            FizzBuzz::FizzBuzz => "FizzBuzz"@,
        }
    }

    /// What the turn says: the number, or the word that stands for it.
    pub fn text(&self) -> (r: String)
        ensures
            r@ == self.spec_text(),
    {
        match self {
            FizzBuzz::Count(c) => decimal_text(*c),
            FizzBuzz::Fizz => "Fizz".to_owned(),
            FizzBuzz::Buzz => "Buzz".to_owned(),
            FizzBuzz::FizzBuzz => "FizzBuzz".to_owned(),
        }
    }
}

/// The turns for 1, 2, 3, ... up to `u16::MAX`.
pub struct FizzBuzzIter {
    count: u16,
}

impl FizzBuzzIter {
    /// The last number played, 0 before the first turn.
    pub closed spec fn last(&self) -> u16 {
        self.count
    }

    /// A game that has not started.
    pub fn new() -> (r: FizzBuzzIter)
        ensures
            r.last() == 0,
    {
        FizzBuzzIter { count: 0 }
    }

    /// The next turn, or `None` once `u16::MAX` has been played.
    pub fn next(&mut self) -> (r: Option<FizzBuzz>)
        ensures
            old(self).last() == u16::MAX ==> r.is_none() && final(self).last() == u16::MAX,
            old(self).last() < u16::MAX ==> final(self).last() == old(self).last() + 1 && r
                == Some(turn(final(self).last())),
    {
        if self.count == u16::MAX {
            return None;
        }
        self.count = self.count + 1;
        let n = self.count;
        Some(
            if n % 15 == 0 {
                FizzBuzz::FizzBuzz
            } else if n % 3 == 0 {
                FizzBuzz::Fizz
            } else if n % 5 == 0 {
                FizzBuzz::Buzz
            } else {
                FizzBuzz::Count(n)
            },
        )
    }
}

impl Default for FizzBuzzIter {
    fn default() -> (r: FizzBuzzIter)
        ensures
            r.last() == 0,
    {
        FizzBuzzIter::new()
    }
}

} // verus!
