//! Morse symbols: the table from characters to dot/dash patterns and the
//! packed encoding of one character.
use vstd::prelude::*;

verus! {

/// One element of a Morse character.
#[derive(Clone, Copy, Debug, PartialEq, Eq, Structural)]
pub enum MorseSignal {
    Dot,
    Dash,
}

/// The signal that one pattern character stands for: `-` a dash, `.` a dot.
pub open spec fn signal_of(c: char) -> MorseSignal {
    if c == '-' {
        MorseSignal::Dash
    } else {
        MorseSignal::Dot
    }
}

/// A pattern is a string of `.` and `-` with at most eight signals.
pub open spec fn is_pattern(p: Seq<char>) -> bool {
    &&& p.len() <= 8
    &&& forall|i: int| 0 <= i < p.len() ==> (p[i] == '.' || p[i] == '-')
}

/// The signals that a pattern spells, in order.
pub open spec fn pattern_signals(p: Seq<char>) -> Seq<MorseSignal> {
    Seq::new(p.len(), |i: int| signal_of(p[i]))
}

/// Whether bit `i` of a packed signal field is set (a dash). Bits past the
/// eighth are never set.
pub open spec fn bit_at(bits: u8, i: int) -> bool {
    0 <= i < 8 && (bits >> (i as u8)) & 1u8 == 1u8
}

/// Setting bit `k` sets that bit and leaves the others.
proof fn lemma_or_bit(s: u8, k: u8, j: u8)
    requires
        k < 8,
        j < 8,
    ensures
        ((s | (1u8 << k)) >> j) & 1u8 == 1u8 <==> (j == k || (s >> j) & 1u8 == 1u8),
{
    assert(((s | (1u8 << k)) >> j) & 1u8 == 1u8 <==> (j == k || (s >> j) & 1u8 == 1u8))
        by (bit_vector)
        requires
            k < 8,
            j < 8,
    ;
}

/// Shifting right by one moves every bit down one place.
proof fn lemma_shift_bit(s: u8, i: u8)
    requires
        i < 7,
    ensures
        ((s >> 1u8) >> i) & 1u8 == (s >> ((i + 1) as u8)) & 1u8,
        ((s >> 1u8) >> 7u8) & 1u8 == 0u8,
        (s >> 0u8) & 1u8 == s & 1u8,
        s & 1u8 == 0u8 || s & 1u8 == 1u8,
{
    assert(s & 1u8 == 0u8 || s & 1u8 == 1u8) by (bit_vector);
    assert((s >> 0u8) & 1u8 == s & 1u8) by (bit_vector);
    assert(((s >> 1u8) >> i) & 1u8 == (s >> ((i + 1) as u8)) & 1u8) by (bit_vector)
        requires
            i < 7,
    ;
    assert(((s >> 1u8) >> 7u8) & 1u8 == 0u8) by (bit_vector);
}

/// Zero has no bit set.
proof fn lemma_no_bits_of_zero(j: u8)
    requires
        j < 8,
    ensures
        (0u8 >> j) & 1u8 == 0u8,
{
    assert((0u8 >> j) & 1u8 == 0u8) by (bit_vector);
}

/// The Morse code of one character: `count` signals packed into `signal`,
/// least significant bit first, a set bit for a dash.
#[derive(Clone, Copy, Debug)]
pub struct MorseChar {
    count: u8,
    signal: u8,
}

impl MorseChar {
    /// A code has at most eight signals.
    #[verifier::type_invariant]
    spec fn inv(self) -> bool {
        self.count <= 8
    }
}

impl View for MorseChar {
    type V = Seq<MorseSignal>;

    /// The signals of the character, in the order they are sent.
    closed spec fn view(&self) -> Seq<MorseSignal> {
        Seq::new(
            self.count as nat,
            |i: int|
                if bit_at(self.signal, i) {
                    MorseSignal::Dash
                } else {
                    MorseSignal::Dot
                },
        )
    }
}

impl MorseChar {
    /// Packs a pattern of `.` (dot) and `-` (dash) characters.
    pub fn from_str(s: &str) -> (r: MorseChar)
        requires
            is_pattern(s@),
        ensures
            r@ == pattern_signals(s@),
    {
        let n = s.unicode_len();
        let mut count: u8 = 0;
        let mut signal: u8 = 0;
        assert forall|j: int| 0 <= j < 8 implies !bit_at(signal, j) by {
            lemma_no_bits_of_zero(j as u8);
        }
        while (count as usize) < n
            invariant
                n == s@.len(),
                is_pattern(s@),
                count <= n,
                forall|j: int| 0 <= j < count ==> (bit_at(signal, j) <==> s@[j] == '-'),
                forall|j: int| count <= j < 8 ==> !bit_at(signal, j),
            decreases n - count,
        {
            let c = s.get_char(count as usize);
            let old_signal = signal;
            if c == '-' {
                signal = signal | (1u8 << count);
                assert forall|j: int| 0 <= j < 8 implies (bit_at(signal, j) <==> (j == count
                    || bit_at(old_signal, j))) by {
                    lemma_or_bit(old_signal, count, j as u8);
                }
            }
            count = count + 1;
        }
        let r = MorseChar { count, signal };
        assert(r@ =~= pattern_signals(s@));
        r
    }

    /// Whether this code has no signals; such a code stands for a word space.
    pub fn is_space(self) -> (r: bool)
        ensures
            r == (self@.len() == 0),
            self@.len() <= 8,
    {
        proof {
            use_type_invariant(&self);
        }
        self.count == 0
    }

    /// The signals of this code, first to last.
    pub fn signal_iter(self) -> (r: MorseCharIter)
        ensures
            r@ == self@,
    {
        MorseCharIter(self)
    }
}

/// Hands out the signals of one code, first to last.
pub struct MorseCharIter(MorseChar);

impl View for MorseCharIter {
    type V = Seq<MorseSignal>;

    /// The signals not yet handed out.
    closed spec fn view(&self) -> Seq<MorseSignal> {
        self.0@
    }
}

impl MorseCharIter {
    /// The next signal, or `None` once all have been handed out.
    pub fn next(&mut self) -> (r: Option<MorseSignal>)
        ensures
            old(self)@.len() == 0 ==> r.is_none() && final(self)@ == old(self)@,
            old(self)@.len() > 0 ==> r == Some(old(self)@[0]) && final(self)@
                == old(self)@.drop_first(),
    {
        if self.0.count == 0 {
            return None;
        }
        proof {
            use_type_invariant(&self.0);
        }
        let ghost before = self.0;
        let item = if self.0.signal & 1 == 0 {
            MorseSignal::Dot
        } else {
            MorseSignal::Dash
        };
        self.0.count = self.0.count - 1;
        self.0.signal = self.0.signal >> 1;
        proof {
            lemma_shift_bit(before.signal, 0);
            assert forall|i: int| 0 <= i < self.0.count implies bit_at(self.0.signal, i)
                == bit_at(before.signal, i + 1) by {
                if i < 7 {
                    lemma_shift_bit(before.signal, i as u8);
                } else {
                    lemma_shift_bit(before.signal, 0);
                }
            }
            assert(before@[0] == item);
            assert(self.0@ =~= before@.drop_first());
        }
        Some(item)
    }
}

/// The pattern that the table gives a (lower-case) character; the empty
/// pattern for a character without an entry.
pub open spec fn pattern_of(c: char) -> Seq<char> {
    match c {
        'a' => ".-"@,
        'b' => "-..."@,
        'c' => "-.-."@,
        'd' => "-.."@,
        'e' => "."@,
        'f' => "..-."@,
        'g' => "--."@,
        'h' => "...."@,
        'i' => ".."@,
        'j' => ".---"@,
        'k' => "-.-"@,
        'l' => ".-.."@,
        'm' => "--"@,
        'n' => "-."@,
        'o' => "---"@,
        'p' => ".--."@,
        'q' => "--.-"@,
        'r' => ".-."@,
        's' => "..."@,
        't' => "-"@,
        'u' => "..-"@,
        'v' => "...-"@,
        'w' => ".--"@,
        'x' => "-..-"@,
        'y' => "-.--"@,
        'z' => "--.-"@,
        '1' => ".----"@,
        '2' => "..---"@,
        '3' => "...--"@,
        '4' => "....-"@,
        '5' => "....."@,
        '6' => "-...."@,
        '7' => "--..."@,
        '8' => "---.."@,
        '9' => "----."@,
        '0' => "-----"@,
        '.' => ".-.-.-"@,
        ',' => "--..--"@,
        ':' => "---..."@,
        '?' => "..--.."@,
        '\'' => ".----."@,
        '-' => "-....-"@,
        '/' => "-..-."@,
        '(' => "-..-."@,
        ')' => "-.--.-"@,
        '"' => ".-..-."@,
        '+' => ".-.-."@,
        '*' => "-..-"@,
        '@' => ".--.-."@,
        _ => ""@,
    }
}

/// ASCII case folding: `A` to `Z` become `a` to `z`, every other character
/// stays as it is.
pub open spec fn ascii_lower(c: char) -> char {
    if 'A' <= c && c <= 'Z' {
        ((c as u32) + 32) as char
    } else {
        c
    }
}

/// The signals that the table gives a character, after case folding.
pub open spec fn code_of(c: char) -> Seq<MorseSignal> {
    pattern_signals(pattern_of(ascii_lower(c)))
}

/// Folds `A` to `Z` to lower case and leaves every other character alone.
pub fn to_ascii_lower(c: char) -> (r: char)
    ensures
        r == ascii_lower(c),
{
    if 'A' <= c && c <= 'Z' {
        let v = c as u32;
        let b: u8 = (v + 32) as u8;
        assert(b as u32 == v + 32) by (bit_vector)
            requires
                v < 128,
                b == (v + 32) as u8,
        ;
        b as char
    } else {
        c
    }
}

/// The table's pattern for a (lower-case) character.
fn pattern(c: char) -> (p: &'static str)
    ensures
        p@ == pattern_of(c),
        is_pattern(p@),
{
    match c {
        'a' => {
            proof {
                reveal_strlit(".-");
            }
            ".-"
        },
        'b' => {
            proof {
                reveal_strlit("-...");
            }
            "-..."
        },
        'c' => {
            proof {
                reveal_strlit("-.-.");
            }
            "-.-."
        },
        'd' => {
            proof {
                reveal_strlit("-..");
            }
            "-.."
        },
        'e' => {
            proof {
                reveal_strlit(".");
            }
            "."
        },
        'f' => {
            proof {
                reveal_strlit("..-.");
            }
            "..-."
        },
        'g' => {
            proof {
                reveal_strlit("--.");
            }
            "--."
        },
        'h' => {
            proof {
                reveal_strlit("....");
            }
            "...."
        },
        'i' => {
            proof {
                reveal_strlit("..");
            }
            ".."
        },
        'j' => {
            proof {
                reveal_strlit(".---");
            }
            ".---"
        },
        'k' => {
            proof {
                reveal_strlit("-.-");
            }
            "-.-"
        },
        'l' => {
            proof {
                reveal_strlit(".-..");
            }
            ".-.."
        },
        'm' => {
            proof {
                reveal_strlit("--");
            }
            "--"
        },
        'n' => {
            proof {
                reveal_strlit("-.");
            }
            "-."
        },
        'o' => {
            proof {
                reveal_strlit("---");
            }
            "---"
        },
        'p' => {
            proof {
                reveal_strlit(".--.");
            }
            ".--."
        },
        'q' => {
            proof {
                reveal_strlit("--.-");
            }
            "--.-"
        },
        'r' => {
            proof {
                reveal_strlit(".-.");
            }
            ".-."
        },
        's' => {
            proof {
                reveal_strlit("...");
            }
            "..."
        },
        't' => {
            proof {
                reveal_strlit("-");
            }
            "-"
        },
        'u' => {
            proof {
                reveal_strlit("..-");
            }
            "..-"
        },
        'v' => {
            proof {
                reveal_strlit("...-");
            }
            "...-"
        },
        'w' => {
            proof {
                reveal_strlit(".--");
            }
            ".--"
        },
        'x' => {
            proof {
                reveal_strlit("-..-");
            }
            "-..-"
        },
        'y' => {
            proof {
                reveal_strlit("-.--");
            }
            "-.--"
        },
        'z' => {
            proof {
                reveal_strlit("--.-");
            }
            "--.-"
        },
        '1' => {
            proof {
                reveal_strlit(".----");
            }
            ".----"
        },
        '2' => {
            proof {
                reveal_strlit("..---");
            }
            "..---"
        },
        '3' => {
            proof {
                reveal_strlit("...--");
            }
            "...--"
        },
        '4' => {
            proof {
                reveal_strlit("....-");
            }
            "....-"
        },
        '5' => {
            proof {
                reveal_strlit(".....");
            }
            "....."
        },
        '6' => {
            proof {
                reveal_strlit("-....");
            }
            "-...."
        },
        '7' => {
            proof {
                reveal_strlit("--...");
            }
            "--..."
        },
        '8' => {
            proof {
                reveal_strlit("---..");
            }
            "---.."
        },
        '9' => {
            proof {
                reveal_strlit("----.");
            }
            "----."
        },
        '0' => {
            proof {
                reveal_strlit("-----");
            }
            "-----"
        },
        '.' => {
            proof {
                reveal_strlit(".-.-.-");
            }
            ".-.-.-"
        },
        ',' => {
            proof {
                reveal_strlit("--..--");
            }
            "--..--"
        },
        ':' => {
            proof {
                reveal_strlit("---...");
            }
            "---..."
        },
        '?' => {
            proof {
                reveal_strlit("..--..");
            }
            "..--.."
        },
        '\'' => {
            proof {
                reveal_strlit(".----.");
            }
            ".----."
        },
        '-' => {
            proof {
                reveal_strlit("-....-");
            }
            "-....-"
        },
        '/' => {
            proof {
                reveal_strlit("-..-.");
            }
            "-..-."
        },
        '(' => {
            proof {
                reveal_strlit("-..-.");
            }
            "-..-."
        },
        ')' => {
            proof {
                reveal_strlit("-.--.-");
            }
            "-.--.-"
        },
        '"' => {
            proof {
                reveal_strlit(".-..-.");
            }
            ".-..-."
        },
        '+' => {
            proof {
                reveal_strlit(".-.-.");
            }
            ".-.-."
        },
        '*' => {
            proof {
                reveal_strlit("-..-");
            }
            "-..-"
        },
        '@' => {
            proof {
                reveal_strlit(".--.-.");
            }
            ".--.-."
        },
        _ => {
            proof {
                reveal_strlit("");
            }
            ""
        },
    }
}

/// The code of a character: it is folded to lower case and looked up in the
/// table. A space, and any character the table lacks, gets the empty code,
/// which stands for a word space.
pub fn lookup(c: char) -> (r: MorseChar)
    ensures
        r@ == code_of(c),
{
    MorseChar::from_str(pattern(to_ascii_lower(c)))
}

/// The characters that the table has an entry for: the lower-case letters,
/// the digits and the punctuation `. , : ? ' - / ( ) " + * @`.
pub open spec fn has_entry(c: char) -> bool {
    ||| 'a' <= c && c <= 'z'
    ||| '0' <= c && c <= '9'
    ||| c == '.' || c == ',' || c == ':' || c == '?' || c == '\'' || c == '-'
    ||| c == '/' || c == '(' || c == ')' || c == '"' || c == '+' || c == '*' || c == '@'
}

/// A character's code is a word space exactly when the table has no entry
/// for it after case folding; the space character is one such.
pub proof fn lemma_word_space_iff(c: char)
    ensures
        code_of(c).len() == 0 <==> !has_entry(ascii_lower(c)),
        code_of(' ').len() == 0,
{
    reveal_strlit("");
    reveal_strlit(".-");
    reveal_strlit("-...");
    reveal_strlit("-.-.");
    reveal_strlit("-..");
    reveal_strlit(".");
    reveal_strlit("..-.");
    reveal_strlit("--.");
    reveal_strlit("....");
    reveal_strlit("..");
    reveal_strlit(".---");
    reveal_strlit("-.-");
    reveal_strlit(".-..");
    reveal_strlit("--");
    reveal_strlit("-.");
    reveal_strlit("---");
    reveal_strlit(".--.");
    reveal_strlit("--.-");
    reveal_strlit(".-.");
    reveal_strlit("...");
    reveal_strlit("-");
    reveal_strlit("..-");
    reveal_strlit("...-");
    reveal_strlit(".--");
    reveal_strlit("-..-");
    reveal_strlit("-.--");
    reveal_strlit(".----");
    reveal_strlit("..---");
    reveal_strlit("...--");
    reveal_strlit("....-");
    reveal_strlit(".....");
    reveal_strlit("-....");
    reveal_strlit("--...");
    reveal_strlit("---..");
    reveal_strlit("----.");
    reveal_strlit("-----");
    reveal_strlit(".-.-.-");
    reveal_strlit("--..--");
    reveal_strlit("---...");
    reveal_strlit("..--..");
    reveal_strlit(".----.");
    reveal_strlit("-....-");
    reveal_strlit("-..-.");
    reveal_strlit("-.--.-");
    reveal_strlit(".-..-.");
    reveal_strlit(".-.-.");
    reveal_strlit(".--.-.");
}

} // verus!
