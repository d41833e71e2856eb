//! Numerals: writing numbers in a radix and reading bytes back.

use vstd::prelude::*;

verus! {

/// Why a numeral was refused.
#[derive(Debug, Clone, Copy, PartialEq, Eq, Structural)]
pub enum IntError {
    /// There was nothing to read.
    Empty,
    /// A character was no digit of the radix.
    InvalidDigit,
    /// The number does not fit.
    PosOverflow,
}

impl IntError {
    /// The words for this error.
    pub open spec fn words(self) -> Seq<char> {
        match self {
            IntError::Empty => "cannot parse integer from empty string"@,
            IntError::InvalidDigit => "invalid digit found in string"@,
            IntError::PosOverflow => "number too large to fit in target type"@,
        }
    }

    /// The words for this error, as a string.
    pub fn text(&self) -> (text: String)
        ensures
            text@ == self.words(),
    {
        match self {
            IntError::Empty => "cannot parse integer from empty string".to_owned(),
            IntError::InvalidDigit => "invalid digit found in string".to_owned(),
            IntError::PosOverflow => "number too large to fit in target type".to_owned(),
        }
    }
}

/// The lower-case digit for `d`, up to fifteen.
pub open spec fn digit_char(d: int) -> char {
    if d < 10 {
        (48 + d) as char
    } else {
        (87 + d) as char
    }
}

/// The value of a digit of either case, up to fifteen.
pub open spec fn hex_value(c: char) -> Option<int> {
    if '0' <= c <= '9' {
        Some(c as int - 48)
    } else if 'a' <= c <= 'f' {
        Some(c as int - 87)
    } else if 'A' <= c <= 'F' {
        Some(c as int - 55)
    } else {
        None
    }
}

/// The value of `c` as a digit of `radix`.
pub open spec fn digit_value(c: char, radix: int) -> Option<int> {
    match hex_value(c) {
        Some(d) => if d < radix {
            Some(d)
        } else {
            None
        },
        None => None,
    }
}

/// The shortest numeral for `n` in `radix`.
pub open spec fn numeral(n: nat, radix: nat) -> Seq<char>
    decreases n,
{
    if radix < 2 || n < radix {
        seq![digit_char(n as int)]
    } else {
        proof {
            assert(n / radix < n) by (nonlinear_arith)
                requires
                    radix >= 2,
                    n >= radix,
            ;
        }
        numeral(n / radix, radix).push(digit_char((n % radix) as int))
    }
}

/// The number that the digits `s` stand for; none where a character is no digit.
pub open spec fn number(s: Seq<char>, radix: nat) -> Option<nat>
    decreases s.len(),
{
    if s.len() == 0 {
        Some(0)
    } else {
        match (number(s.drop_last(), radix), digit_value(s.last(), radix as int)) {
            (Some(n), Some(d)) => Some((n * radix + d) as nat),
            _ => None,
        }
    }
}

/// Reading digits from the left into a byte, up to the first one that cannot be taken.
pub open spec fn byte_of_digits(s: Seq<char>, radix: nat) -> Result<u8, IntError>
    decreases s.len(),
{
    if s.len() == 0 {
        Ok(0)
    } else {
        match byte_of_digits(s.drop_last(), radix) {
            Err(e) => Err(e),
            Ok(n) => match digit_value(s.last(), radix as int) {
                None => Err(IntError::InvalidDigit),
                Some(d) => if n * radix + d > 255 {
                    Err(IntError::PosOverflow)
                } else {
                    Ok((n * radix + d) as u8)
                },
            },
        }
    }
}

/// A byte written as an optional plus sign and at least one digit.
pub open spec fn byte_of(s: Seq<char>, radix: nat) -> Result<u8, IntError> {
    if s.len() == 0 {
        Err(IntError::Empty)
    } else if s[0] == '+' {
        if s.len() == 1 {
            Err(IntError::InvalidDigit)
        } else {
            byte_of_digits(s.skip(1), radix)
        }
    } else {
        byte_of_digits(s, radix)
    }
}

/// The digit for `d`.
pub fn digit_to_char(d: u8) -> (c: char)
    requires
        d < 16,
    ensures
        c == digit_char(d as int),
{
    if d < 10 {
        (48 + d) as char
    } else {
        (87 + d) as char
    }
}

/// The value of a digit of either case.
pub fn char_to_digit(c: char, radix: u32) -> (d: Option<u32>)
    requires
        radix <= 16,
    ensures
        d matches Some(v) ==> digit_value(c, radix as int) == Some(v as int) && v < radix,
        d is None ==> digit_value(c, radix as int) is None,
{
    let code: u32 = c as u32;
    let value: u32 = if '0' <= c && c <= '9' {
        code - 48
    } else if 'a' <= c && c <= 'f' {
        code - 87
    } else if 'A' <= c && c <= 'F' {
        code - 55
    } else {
        return None;
    };
    if value < radix {
        Some(value)
    } else {
        None
    }
}

/// The shortest numeral for `n` in `radix`.
pub fn numeral_of(n: u64, radix: u64) -> (digits: Vec<char>)
    requires
        2 <= radix <= 16,
    ensures
        digits@ == numeral(n as nat, radix as nat),
    decreases n,
{
    if n < radix {
        let mut digits: Vec<char> = Vec::new();
        digits.push(digit_to_char(n as u8));
        digits
    } else {
        assert(n / radix < n) by (nonlinear_arith)
            requires
                radix >= 2,
                n >= radix,
        ;
        let mut digits = numeral_of(n / radix, radix);
        digits.push(digit_to_char((n % radix) as u8));
        digits
    }
}

/// Reads a byte written in `radix`.
pub fn parse_byte(s: &[char], radix: u32) -> (r: Result<u8, IntError>)
    requires
        2 <= radix <= 16,
    ensures
        r == byte_of(s@, radix as nat),
{
    if s.len() == 0 {
        return Err(IntError::Empty);
    }
    let start: usize = if s[0] == '+' {
        1
    } else {
        0
    };
    if start == s.len() {
        return Err(IntError::InvalidDigit);
    }
    let ghost digits = s@.skip(start as int);
    let mut value: u32 = 0;
    let mut i: usize = start;
    assert(digits.take(0) =~= Seq::<char>::empty());
    assert(s@.skip(0) =~= s@);
    while i < s.len()
        invariant
            start <= i <= s.len(),
            start <= 1,
            2 <= radix <= 16,
            digits == s@.skip(start as int),
            value <= 255,
            byte_of_digits(digits.take(i - start), radix as nat) == Ok::<u8, IntError>(
                value as u8,
            ),
            byte_of(s@, radix as nat) == byte_of_digits(digits, radix as nat),
        decreases s.len() - i,
    {
        let c = s[i];
        let ghost now = digits.take(i + 1 - start);
        proof {
            assert(now.drop_last() =~= digits.take(i - start));
            assert(now.last() == c);
        }
        match char_to_digit(c, radix) {
            None => {
                proof {
                    lemma_first_error(digits, i + 1 - start, radix as nat);
                }
                return Err(IntError::InvalidDigit);
            },
            Some(d) => {
                assert(0 <= value * radix <= 255 * 16) by (nonlinear_arith)
                    requires
                        0 <= value <= 255,
                        0 <= radix <= 16,
                ;
                let next: u32 = value * radix + d;
                if next > 255 {
                    proof {
                        lemma_first_error(digits, i + 1 - start, radix as nat);
                    }
                    return Err(IntError::PosOverflow);
                }
                value = next;
            },
        }
        i = i + 1;
    }
    assert(digits.take(s.len() - start) =~= digits);
    Ok(value as u8)
}

/// An error in the first `n` digits is the error of the whole.
proof fn lemma_first_error(s: Seq<char>, n: int, radix: nat)
    requires
        0 <= n <= s.len(),
        byte_of_digits(s.take(n), radix) is Err,
    ensures
        byte_of_digits(s, radix) == byte_of_digits(s.take(n), radix),
    decreases s.len(),
{
    if n == s.len() {
        assert(s.take(n) =~= s);
    } else {
        assert(s.drop_last().take(n) =~= s.take(n));
        lemma_first_error(s.drop_last(), n, radix);
    }
}

/// A digit's character stands for its value again.
pub proof fn lemma_digit_char(d: int)
    requires
        0 <= d < 16,
    ensures
        hex_value(digit_char(d)) == Some(d),
        digit_char(d) != ':',
        digit_char(d) != '.',
        digit_char(d) != '+',
        digit_char(d) != '/',
{
}

/// A numeral reads back as its number.
pub proof fn lemma_number_numeral(n: nat, radix: nat)
    requires
        2 <= radix <= 16,
    ensures
        number(numeral(n, radix), radix) == Some(n),
    decreases n,
{
    let s = numeral(n, radix);
    reveal_with_fuel(number, 2);
    if n < radix {
        lemma_digit_char(n as int);
        assert(s.drop_last() =~= Seq::<char>::empty());
        assert(0 * radix == 0);
        assert(number(s.drop_last(), radix) == Some(0nat));
    } else {
        assert(n / radix < n) by (nonlinear_arith)
            requires
                radix >= 2,
                n >= radix,
        ;
        lemma_number_numeral(n / radix, radix);
        lemma_digit_char((n % radix) as int);
        assert(s.drop_last() =~= numeral(n / radix, radix));
        assert((n / radix) * radix + n % radix == n) by (nonlinear_arith)
            requires
                radix >= 2,
        ;
    }
}

/// A numeral holds digits only.
pub proof fn lemma_numeral_digits(n: nat, radix: nat)
    requires
        2 <= radix <= 16,
    ensures
        numeral(n, radix).len() >= 1,
        !numeral(n, radix).contains(':'),
        !numeral(n, radix).contains('.'),
        !numeral(n, radix).contains('+'),
        !numeral(n, radix).contains('/'),
        forall|i: int|
            0 <= i < numeral(n, radix).len() ==> hex_value(#[trigger] numeral(n, radix)[i]) is Some,
    decreases n,
{
    if n < radix {
        lemma_digit_char(n as int);
    } else {
        assert(n / radix < n) by (nonlinear_arith)
            requires
                radix >= 2,
                n >= radix,
        ;
        lemma_numeral_digits(n / radix, radix);
        lemma_digit_char((n % radix) as int);
        let front = numeral(n / radix, radix);
        assert forall|i: int| 0 <= i < numeral(n, radix).len() implies {
            &&& #[trigger] numeral(n, radix)[i] != ':'
            &&& numeral(n, radix)[i] != '.'
            &&& numeral(n, radix)[i] != '+'
            &&& numeral(n, radix)[i] != '/'
            &&& hex_value(numeral(n, radix)[i]) is Some
        } by {
            if i < front.len() {
                assert(front.contains(front[i]));
                assert(numeral(n, radix)[i] == front[i]);
            }
        }
    }
}

/// Digits that stand for a number up to 255 read as that byte.
pub proof fn lemma_byte_of_number(s: Seq<char>, radix: nat)
    requires
        2 <= radix <= 16,
        number(s, radix) matches Some(n) && n <= 255,
    ensures
        byte_of_digits(s, radix) == Ok::<u8, IntError>(number(s, radix).unwrap() as u8),
    decreases s.len(),
{
    if s.len() > 0 {
        let front = number(s.drop_last(), radix).unwrap();
        let n = number(s, radix).unwrap();
        assert(front <= front * radix) by (nonlinear_arith)
            requires
                radix >= 2,
        ;
        lemma_byte_of_number(s.drop_last(), radix);
    }
}

/// A byte's numeral reads back as the byte.
pub proof fn lemma_byte_numeral(b: u8, radix: nat)
    requires
        2 <= radix <= 16,
    ensures
        byte_of(numeral(b as nat, radix), radix) == Ok::<u8, IntError>(b),
{
    let s = numeral(b as nat, radix);
    lemma_number_numeral(b as nat, radix);
    lemma_numeral_digits(b as nat, radix);
    assert(s.contains(s[0]));
    lemma_byte_of_number(s, radix);
}

} // verus!
