//! Decimal text of unsigned integers: how an index is written into a key
//! segment, and how it is read back.

use vstd::prelude::*;

verus! {

/// The character that stands for a digit below ten.
pub open spec fn digit_char(d: nat) -> char {
    if d == 0 {
        '0'
    } else if d == 1 {
        '1'
    } else if d == 2 {
        '2'
    } else if d == 3 {
        '3'
    } else if d == 4 {
        '4'
    } else if d == 5 {
        '5'
    } else if d == 6 {
        '6'
    } else if d == 7 {
        '7'
    } else if d == 8 {
        '8'
    } else {
        '9'
    }
}

/// Whether a character is one of the ten decimal digits.
pub open spec fn is_digit(c: char) -> bool {
    '0' <= c && c <= '9'
}

/// The value of a decimal digit.
pub open spec fn digit_value(c: char) -> nat {
    (c as u32 - '0' as u32) as nat
}

/// The shortest decimal text of a number: no sign, no leading zero.
pub open spec fn decimal_text(n: nat) -> Seq<char>
    decreases n,
{
    if n < 10 {
        seq![digit_char(n)]
    } else {
        decimal_text(n / 10).push(digit_char(n % 10))
    }
}

fn digit_text(d: u64) -> (text: &'static str)
    requires
        d < 10,
    ensures
        text@ == seq![digit_char(d as nat)],
{
    proof {
        reveal_strlit("0");
        reveal_strlit("1");
        reveal_strlit("2");
        reveal_strlit("3");
        reveal_strlit("4");
        reveal_strlit("5");
        reveal_strlit("6");
        reveal_strlit("7");
        reveal_strlit("8");
        reveal_strlit("9");
    }
    if d == 0 {
        "0"
    } else if d == 1 {
        "1"
    } else if d == 2 {
        "2"
    } else if d == 3 {
        "3"
    } else if d == 4 {
        "4"
    } else if d == 5 {
        "5"
    } else if d == 6 {
        "6"
    } else if d == 7 {
        "7"
    } else if d == 8 {
        "8"
    } else {
        "9"
    }
}

/// Writes a number in decimal.
pub fn u64_to_text(n: u64) -> (text: String)
    ensures
        text@ == decimal_text(n as nat),
    decreases n,
{
    if n < 10 {
        digit_text(n).to_owned()
    } else {
        let mut text = u64_to_text(n / 10);
        text.append(digit_text(n % 10));
        text
    }
}

/// Why a text is not the decimal form of a `u64`.
#[derive(Clone, Copy, Debug, PartialEq, Eq, Structural)]
pub enum ParseError {
    /// The text is empty.
    Empty,
    /// A character that is no digit stands where a digit is expected, or no
    /// digit follows the sign.
    InvalidDigit,
    /// The digits read so far exceed the largest `u64`.
    Overflow,
}

/// The words for a parse error.
pub open spec fn parse_error_text(e: ParseError) -> Seq<char> {
    match e {
        ParseError::Empty => "cannot parse integer from empty string"@,
        ParseError::InvalidDigit => "invalid digit found in string"@,
        ParseError::Overflow => "number too large to fit in target type"@,
    }
}

impl ParseError {
    /// The words for this error.
    pub fn to_text(&self) -> (text: String)
        ensures
            text@ == parse_error_text(*self),
    {
        match self {
            ParseError::Empty => "cannot parse integer from empty string".to_owned(),
            ParseError::InvalidDigit => "invalid digit found in string".to_owned(),
            ParseError::Overflow => "number too large to fit in target type".to_owned(),
        }
    }
}

/// The value of a run of digits, read from left to right. The first
/// character that cannot be taken decides the error.
pub open spec fn digits_value(s: Seq<char>) -> Result<u64, ParseError>
    decreases s.len(),
{
    if s.len() == 0 {
        Ok(0)
    } else {
        match digits_value(s.drop_last()) {
            Err(e) => Err(e),
            Ok(v) => if !is_digit(s.last()) {
                Err(ParseError::InvalidDigit)
            } else if v * 10 + digit_value(s.last()) > u64::MAX {
                Err(ParseError::Overflow)
            } else {
                Ok((v * 10 + digit_value(s.last())) as u64)
            },
        }
    }
}

/// The digits of a text: all of it but one leading `+`.
pub open spec fn unsigned_part(s: Seq<char>) -> Seq<char> {
    if s.len() > 0 && s[0] == '+' {
        s.skip(1)
    } else {
        s
    }
}

/// The number that a text denotes: an optional `+`, then at least one
/// decimal digit, with a value that fits in a `u64`.
pub open spec fn parse_text(s: Seq<char>) -> Result<u64, ParseError> {
    if s.len() == 0 {
        Err(ParseError::Empty)
    } else if unsigned_part(s).len() == 0 {
        Err(ParseError::InvalidDigit)
    } else {
        digits_value(unsigned_part(s))
    }
}

/// An error among the first digits is the error of the whole run.
pub proof fn lemma_digits_error_stays(s: Seq<char>, k: int)
    requires
        0 <= k <= s.len(),
        digits_value(s.take(k)) is Err,
    ensures
        digits_value(s) == digits_value(s.take(k)),
    decreases s.len() - k,
{
    if k == s.len() {
        assert(s.take(k) =~= s);
    } else {
        assert(s.take(k + 1).drop_last() =~= s.take(k));
        lemma_digits_error_stays(s, k + 1);
    }
}

/// The decimal text of a number holds digits only, and at least one.
pub proof fn lemma_decimal_text_is_digits(n: nat)
    ensures
        decimal_text(n).len() > 0,
        forall|i: int| 0 <= i < decimal_text(n).len() ==> is_digit(#[trigger] decimal_text(n)[i]),
    decreases n,
{
    if n >= 10 {
        lemma_decimal_text_is_digits(n / 10);
    }
}

/// A number is read back from its decimal text.
pub proof fn lemma_decimal_round_trip(n: u64)
    ensures
        parse_text(decimal_text(n as nat)) == Ok::<u64, ParseError>(n),
{
    lemma_decimal_text_is_digits(n as nat);
    lemma_digits_of_decimal_text(n as nat);
}

/// Two numbers with the same decimal text are the same number.
pub proof fn lemma_decimal_text_is_injective(m: u64, n: u64)
    requires
        decimal_text(m as nat) == decimal_text(n as nat),
    ensures
        m == n,
{
    lemma_decimal_round_trip(m);
    lemma_decimal_round_trip(n);
}

proof fn lemma_digits_of_decimal_text(n: nat)
    requires
        n <= u64::MAX,
    ensures
        digits_value(decimal_text(n)) == Ok::<u64, ParseError>(n as u64),
    decreases n,
{
    let text = decimal_text(n);
    if n < 10 {
        assert(digits_value(text.drop_last()) == Ok::<u64, ParseError>(0));
    } else {
        lemma_digits_of_decimal_text(n / 10);
        assert(text.drop_last() =~= decimal_text(n / 10));
    }
}

/// Reads a number written in decimal.
pub fn parse_u64(text: &str) -> (r: Result<u64, ParseError>)
    ensures
        r == parse_text(text@),
{
    if text.is_empty() {
        return Err(ParseError::Empty);
    }
    let ghost digits = unsigned_part(text@);
    let ghost skipped = text@.len() - digits.len();
    let mut value: u64 = 0;
    let mut at_start = true;
    let mut any_digit = false;
    for c in it: text.chars()
        invariant
            it.seq() == text@,
            text@.len() > 0,
            digits == unsigned_part(text@),
            skipped == text@.len() - digits.len(),
            at_start == (it.index() == 0),
            any_digit == (it.index() > skipped),
            it.index() <= skipped ==> value == 0,
            it.index() >= skipped ==> digits_value(digits.take(it.index() - skipped)) == Ok::<
                u64,
                ParseError,
            >(value),
    {
        if at_start && c == '+' {
            at_start = false;
        } else {
            at_start = false;
            let ghost k = it.index() - skipped;
            assert(digits.take(k + 1).drop_last() =~= digits.take(k));
            if !(c >= '0' && c <= '9') {
                proof {
                    lemma_digits_error_stays(digits, k + 1);
                }
                return Err(ParseError::InvalidDigit);
            }
            let d: u64 = (c as u32 - '0' as u32) as u64;
            if value > (u64::MAX - d) / 10 {
                proof {
                    lemma_digits_error_stays(digits, k + 1);
                }
                return Err(ParseError::Overflow);
            }
            value = value * 10 + d;
            any_digit = true;
        }
    }
    assert(digits.take(digits.len() as int) =~= digits);
    if any_digit {
        Ok(value)
    } else {
        Err(ParseError::InvalidDigit)
    }
}

} // verus!
