//! Whole numbers as decimal text: parsing and writing.

use crate::text::chars_of;
use vstd::prelude::*;
use vstd::string::{StrSliceExecFns, StringExecFns};

verus! {

/// Why a text is no number of the wanted type.
#[derive(Clone, Copy, Debug, PartialEq, Eq, Structural)]
pub enum ParseError {
    /// The text is empty.
    Empty,
    /// The text holds a character that is no digit where a digit is due, or
    /// nothing but a sign.
    InvalidDigit,
    /// The number is too large for the type.
    PosOverflow,
    /// The number is too small for the type.
    NegOverflow,
}

/// The description of a [`ParseError`].
pub open spec fn parse_message(error: ParseError) -> Seq<char> {
    match error {
        ParseError::Empty => "cannot parse integer from empty string"@,
        ParseError::InvalidDigit => "invalid digit found in string"@,
        ParseError::PosOverflow => "number too large to fit in target type"@,
        ParseError::NegOverflow => "number too small to fit in target type"@,
    }
}

impl ParseError {
    /// The description of the error.
    pub fn message(&self) -> (text: &'static str)
        ensures
            text@ == parse_message(*self),
    {
        match self {
            ParseError::Empty => "cannot parse integer from empty string",
            ParseError::InvalidDigit => "invalid digit found in string",
            ParseError::PosOverflow => "number too large to fit in target type",
            ParseError::NegOverflow => "number too small to fit in target type",
        }
    }
}

/// Whether `c` is one of the ten decimal digits.
pub open spec fn is_digit(c: char) -> bool {
    48 <= c as u32 <= 57
}

/// The value of the decimal digit `c`.
pub open spec fn digit_value(c: char) -> int {
    c as u32 - 48
}

/// The decimal digit for `d`, which is below ten.
pub open spec fn digit(d: int) -> char {
    ((48 + d) as u8) as char
}

/// The number that the digits `s` make of `acc` by appending them to it, one
/// by one from the left; a negative number grows downwards. The first
/// character that is no digit, or the first digit that takes the number out
/// of the range from `min` to `max`, decides the error.
pub open spec fn parsed_digits(s: Seq<char>, acc: int, negative: bool, min: int, max: int) -> Result<
    int,
    ParseError,
>
    decreases s.len(),
{
    if s.len() == 0 {
        Ok(acc)
    } else if !is_digit(s.first()) {
        Err(ParseError::InvalidDigit)
    } else {
        let next = if negative {
            acc * 10 - digit_value(s.first())
        } else {
            acc * 10 + digit_value(s.first())
        };
        if next > max {
            Err(ParseError::PosOverflow)
        } else if next < min {
            Err(ParseError::NegOverflow)
        } else {
            parsed_digits(s.drop_first(), next, negative, min, max)
        }
    }
}

/// The number between `min` and `max` that `s` denotes: an optional sign, `+`
/// or `-`, and then decimal digits, at least one, and nothing else.
pub open spec fn parsed_int(s: Seq<char>, min: int, max: int) -> Result<int, ParseError> {
    if s.len() == 0 {
        Err(ParseError::Empty)
    } else if s.len() == 1 && (s.first() == '+' || s.first() == '-') {
        Err(ParseError::InvalidDigit)
    } else if s.first() == '+' {
        parsed_digits(s.drop_first(), 0, false, min, max)
    } else if s.first() == '-' {
        parsed_digits(s.drop_first(), 0, true, min, max)
    } else {
        parsed_digits(s, 0, false, min, max)
    }
}

/// Parses a number between `min` and `max`.
fn parse_within(s: &str, min: i128, max: i128) -> (r: Result<i128, ParseError>)
    requires
        -0x8000_0000_0000_0000 <= min <= 0 <= max <= 0x7fff_ffff_ffff_ffff,
    ensures
        match r {
            Ok(n) => parsed_int(s@, min as int, max as int) == Ok::<int, ParseError>(n as int)
                && min <= n <= max,
            Err(e) => parsed_int(s@, min as int, max as int) == Err::<int, ParseError>(e),
        },
{
    let v = chars_of(s);
    if v.len() == 0 {
        return Err(ParseError::Empty);
    }
    if v.len() == 1 && (v[0] == '+' || v[0] == '-') {
        return Err(ParseError::InvalidDigit);
    }
    let negative = v[0] == '-';
    let mut i: usize = if v[0] == '+' || v[0] == '-' {
        1
    } else {
        0
    };
    let mut acc: i128 = 0;
    assert(v@.skip(0) =~= v@);
    while i < v.len()
        invariant
            i <= v.len(),
            v@ == s@,
            min <= acc <= max,
            -0x8000_0000_0000_0000 <= min <= 0 <= max <= 0x7fff_ffff_ffff_ffff,
            parsed_digits(v@.skip(i as int), acc as int, negative, min as int, max as int)
                == parsed_int(v@, min as int, max as int),
        decreases v.len() - i,
    {
        assert(v@.skip(i as int).drop_first() =~= v@.skip(i + 1));
        let u: u32 = v[i] as u32;
        if u < 48 || u > 57 {
            return Err(ParseError::InvalidDigit);
        }
        let d: i128 = (u - 48) as i128;
        let next: i128 = if negative {
            acc * 10 - d
        } else {
            acc * 10 + d
        };
        if next > max {
            return Err(ParseError::PosOverflow);
        }
        if next < min {
            return Err(ParseError::NegOverflow);
        }
        acc = next;
        i = i + 1;
    }
    Ok(acc)
}

/// Parses a 32-bit number.
pub fn parse_i32(s: &str) -> (r: Result<i32, ParseError>)
    ensures
        match r {
            Ok(n) => parsed_int(s@, i32::MIN as int, i32::MAX as int) == Ok::<int, ParseError>(
                n as int,
            ),
            Err(e) => parsed_int(s@, i32::MIN as int, i32::MAX as int) == Err::<int, ParseError>(
                e,
            ),
        },
{
    match parse_within(s, -0x8000_0000, 0x7fff_ffff) {
        Ok(n) => Ok(n as i32),
        Err(e) => Err(e),
    }
}

/// Parses a 64-bit number.
pub fn parse_i64(s: &str) -> (r: Result<i64, ParseError>)
    ensures
        match r {
            Ok(n) => parsed_int(s@, i64::MIN as int, i64::MAX as int) == Ok::<int, ParseError>(
                n as int,
            ),
            Err(e) => parsed_int(s@, i64::MIN as int, i64::MAX as int) == Err::<int, ParseError>(
                e,
            ),
        },
{
    match parse_within(s, -0x8000_0000_0000_0000, 0x7fff_ffff_ffff_ffff) {
        Ok(n) => Ok(n as i64),
        Err(e) => Err(e),
    }
}

/// The decimal digits of `n`, without leading zeros.
pub open spec fn decimal_digits(n: nat) -> Seq<char>
    decreases n,
{
    if n < 10 {
        seq![digit(n as int)]
    } else {
        decimal_digits(n / 10).push(digit(n as int % 10))
    }
}

/// `n` in decimal digits, behind a minus sign if it is negative.
pub open spec fn decimal(n: int) -> Seq<char> {
    if n < 0 {
        seq!['-'] + decimal_digits((-n) as nat)
    } else {
        decimal_digits(n as nat)
    }
}

/// A digit appended to digits is read after them: it is appended to the
/// number that they make.
pub proof fn lemma_parsed_digits_push(
    s: Seq<char>,
    c: char,
    acc: int,
    negative: bool,
    min: int,
    max: int,
)
    ensures
        parsed_digits(s.push(c), acc, negative, min, max) == match parsed_digits(
            s,
            acc,
            negative,
            min,
            max,
        ) {
            Ok(n) => parsed_digits(seq![c], n, negative, min, max),
            Err(e) => Err(e),
        },
    decreases s.len(),
{
    if s.len() == 0 {
        assert(s.push(c) =~= seq![c]);
    } else {
        assert(s.push(c).drop_first() =~= s.drop_first().push(c));
        if is_digit(s.first()) {
            let next = if negative {
                acc * 10 - digit_value(s.first())
            } else {
                acc * 10 + digit_value(s.first())
            };
            if min <= next <= max {
                lemma_parsed_digits_push(s.drop_first(), c, next, negative, min, max);
            }
        }
    }
}

/// The decimal digits of a number are read as that number, with either sign.
pub proof fn lemma_decimal_digits_parse(n: nat, negative: bool, min: int, max: int)
    requires
        min <= 0 <= max,
        negative ==> min <= -n,
        !negative ==> n <= max,
    ensures
        parsed_digits(decimal_digits(n), 0, negative, min, max) == Ok::<int, ParseError>(
            if negative {
                -n
            } else {
                n as int
            },
        ),
        decimal_digits(n).len() > 0,
        is_digit(decimal_digits(n).first()),
    decreases n,
{
    let d = (n % 10) as int;
    let last = seq![digit(d)];
    assert forall|acc: int| min <= acc <= max implies #[trigger] parsed_digits(
        last.drop_first(),
        acc,
        negative,
        min,
        max,
    ) == Ok::<int, ParseError>(acc) by {}
    if n >= 10 {
        let front = (n / 10) as int;
        lemma_decimal_digits_parse(n / 10, negative, min, max);
        lemma_parsed_digits_push(decimal_digits(n / 10), digit(d), 0, negative, min, max);
        let start = if negative { -front } else { front };
        let next = if negative { start * 10 - d } else { start * 10 + d };
        assert(parsed_digits(last, start, negative, min, max) == parsed_digits(
            last.drop_first(),
            next,
            negative,
            min,
            max,
        ));
    } else {
        let next = if negative { 0 - d } else { 0 + d };
        assert(parsed_digits(last, 0, negative, min, max) == parsed_digits(
            last.drop_first(),
            next,
            negative,
            min,
            max,
        ));
    }
}

/// A number that is written in decimal and read again is the same number.
pub proof fn lemma_decimal_parses(n: int, min: int, max: int)
    requires
        min <= n <= max,
        min <= 0 <= max,
    ensures
        parsed_int(decimal(n), min, max) == Ok::<int, ParseError>(n),
{
    if n < 0 {
        let digits = decimal_digits((-n) as nat);
        lemma_decimal_digits_parse((-n) as nat, true, min, max);
        assert((seq!['-'] + digits).drop_first() =~= digits);
    } else {
        lemma_decimal_digits_parse(n as nat, false, min, max);
    }
}

/// The text of one decimal digit.
fn digit_text(d: u64) -> (r: &'static str)
    requires
        d < 10,
    ensures
        r@ == seq![digit(d as int)],
{
    let digits = "0123456789";
    proof {
        reveal_strlit("0123456789");
    }
    let r = digits.substring_char(d as usize, d as usize + 1);
    r
}

/// Appends the decimal digits of `n` to `out`.
fn append_digits(out: &mut String, n: u64)
    ensures
        final(out)@ == old(out)@ + decimal_digits(n as nat),
    decreases n,
{
    if n >= 10 {
        append_digits(out, n / 10);
    }
    out.append(digit_text(n % 10));
}

/// Writes `n` in decimal.
pub fn int_text(n: i32) -> (r: String)
    ensures
        r@ == decimal(n as int),
{
    let mut r = String::new();
    if n < 0 {
        r.append("-");
        proof {
            reveal_strlit("-");
        }
        append_digits(&mut r, (-(n as i64)) as u64);
    } else {
        append_digits(&mut r, n as u64);
    }
    r
}

} // verus!
