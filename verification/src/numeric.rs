//! Decimal integer parsing with exact width and range checking.
//!
//! The accepted form is an optional sign followed by one or more decimal
//! digits; the value must fit the target range.  Each failure is classified,
//! and each class has a fixed message.

use vstd::prelude::*;
use vstd::string::StrSliceExecFns;
use vstd::string::StringExecFns;

verus! {

/// Why a decimal integer parse failed.
#[derive(Debug, PartialEq, Eq, Structural, Clone, Copy)]
pub enum IntParseError {
    /// The input was empty.
    Empty,
    /// A character other than a decimal digit stood where a digit was
    /// expected.
    InvalidDigit,
    /// The digits read so far already exceed the largest value of the
    /// target range.
    PosOverflow,
    /// The digits read so far already fall below the smallest value of the
    /// target range.
    NegOverflow,
}

/// Whether `c` is a decimal digit.
pub open spec fn is_digit(c: char) -> bool {
    '0' <= c && c <= '9'
}

/// The numeric value of the decimal digit `c`.
pub open spec fn digit_value(c: char) -> int {
    c as int - '0' as int
}

/// Scans `s` left to right as decimal digits, extending the value `acc`.
/// The scan stops at the first character that is no digit, and at the first
/// digit that would push the value beyond `max`.
pub open spec fn scan_digits(s: Seq<char>, acc: int, max: int) -> Result<int, IntParseError>
    decreases s.len(),
{
    if s.len() == 0 {
        Ok(acc)
    } else if !is_digit(s[0]) {
        Err(IntParseError::InvalidDigit)
    } else if acc * 10 + digit_value(s[0]) > max {
        Err(IntParseError::PosOverflow)
    } else {
        scan_digits(s.drop_first(), acc * 10 + digit_value(s[0]), max)
    }
}

/// Parses `s` as a nonnegative decimal integer no greater than `max`.
/// A single leading `+` is accepted.
pub open spec fn parse_unsigned(s: Seq<char>, max: int) -> Result<int, IntParseError> {
    if s.len() == 0 {
        Err(IntParseError::Empty)
    } else {
        let body = if s[0] == '+' {
            s.drop_first()
        } else {
            s
        };
        if body.len() == 0 {
            Err(IntParseError::InvalidDigit)
        } else {
            scan_digits(body, 0, max)
        }
    }
}

/// Parses `s` as a decimal integer within `min ..= max`, where `min` is
/// nonpositive and `max` nonnegative.  A single leading `+` or `-` is
/// accepted; a value scanned after `-` counts against `min`, and the
/// overflow class is negative there.
pub open spec fn parse_signed(s: Seq<char>, min: int, max: int) -> Result<int, IntParseError> {
    if s.len() == 0 {
        Err(IntParseError::Empty)
    } else if s[0] == '-' {
        let body = s.drop_first();
        if body.len() == 0 {
            Err(IntParseError::InvalidDigit)
        } else {
            match scan_digits(body, 0, -min) {
                Ok(m) => Ok(-m),
                Err(IntParseError::PosOverflow) => Err(IntParseError::NegOverflow),
                Err(e) => Err(e),
            }
        }
    } else {
        parse_unsigned(s, max)
    }
}

/// The fixed message for each failure class.
pub open spec fn int_error_message(e: IntParseError) -> Seq<char> {
    match e {
        IntParseError::Empty => "cannot parse integer from empty string"@,
        IntParseError::InvalidDigit => "invalid digit found in string"@,
        IntParseError::PosOverflow => "number too large to fit in target type"@,
        IntParseError::NegOverflow => "number too small to fit in target type"@,
    }
}

/// The fixed message for each failure class, as a fresh string.
pub fn int_error_string(e: IntParseError) -> (r: String)
    ensures
        r@ == int_error_message(e),
{
    match e {
        IntParseError::Empty => "cannot parse integer from empty string".to_owned(),
        IntParseError::InvalidDigit => "invalid digit found in string".to_owned(),
        IntParseError::PosOverflow => "number too large to fit in target type".to_owned(),
        IntParseError::NegOverflow => "number too small to fit in target type".to_owned(),
    }
}

/// A successful scan yields a value within `0 ..= max`.
pub proof fn lemma_scan_digits_bound(s: Seq<char>, acc: int, max: int)
    requires
        0 <= acc <= max,
    ensures
        scan_digits(s, acc, max) matches Ok(v) ==> 0 <= v <= max,
    decreases s.len(),
{
    if s.len() == 0 {
    } else if !is_digit(s[0]) {
    } else if acc * 10 + digit_value(s[0]) > max {
    } else {
        lemma_scan_digits_bound(s.drop_first(), acc * 10 + digit_value(s[0]), max);
    }
}

/// A successful unsigned parse yields a value within `0 ..= max`.
pub proof fn lemma_parse_unsigned_bound(s: Seq<char>, max: int)
    requires
        0 < max,
    ensures
        parse_unsigned(s, max) matches Ok(v) ==> 0 <= v <= max,
{
    if s.len() > 0 {
        let body = if s[0] == '+' {
            s.drop_first()
        } else {
            s
        };
        if body.len() > 0 {
            lemma_scan_digits_bound(body, 0, max);
        }
    }
}

/// A successful signed parse yields a value within `min ..= max`.
pub proof fn lemma_parse_signed_bound(s: Seq<char>, min: int, max: int)
    requires
        min < 0 < max,
    ensures
        parse_signed(s, min, max) matches Ok(v) ==> min <= v <= max,
{
    if s.len() > 0 && s[0] == '-' {
        let body = s.drop_first();
        if body.len() > 0 {
            lemma_scan_digits_bound(body, 0, -min);
        }
    } else {
        lemma_parse_unsigned_bound(s, max);
    }
}

/// Extending a value below `max` by one digit stays within `u128` range.
proof fn lemma_step_bound(acc: int, d: int, max: int)
    requires
        0 <= acc,
        0 <= d < 10,
        0 < max <= u128::MAX,
        acc * 10 + d <= max,
    ensures
        0 <= acc * 10 + d <= u128::MAX,
{
}

/// The digit scan, on a `u128` accumulator.
pub(crate) fn scan_digits_exec(s: &str, start: usize, acc: u128, max: u128) -> (r: Result<
    u128,
    IntParseError,
>)
    requires
        start <= s@.len(),
        0 <= acc <= max,
        0 < max,
    ensures
        match r {
            Ok(v) => scan_digits(s@.skip(start as int), acc as int, max as int) == Ok::<int, IntParseError>(v as int),
            Err(e) => scan_digits(s@.skip(start as int), acc as int, max as int)
                == Err::<int, IntParseError>(e),
        },
    decreases s@.len() - start,
{
    if start == s.unicode_len() {
        proof {
            assert(s@.skip(start as int).len() == 0);
        }
        return Ok(acc);
    }
    let c = s.get_char(start);
    proof {
        assert(s@.skip(start as int)[0] == s@[start as int]);
        assert(s@.skip(start as int).drop_first() =~= s@.skip(start as int + 1));
    }
    if !(c >= '0' && c <= '9') {
        return Err(IntParseError::InvalidDigit);
    }
    let d: u128 = (c as u32 - 48) as u128;
    proof {
        assert(d == digit_value(c));
    }
    if acc > max / 10 || (acc == max / 10 && d > max % 10) {
        proof {
            assert(max == 10 * (max / 10) + max % 10) by (nonlinear_arith)
                requires
                    max > 0,
            ;
            assert((acc as int) * 10 + (d as int) > (max as int)) by (nonlinear_arith)
                requires
                    (acc as int) > (max as int) / 10 || ((acc as int) == (max as int) / 10 && (
                    d as int) > (max as int) % 10),
                    (max as int) == 10 * ((max as int) / 10) + (max as int) % 10,
                    0 <= d < 10,
                    0 <= acc,
            ;
        }
        return Err(IntParseError::PosOverflow);
    }
    proof {
        assert(max == 10 * (max / 10) + max % 10) by (nonlinear_arith)
            requires
                max > 0,
        ;
        assert((acc as int) * 10 + (d as int) <= (max as int)) by (nonlinear_arith)
            requires
                (acc as int) < (max as int) / 10 || ((acc as int) == (max as int) / 10 && (
                d as int) <= (max as int) % 10),
                (max as int) == 10 * ((max as int) / 10) + (max as int) % 10,
                0 <= d < 10,
                0 <= acc,
        ;
        lemma_step_bound(acc as int, d as int, max as int);
    }
    let next: u128 = acc * 10 + d;
    scan_digits_exec(s, start + 1, next, max)
}

/// Parses `raw` as a nonnegative decimal integer no greater than `max`,
/// exactly as [`parse_unsigned`] describes.
pub fn parse_unsigned_exec(raw: &str, max: u128) -> (r: Result<u128, IntParseError>)
    requires
        0 < max,
    ensures
        match r {
            Ok(v) => parse_unsigned(raw@, max as int) == Ok::<int, IntParseError>(v as int),
            Err(e) => parse_unsigned(raw@, max as int) == Err::<int, IntParseError>(e),
        },
{
    let n = raw.unicode_len();
    if n == 0 {
        return Err(IntParseError::Empty);
    }
    let first = raw.get_char(0);
    let start: usize = if first == '+' {
        1
    } else {
        0
    };
    proof {
        if first == '+' {
            assert(raw@.drop_first() =~= raw@.skip(1));
        } else {
            assert(raw@ =~= raw@.skip(0));
        }
    }
    if start == n {
        return Err(IntParseError::InvalidDigit);
    }
    scan_digits_exec(raw, start, 0, max)
}

/// Parses `raw` as a decimal integer within `min ..= max`, exactly as
/// [`parse_signed`] describes.  `min` must be the negative end of a
/// two's-complement range whose magnitude fits `u128`.
pub fn parse_signed_exec(raw: &str, min: i128, max: i128) -> (r: Result<i128, IntParseError>)
    requires
        min < 0 < max,
        -(min as int) <= u128::MAX,
        max as int <= u128::MAX,
    ensures
        match r {
            Ok(v) => parse_signed(raw@, min as int, max as int) == Ok::<int, IntParseError>(v as int),
            Err(e) => parse_signed(raw@, min as int, max as int) == Err::<int, IntParseError>(e),
        },
{
    let n = raw.unicode_len();
    if n == 0 {
        return Err(IntParseError::Empty);
    }
    let first = raw.get_char(0);
    if first == '-' {
        proof {
            assert(raw@.drop_first() =~= raw@.skip(1));
        }
        if n == 1 {
            return Err(IntParseError::InvalidDigit);
        }
        let magnitude_max: u128 = if min == i128::MIN {
            170141183460469231731687303715884105728u128
        } else {
            (-min) as u128
        };
        proof {
            assert(magnitude_max as int == -(min as int));
        }
        match scan_digits_exec(raw, 1, 0, magnitude_max) {
            Ok(m) => {
                proof {
                    lemma_scan_digits_bound(raw@.skip(1), 0, magnitude_max as int);
                }
                if m == magnitude_max && min == i128::MIN {
                    Ok(i128::MIN)
                } else {
                    Ok(-(m as i128))
                }
            },
            Err(IntParseError::PosOverflow) => Err(IntParseError::NegOverflow),
            Err(e) => Err(e),
        }
    } else {
        let start: usize = if first == '+' {
            1
        } else {
            0
        };
        proof {
            if first == '+' {
                assert(raw@.drop_first() =~= raw@.skip(1));
            } else {
                assert(raw@ =~= raw@.skip(0));
            }
        }
        if start == n {
            return Err(IntParseError::InvalidDigit);
        }
        match scan_digits_exec(raw, start, 0, max as u128) {
            Ok(v) => {
                proof {
                    lemma_scan_digits_bound(raw@.skip(start as int), 0, max as int);
                }
                Ok(v as i128)
            },
            Err(e) => Err(e),
        }
    }
}

} // verus!
