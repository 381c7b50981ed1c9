//! Built-in implementations of the decoder protocol for common types.
//!
//! Each implementation carries a contract that pins its result down exactly,
//! over the parsing model of [`crate::numeric`] or a local model.  The
//! non-zero decoders accept the same text as the plain integer decoders and
//! additionally reject the literal zero.

use crate::config_value_decoder::ConfigValueDecoder;
use crate::numeric::IntParseError;
use crate::numeric::int_error_message;
use crate::numeric::int_error_string;
use crate::numeric::lemma_parse_signed_bound;
use crate::numeric::lemma_parse_unsigned_bound;
use crate::numeric::parse_signed;
use crate::numeric::parse_signed_exec;
use crate::numeric::parse_unsigned;
use crate::numeric::parse_unsigned_exec;
use crate::secret::Secret;
use vstd::prelude::*;
use vstd::string::StrSliceExecFns;

verus! {

impl ConfigValueDecoder for String {
    /// Passes the raw value through unchanged.
    fn decode(raw: String) -> (r: Result<String, String>)
        ensures
            r == Ok::<String, String>(raw),
    {
        Ok(raw)
    }
}

/// The message for a boolean that is neither `true` nor `false`.
pub open spec fn bool_error_message() -> Seq<char> {
    "provided string was not `true` or `false`"@
}

/// A boolean decodes from the literal `true` or `false` and nothing else.
pub open spec fn parse_bool(s: Seq<char>) -> Result<bool, Seq<char>> {
    if s == "true"@ {
        Ok(true)
    } else if s == "false"@ {
        Ok(false)
    } else {
        Err(bool_error_message())
    }
}

impl ConfigValueDecoder for bool {
    /// Decodes the literal `true` or `false`; anything else is rejected.
    fn decode(raw: String) -> (r: Result<bool, String>)
        ensures
            match parse_bool(raw@) {
                Ok(b) => r matches Ok(x) && x == b,
                Err(m) => r matches Err(s) && s@ == m,
            },
    {
        if raw == "true".to_owned() {
            Ok(true)
        } else if raw == "false".to_owned() {
            Ok(false)
        } else {
            Err("provided string was not `true` or `false`".to_owned())
        }
    }
}

/// The message for a character parse of an empty string.
pub open spec fn char_empty_message() -> Seq<char> {
    "cannot parse char from empty string"@
}

/// The message for a character parse of two or more characters.
pub open spec fn char_many_message() -> Seq<char> {
    "too many characters in string"@
}

/// A character decodes from exactly one character of input.
pub open spec fn parse_char(s: Seq<char>) -> Result<char, Seq<char>> {
    if s.len() == 1 {
        Ok(s[0])
    } else if s.len() == 0 {
        Err(char_empty_message())
    } else {
        Err(char_many_message())
    }
}

impl ConfigValueDecoder for char {
    /// Decodes exactly one character; an empty or longer input is rejected.
    fn decode(raw: String) -> (r: Result<char, String>)
        ensures
            match parse_char(raw@) {
                Ok(c) => r matches Ok(x) && x == c,
                Err(m) => r matches Err(s) && s@ == m,
            },
    {
        let n = raw.as_str().unicode_len();
        if n == 1 {
            Ok(raw.as_str().get_char(0))
        } else if n == 0 {
            Err("cannot parse char from empty string".to_owned())
        } else {
            Err("too many characters in string".to_owned())
        }
    }
}

impl ConfigValueDecoder for u8 {
    /// Decodes a decimal integer within the `u8` range.
    fn decode(raw: String) -> (r: Result<u8, String>)
        ensures
            match parse_unsigned(raw@, u8::MAX as int) {
                Ok(v) => r matches Ok(x) && x as int == v,
                Err(e) => r matches Err(m) && m@ == int_error_message(e),
            },
    {
        proof {
            lemma_parse_unsigned_bound(raw@, u8::MAX as int);
        }
        match parse_unsigned_exec(raw.as_str(), u8::MAX as u128) {
            Ok(v) => Ok(v as u8),
            Err(e) => Err(int_error_string(e)),
        }
    }
}

impl ConfigValueDecoder for u16 {
    /// Decodes a decimal integer within the `u16` range.
    fn decode(raw: String) -> (r: Result<u16, String>)
        ensures
            match parse_unsigned(raw@, u16::MAX as int) {
                Ok(v) => r matches Ok(x) && x as int == v,
                Err(e) => r matches Err(m) && m@ == int_error_message(e),
            },
    {
        proof {
            lemma_parse_unsigned_bound(raw@, u16::MAX as int);
        }
        match parse_unsigned_exec(raw.as_str(), u16::MAX as u128) {
            Ok(v) => Ok(v as u16),
            Err(e) => Err(int_error_string(e)),
        }
    }
}

impl ConfigValueDecoder for u32 {
    /// Decodes a decimal integer within the `u32` range.
    fn decode(raw: String) -> (r: Result<u32, String>)
        ensures
            match parse_unsigned(raw@, u32::MAX as int) {
                Ok(v) => r matches Ok(x) && x as int == v,
                Err(e) => r matches Err(m) && m@ == int_error_message(e),
            },
    {
        proof {
            lemma_parse_unsigned_bound(raw@, u32::MAX as int);
        }
        match parse_unsigned_exec(raw.as_str(), u32::MAX as u128) {
            Ok(v) => Ok(v as u32),
            Err(e) => Err(int_error_string(e)),
        }
    }
}

impl ConfigValueDecoder for u64 {
    /// Decodes a decimal integer within the `u64` range.
    fn decode(raw: String) -> (r: Result<u64, String>)
        ensures
            match parse_unsigned(raw@, u64::MAX as int) {
                Ok(v) => r matches Ok(x) && x as int == v,
                Err(e) => r matches Err(m) && m@ == int_error_message(e),
            },
    {
        proof {
            lemma_parse_unsigned_bound(raw@, u64::MAX as int);
        }
        match parse_unsigned_exec(raw.as_str(), u64::MAX as u128) {
            Ok(v) => Ok(v as u64),
            Err(e) => Err(int_error_string(e)),
        }
    }
}

impl ConfigValueDecoder for u128 {
    /// Decodes a decimal integer within the `u128` range.
    fn decode(raw: String) -> (r: Result<u128, String>)
        ensures
            match parse_unsigned(raw@, u128::MAX as int) {
                Ok(v) => r matches Ok(x) && x as int == v,
                Err(e) => r matches Err(m) && m@ == int_error_message(e),
            },
    {
        proof {
            lemma_parse_unsigned_bound(raw@, u128::MAX as int);
        }
        match parse_unsigned_exec(raw.as_str(), u128::MAX as u128) {
            Ok(v) => Ok(v as u128),
            Err(e) => Err(int_error_string(e)),
        }
    }
}

impl ConfigValueDecoder for usize {
    /// Decodes a decimal integer within the `usize` range.
    fn decode(raw: String) -> (r: Result<usize, String>)
        ensures
            match parse_unsigned(raw@, usize::MAX as int) {
                Ok(v) => r matches Ok(x) && x as int == v,
                Err(e) => r matches Err(m) && m@ == int_error_message(e),
            },
    {
        proof {
            lemma_parse_unsigned_bound(raw@, usize::MAX as int);
        }
        match parse_unsigned_exec(raw.as_str(), usize::MAX as u128) {
            Ok(v) => Ok(v as usize),
            Err(e) => Err(int_error_string(e)),
        }
    }
}

impl ConfigValueDecoder for i8 {
    /// Decodes a decimal integer within the `i8` range.
    fn decode(raw: String) -> (r: Result<i8, String>)
        ensures
            match parse_signed(raw@, i8::MIN as int, i8::MAX as int) {
                Ok(v) => r matches Ok(x) && x as int == v,
                Err(e) => r matches Err(m) && m@ == int_error_message(e),
            },
    {
        proof {
            lemma_parse_signed_bound(raw@, i8::MIN as int, i8::MAX as int);
        }
        match parse_signed_exec(raw.as_str(), i8::MIN as i128, i8::MAX as i128) {
            Ok(v) => Ok(v as i8),
            Err(e) => Err(int_error_string(e)),
        }
    }
}

impl ConfigValueDecoder for i16 {
    /// Decodes a decimal integer within the `i16` range.
    fn decode(raw: String) -> (r: Result<i16, String>)
        ensures
            match parse_signed(raw@, i16::MIN as int, i16::MAX as int) {
                Ok(v) => r matches Ok(x) && x as int == v,
                Err(e) => r matches Err(m) && m@ == int_error_message(e),
            },
    {
        proof {
            lemma_parse_signed_bound(raw@, i16::MIN as int, i16::MAX as int);
        }
        match parse_signed_exec(raw.as_str(), i16::MIN as i128, i16::MAX as i128) {
            Ok(v) => Ok(v as i16),
            Err(e) => Err(int_error_string(e)),
        }
    }
}

impl ConfigValueDecoder for i32 {
    /// Decodes a decimal integer within the `i32` range.
    fn decode(raw: String) -> (r: Result<i32, String>)
        ensures
            match parse_signed(raw@, i32::MIN as int, i32::MAX as int) {
                Ok(v) => r matches Ok(x) && x as int == v,
                Err(e) => r matches Err(m) && m@ == int_error_message(e),
            },
    {
        proof {
            lemma_parse_signed_bound(raw@, i32::MIN as int, i32::MAX as int);
        }
        match parse_signed_exec(raw.as_str(), i32::MIN as i128, i32::MAX as i128) {
            Ok(v) => Ok(v as i32),
            Err(e) => Err(int_error_string(e)),
        }
    }
}

impl ConfigValueDecoder for i64 {
    /// Decodes a decimal integer within the `i64` range.
    fn decode(raw: String) -> (r: Result<i64, String>)
        ensures
            match parse_signed(raw@, i64::MIN as int, i64::MAX as int) {
                Ok(v) => r matches Ok(x) && x as int == v,
                Err(e) => r matches Err(m) && m@ == int_error_message(e),
            },
    {
        proof {
            lemma_parse_signed_bound(raw@, i64::MIN as int, i64::MAX as int);
        }
        match parse_signed_exec(raw.as_str(), i64::MIN as i128, i64::MAX as i128) {
            Ok(v) => Ok(v as i64),
            Err(e) => Err(int_error_string(e)),
        }
    }
}

impl ConfigValueDecoder for i128 {
    /// Decodes a decimal integer within the `i128` range.
    fn decode(raw: String) -> (r: Result<i128, String>)
        ensures
            match parse_signed(raw@, i128::MIN as int, i128::MAX as int) {
                Ok(v) => r matches Ok(x) && x as int == v,
                Err(e) => r matches Err(m) && m@ == int_error_message(e),
            },
    {
        proof {
            lemma_parse_signed_bound(raw@, i128::MIN as int, i128::MAX as int);
        }
        match parse_signed_exec(raw.as_str(), i128::MIN as i128, i128::MAX as i128) {
            Ok(v) => Ok(v as i128),
            Err(e) => Err(int_error_string(e)),
        }
    }
}

impl ConfigValueDecoder for isize {
    /// Decodes a decimal integer within the `isize` range.
    fn decode(raw: String) -> (r: Result<isize, String>)
        ensures
            match parse_signed(raw@, isize::MIN as int, isize::MAX as int) {
                Ok(v) => r matches Ok(x) && x as int == v,
                Err(e) => r matches Err(m) && m@ == int_error_message(e),
            },
    {
        proof {
            lemma_parse_signed_bound(raw@, isize::MIN as int, isize::MAX as int);
        }
        match parse_signed_exec(raw.as_str(), isize::MIN as i128, isize::MAX as i128) {
            Ok(v) => Ok(v as isize),
            Err(e) => Err(int_error_string(e)),
        }
    }
}

/// The message for a non-zero integer given as literal zero.
pub open spec fn zero_error_message() -> Seq<char> {
    "number would be zero for non-zero type"@
}

/// A non-zero unsigned decode: the integer parse, with zero rejected.
pub open spec fn nonzero_unsigned_spec(s: Seq<char>, max: int) -> Result<int, Seq<char>> {
    match parse_unsigned(s, max) {
        Ok(v) => if v == 0 {
            Err(zero_error_message())
        } else {
            Ok(v)
        },
        Err(e) => Err(int_error_message(e)),
    }
}

/// A non-zero signed decode: the integer parse, with zero rejected.
pub open spec fn nonzero_signed_spec(s: Seq<char>, min: int, max: int) -> Result<int, Seq<char>> {
    match parse_signed(s, min, max) {
        Ok(v) => if v == 0 {
            Err(zero_error_message())
        } else {
            Ok(v)
        },
        Err(e) => Err(int_error_message(e)),
    }
}

/// Decodes a decimal integer within `1 ..= max`: as the plain unsigned
/// decoders do, except that the literal zero is a decode error.
pub fn decode_nonzero_unsigned(raw: &str, max: u128) -> (r: Result<u128, String>)
    requires
        0 < max,
    ensures
        match nonzero_unsigned_spec(raw@, max as int) {
            Ok(v) => r matches Ok(x) && x as int == v && x != 0,
            Err(m) => r matches Err(s) && s@ == m,
        },
{
    match parse_unsigned_exec(raw, max) {
        Ok(v) => {
            if v == 0 {
                Err("number would be zero for non-zero type".to_owned())
            } else {
                Ok(v)
            }
        },
        Err(e) => Err(int_error_string(e)),
    }
}

/// Decodes a nonzero decimal integer within `min ..= max`: as the plain
/// signed decoders do, except that the literal zero is a decode error.
pub fn decode_nonzero_signed(raw: &str, min: i128, max: i128) -> (r: Result<i128, String>)
    requires
        min < 0 < max,
        -(min as int) <= u128::MAX,
        max as int <= u128::MAX,
    ensures
        match nonzero_signed_spec(raw@, min as int, max as int) {
            Ok(v) => r matches Ok(x) && x as int == v && x != 0,
            Err(m) => r matches Err(s) && s@ == m,
        },
{
    match parse_signed_exec(raw, min, max) {
        Ok(v) => {
            if v == 0 {
                Err("number would be zero for non-zero type".to_owned())
            } else {
                Ok(v)
            }
        },
        Err(e) => Err(int_error_string(e)),
    }
}

impl<T: ConfigValueDecoder> ConfigValueDecoder for Option<T> {
    /// Delegates to the inner decoder and wraps success as present.
    fn decode(raw: String) -> Result<Option<T>, String> {
        match T::decode(raw) {
            Ok(v) => Ok(Some(v)),
            Err(m) => Err(m),
        }
    }
}

impl<T: ConfigValueDecoder> ConfigValueDecoder for Secret<T> {
    /// Delegates to the inner decoder and wraps success as a secret.
    fn decode(raw: String) -> Result<Secret<T>, String> {
        match T::decode(raw) {
            Ok(v) => Ok(Secret(v)),
            Err(m) => Err(m),
        }
    }
}

} // verus!
