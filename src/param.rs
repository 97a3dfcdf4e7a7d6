use vstd::prelude::*;
use vstd::utf8::{decode_utf8, encode_utf8, valid_utf8};

verus! {

/// The value of an ASCII hexadecimal digit.
pub open spec fn hex_value(b: u8) -> Option<u8> {
    if 48 <= b <= 57 {
        Some((b - 48) as u8)
    } else if 97 <= b <= 102 {
        Some((b - 87) as u8)
    } else if 65 <= b <= 70 {
        Some((b - 55) as u8)
    } else {
        None
    }
}

/// Percent-decoding of bytes: each `%` followed by two hexadecimal digits
/// becomes the byte they spell; every other byte stays.
pub open spec fn percent_decode_bytes(b: Seq<u8>) -> Seq<u8>
    decreases b.len(),
{
    if b.len() == 0 {
        seq![]
    } else if b[0] == 37 && b.len() >= 3 && hex_value(b[1]) is Some && hex_value(b[2]) is Some {
        seq![(hex_value(b[1])->0 * 16 + hex_value(b[2])->0) as u8] + percent_decode_bytes(
            b.subrange(3, b.len() as int),
        )
    } else {
        seq![b[0]] + percent_decode_bytes(b.drop_first())
    }
}

/// The bytes that percent-decoding the UTF-8 text `s` gives.
pub open spec fn decoded_bytes(s: Seq<char>) -> Seq<u8> {
    percent_decode_bytes(encode_utf8(s))
}

/// Relies on `percent_encoding::percent_decode_str` and
/// `PercentDecode::decode_utf8`: the bytes of `s` percent-decoded, then read
/// as UTF-8, which fails when they are not valid UTF-8.
#[verifier::external_body]
fn percent_decode(s: &str) -> (r: Option<String>)
    ensures
        r is Some <==> valid_utf8(decoded_bytes(s@)),
        r matches Some(d) ==> d@ == decode_utf8(decoded_bytes(s@)),
{
    percent_encoding::percent_decode_str(s).decode_utf8().ok().map(|d| d.into_owned())
}

pub open spec fn is_digit(c: char) -> bool {
    '0' <= c <= '9'
}

/// The number that a string of decimal digits spells.
pub open spec fn digits_value(s: Seq<char>) -> int
    decreases s.len(),
{
    if s.len() == 0 {
        0
    } else {
        digits_value(s.drop_last()) * 10 + (s.last() as int - '0' as int)
    }
}

pub open spec fn all_digits(s: Seq<char>) -> bool {
    s.len() > 0 && forall|i: int| 0 <= i < s.len() ==> #[trigger] is_digit(s[i])
}

/// An optional `+` and at least one decimal digit.
pub open spec fn unsigned_value(s: Seq<char>) -> Option<int> {
    let body = if s.len() > 0 && s[0] == '+' {
        s.drop_first()
    } else {
        s
    };
    if all_digits(body) {
        Some(digits_value(body))
    } else {
        None
    }
}

/// An optional `+` or `-` and at least one decimal digit.
pub open spec fn signed_value(s: Seq<char>) -> Option<int> {
    if s.len() > 0 && s[0] == '-' {
        if all_digits(s.drop_first()) {
            Some(-digits_value(s.drop_first()))
        } else {
            None
        }
    } else {
        unsigned_value(s)
    }
}

/// Relies on `<u64 as FromStr>::from_str`: an optional `+` then decimal
/// digits, within the range of `u64`.
#[verifier::external_body]
fn parse_u64(s: &str) -> (r: Option<u64>)
    ensures
        r is Some <==> (unsigned_value(s@) matches Some(n) && n <= u64::MAX),
        r matches Some(v) ==> unsigned_value(s@) == Some(v as int),
{
    s.parse::<u64>().ok()
}

/// Relies on `<usize as FromStr>::from_str`: an optional `+` then decimal
/// digits, within the range of `usize`.
#[verifier::external_body]
fn parse_usize(s: &str) -> (r: Option<usize>)
    ensures
        r is Some <==> (unsigned_value(s@) matches Some(n) && n <= usize::MAX),
        r matches Some(v) ==> unsigned_value(s@) == Some(v as int),
{
    s.parse::<usize>().ok()
}

/// Relies on `<u32 as FromStr>::from_str`: an optional `+` then decimal
/// digits, within the range of `u32`.
#[verifier::external_body]
fn parse_u32(s: &str) -> (r: Option<u32>)
    ensures
        r is Some <==> (unsigned_value(s@) matches Some(n) && n <= u32::MAX),
        r matches Some(v) ==> unsigned_value(s@) == Some(v as int),
{
    s.parse::<u32>().ok()
}

/// Relies on `<i64 as FromStr>::from_str`: an optional `+` or `-` then
/// decimal digits, within the range of `i64`.
#[verifier::external_body]
fn parse_i64(s: &str) -> (r: Option<i64>)
    ensures
        r is Some <==> (signed_value(s@) matches Some(n) && i64::MIN <= n <= i64::MAX),
        r matches Some(v) ==> signed_value(s@) == Some(v as int),
{
    s.parse::<i64>().ok()
}

/// Relies on `<i32 as FromStr>::from_str`: an optional `+` or `-` then
/// decimal digits, within the range of `i32`.
#[verifier::external_body]
fn parse_i32(s: &str) -> (r: Option<i32>)
    ensures
        r is Some <==> (signed_value(s@) matches Some(n) && i32::MIN <= n <= i32::MAX),
        r matches Some(v) ==> signed_value(s@) == Some(v as int),
{
    s.parse::<i32>().ok()
}

/// Relies on `<u8 as FromStr>::from_str`: an optional `+` then decimal
/// digits, within the range of `u8`.
#[verifier::external_body]
fn parse_u8(s: &str) -> (r: Option<u8>)
    ensures
        r is Some <==> (unsigned_value(s@) matches Some(n) && n <= u8::MAX),
        r matches Some(v) ==> unsigned_value(s@) == Some(v as int),
{
    s.parse::<u8>().ok()
}

/// Relies on `<u16 as FromStr>::from_str`: an optional `+` then decimal
/// digits, within the range of `u16`.
#[verifier::external_body]
fn parse_u16(s: &str) -> (r: Option<u16>)
    ensures
        r is Some <==> (unsigned_value(s@) matches Some(n) && n <= u16::MAX),
        r matches Some(v) ==> unsigned_value(s@) == Some(v as int),
{
    s.parse::<u16>().ok()
}

/// Relies on `<u128 as FromStr>::from_str`: an optional `+` then decimal
/// digits, within the range of `u128`.
#[verifier::external_body]
fn parse_u128(s: &str) -> (r: Option<u128>)
    ensures
        r is Some <==> (unsigned_value(s@) matches Some(n) && n <= u128::MAX),
        r matches Some(v) ==> unsigned_value(s@) == Some(v as int),
{
    s.parse::<u128>().ok()
}

/// Relies on `<isize as FromStr>::from_str`: an optional `+` or `-` then
/// decimal digits, within the range of `isize`.
#[verifier::external_body]
fn parse_isize(s: &str) -> (r: Option<isize>)
    ensures
        r is Some <==> (signed_value(s@) matches Some(n) && isize::MIN <= n <= isize::MAX),
        r matches Some(v) ==> signed_value(s@) == Some(v as int),
{
    s.parse::<isize>().ok()
}

/// Relies on `<i8 as FromStr>::from_str`: an optional `+` or `-` then
/// decimal digits, within the range of `i8`.
#[verifier::external_body]
fn parse_i8(s: &str) -> (r: Option<i8>)
    ensures
        r is Some <==> (signed_value(s@) matches Some(n) && i8::MIN <= n <= i8::MAX),
        r matches Some(v) ==> signed_value(s@) == Some(v as int),
{
    s.parse::<i8>().ok()
}

/// Relies on `<i16 as FromStr>::from_str`: an optional `+` or `-` then
/// decimal digits, within the range of `i16`.
#[verifier::external_body]
fn parse_i16(s: &str) -> (r: Option<i16>)
    ensures
        r is Some <==> (signed_value(s@) matches Some(n) && i16::MIN <= n <= i16::MAX),
        r matches Some(v) ==> signed_value(s@) == Some(v as int),
{
    s.parse::<i16>().ok()
}

/// Relies on `<i128 as FromStr>::from_str`: an optional `+` or `-` then
/// decimal digits, within the range of `i128`.
#[verifier::external_body]
fn parse_i128(s: &str) -> (r: Option<i128>)
    ensures
        r is Some <==> (signed_value(s@) matches Some(n) && i128::MIN <= n <= i128::MAX),
        r matches Some(v) ==> signed_value(s@) == Some(v as int),
{
    s.parse::<i128>().ok()
}

/// Why a captured path value could not become a parameter.
#[derive(Debug, Clone, Copy, PartialEq, Eq, Structural)]
pub enum FromPathParamError {
    /// The percent-decoded bytes are not UTF-8.
    Utf8Error,
    /// The decoded text does not spell a value of the type.
    ParseError,
}

/// A type that a captured path value turns into, after percent-decoding.
/// An implementation that does not state its behaviour promises nothing.
pub trait FromPathParam: Sized {
    /// `v` is what the raw value `s` gives.
    open spec fn param_accepts(s: Seq<char>, v: Self) -> bool {
        true
    }

    /// `e` is the error that the raw value `s` gives.
    open spec fn param_rejects(s: Seq<char>, e: FromPathParamError) -> bool {
        true
    }

    fn from_path_param(param: &str) -> (r: Result<Self, FromPathParamError>)
        ensures
            match r {
                Ok(v) => Self::param_accepts(param@, v),
                Err(e) => Self::param_rejects(param@, e),
            },
    ;
}

/// The text of a raw value after percent-decoding, when that is UTF-8.
pub open spec fn decoded_text(s: Seq<char>) -> Option<Seq<char>> {
    if valid_utf8(decoded_bytes(s)) {
        Some(decode_utf8(decoded_bytes(s)))
    } else {
        None
    }
}

pub open spec fn number_error(s: Seq<char>, value: spec_fn(Seq<char>) -> Option<int>, lo: int, hi: int) -> Option<FromPathParamError> {
    match decoded_text(s) {
        None => Some(FromPathParamError::Utf8Error),
        Some(t) => match value(t) {
            Some(n) if lo <= n <= hi => None,
            _ => Some(FromPathParamError::ParseError),
        },
    }
}

impl FromPathParam for String {
    open spec fn param_accepts(s: Seq<char>, v: String) -> bool {
        decoded_text(s) == Some(v@)
    }

    open spec fn param_rejects(s: Seq<char>, e: FromPathParamError) -> bool {
        decoded_text(s) is None && e == FromPathParamError::Utf8Error
    }

    fn from_path_param(param: &str) -> (r: Result<String, FromPathParamError>) {
        match percent_decode(param) {
            Some(d) => Ok(d),
            None => Err(FromPathParamError::Utf8Error),
        }
    }
}

impl FromPathParam for u64 {
    open spec fn param_accepts(s: Seq<char>, v: u64) -> bool {
        decoded_text(s) matches Some(t) && unsigned_value(t) == Some(v as int)
    }

    open spec fn param_rejects(s: Seq<char>, e: FromPathParamError) -> bool {
        number_error(s, |t: Seq<char>| unsigned_value(t), 0, u64::MAX as int) == Some(e)
    }

    fn from_path_param(param: &str) -> (r: Result<u64, FromPathParamError>) {
        match percent_decode(param) {
            Some(d) => match parse_u64(d.as_str()) {
                Some(v) => Ok(v),
                None => Err(FromPathParamError::ParseError),
            },
            None => Err(FromPathParamError::Utf8Error),
        }
    }
}

impl FromPathParam for usize {
    open spec fn param_accepts(s: Seq<char>, v: usize) -> bool {
        decoded_text(s) matches Some(t) && unsigned_value(t) == Some(v as int)
    }

    open spec fn param_rejects(s: Seq<char>, e: FromPathParamError) -> bool {
        number_error(s, |t: Seq<char>| unsigned_value(t), 0, usize::MAX as int) == Some(e)
    }

    fn from_path_param(param: &str) -> (r: Result<usize, FromPathParamError>) {
        match percent_decode(param) {
            Some(d) => match parse_usize(d.as_str()) {
                Some(v) => Ok(v),
                None => Err(FromPathParamError::ParseError),
            },
            None => Err(FromPathParamError::Utf8Error),
        }
    }
}

impl FromPathParam for u32 {
    open spec fn param_accepts(s: Seq<char>, v: u32) -> bool {
        decoded_text(s) matches Some(t) && unsigned_value(t) == Some(v as int)
    }

    open spec fn param_rejects(s: Seq<char>, e: FromPathParamError) -> bool {
        number_error(s, |t: Seq<char>| unsigned_value(t), 0, u32::MAX as int) == Some(e)
    }

    fn from_path_param(param: &str) -> (r: Result<u32, FromPathParamError>) {
        match percent_decode(param) {
            Some(d) => match parse_u32(d.as_str()) {
                Some(v) => Ok(v),
                None => Err(FromPathParamError::ParseError),
            },
            None => Err(FromPathParamError::Utf8Error),
        }
    }
}

impl FromPathParam for i64 {
    open spec fn param_accepts(s: Seq<char>, v: i64) -> bool {
        decoded_text(s) matches Some(t) && signed_value(t) == Some(v as int)
    }

    open spec fn param_rejects(s: Seq<char>, e: FromPathParamError) -> bool {
        number_error(s, |t: Seq<char>| signed_value(t), i64::MIN as int, i64::MAX as int) == Some(e)
    }

    fn from_path_param(param: &str) -> (r: Result<i64, FromPathParamError>) {
        match percent_decode(param) {
            Some(d) => match parse_i64(d.as_str()) {
                Some(v) => Ok(v),
                None => Err(FromPathParamError::ParseError),
            },
            None => Err(FromPathParamError::Utf8Error),
        }
    }
}

impl FromPathParam for i32 {
    open spec fn param_accepts(s: Seq<char>, v: i32) -> bool {
        decoded_text(s) matches Some(t) && signed_value(t) == Some(v as int)
    }

    open spec fn param_rejects(s: Seq<char>, e: FromPathParamError) -> bool {
        number_error(s, |t: Seq<char>| signed_value(t), i32::MIN as int, i32::MAX as int) == Some(e)
    }

    fn from_path_param(param: &str) -> (r: Result<i32, FromPathParamError>) {
        match percent_decode(param) {
            Some(d) => match parse_i32(d.as_str()) {
                Some(v) => Ok(v),
                None => Err(FromPathParamError::ParseError),
            },
            None => Err(FromPathParamError::Utf8Error),
        }
    }
}

impl FromPathParam for u8 {
    open spec fn param_accepts(s: Seq<char>, v: u8) -> bool {
        decoded_text(s) matches Some(t) && unsigned_value(t) == Some(v as int)
    }

    open spec fn param_rejects(s: Seq<char>, e: FromPathParamError) -> bool {
        number_error(s, |t: Seq<char>| unsigned_value(t), 0, u8::MAX as int) == Some(e)
    }

    fn from_path_param(param: &str) -> (r: Result<u8, FromPathParamError>) {
        match percent_decode(param) {
            Some(d) => match parse_u8(d.as_str()) {
                Some(v) => Ok(v),
                None => Err(FromPathParamError::ParseError),
            },
            None => Err(FromPathParamError::Utf8Error),
        }
    }
}

impl FromPathParam for u16 {
    open spec fn param_accepts(s: Seq<char>, v: u16) -> bool {
        decoded_text(s) matches Some(t) && unsigned_value(t) == Some(v as int)
    }

    open spec fn param_rejects(s: Seq<char>, e: FromPathParamError) -> bool {
        number_error(s, |t: Seq<char>| unsigned_value(t), 0, u16::MAX as int) == Some(e)
    }

    fn from_path_param(param: &str) -> (r: Result<u16, FromPathParamError>) {
        match percent_decode(param) {
            Some(d) => match parse_u16(d.as_str()) {
                Some(v) => Ok(v),
                None => Err(FromPathParamError::ParseError),
            },
            None => Err(FromPathParamError::Utf8Error),
        }
    }
}

impl FromPathParam for u128 {
    open spec fn param_accepts(s: Seq<char>, v: u128) -> bool {
        decoded_text(s) matches Some(t) && unsigned_value(t) == Some(v as int)
    }

    open spec fn param_rejects(s: Seq<char>, e: FromPathParamError) -> bool {
        number_error(s, |t: Seq<char>| unsigned_value(t), 0, u128::MAX as int) == Some(e)
    }

    fn from_path_param(param: &str) -> (r: Result<u128, FromPathParamError>) {
        match percent_decode(param) {
            Some(d) => match parse_u128(d.as_str()) {
                Some(v) => Ok(v),
                None => Err(FromPathParamError::ParseError),
            },
            None => Err(FromPathParamError::Utf8Error),
        }
    }
}

impl FromPathParam for isize {
    open spec fn param_accepts(s: Seq<char>, v: isize) -> bool {
        decoded_text(s) matches Some(t) && signed_value(t) == Some(v as int)
    }

    open spec fn param_rejects(s: Seq<char>, e: FromPathParamError) -> bool {
        number_error(s, |t: Seq<char>| signed_value(t), isize::MIN as int, isize::MAX as int) == Some(e)
    }

    fn from_path_param(param: &str) -> (r: Result<isize, FromPathParamError>) {
        match percent_decode(param) {
            Some(d) => match parse_isize(d.as_str()) {
                Some(v) => Ok(v),
                None => Err(FromPathParamError::ParseError),
            },
            None => Err(FromPathParamError::Utf8Error),
        }
    }
}

impl FromPathParam for i8 {
    open spec fn param_accepts(s: Seq<char>, v: i8) -> bool {
        decoded_text(s) matches Some(t) && signed_value(t) == Some(v as int)
    }

    open spec fn param_rejects(s: Seq<char>, e: FromPathParamError) -> bool {
        number_error(s, |t: Seq<char>| signed_value(t), i8::MIN as int, i8::MAX as int) == Some(e)
    }

    fn from_path_param(param: &str) -> (r: Result<i8, FromPathParamError>) {
        match percent_decode(param) {
            Some(d) => match parse_i8(d.as_str()) {
                Some(v) => Ok(v),
                None => Err(FromPathParamError::ParseError),
            },
            None => Err(FromPathParamError::Utf8Error),
        }
    }
}

impl FromPathParam for i16 {
    open spec fn param_accepts(s: Seq<char>, v: i16) -> bool {
        decoded_text(s) matches Some(t) && signed_value(t) == Some(v as int)
    }

    open spec fn param_rejects(s: Seq<char>, e: FromPathParamError) -> bool {
        number_error(s, |t: Seq<char>| signed_value(t), i16::MIN as int, i16::MAX as int) == Some(e)
    }

    fn from_path_param(param: &str) -> (r: Result<i16, FromPathParamError>) {
        match percent_decode(param) {
            Some(d) => match parse_i16(d.as_str()) {
                Some(v) => Ok(v),
                None => Err(FromPathParamError::ParseError),
            },
            None => Err(FromPathParamError::Utf8Error),
        }
    }
}

impl FromPathParam for i128 {
    open spec fn param_accepts(s: Seq<char>, v: i128) -> bool {
        decoded_text(s) matches Some(t) && signed_value(t) == Some(v as int)
    }

    open spec fn param_rejects(s: Seq<char>, e: FromPathParamError) -> bool {
        number_error(s, |t: Seq<char>| signed_value(t), i128::MIN as int, i128::MAX as int) == Some(e)
    }

    fn from_path_param(param: &str) -> (r: Result<i128, FromPathParamError>) {
        match percent_decode(param) {
            Some(d) => match parse_i128(d.as_str()) {
                Some(v) => Ok(v),
                None => Err(FromPathParamError::ParseError),
            },
            None => Err(FromPathParamError::Utf8Error),
        }
    }
}

} // verus!
