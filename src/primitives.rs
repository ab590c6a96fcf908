//! Parsers for the fixed-width integers, written in decimal.
use vstd::prelude::*;

use crate::utils::{
    chars_of, decimal, is_digit, lemma_separator_from, spec_token, take_until_whitespace,
};
use crate::{Error, TypeParseResult, TypeParser};

verus! {

/// The sign that `t` starts with, if any, and the digits that follow it.
/// A `-` is a sign only where the type is signed.
pub open spec fn split_sign(t: Seq<char>, signed: bool) -> (bool, Seq<char>) {
    if t.len() > 0 && t[0] == '+' {
        (false, t.drop_first())
    } else if signed && t.len() > 0 && t[0] == '-' {
        (true, t.drop_first())
    } else {
        (false, t)
    }
}

/// Whether `t` is an optional sign followed by one or more decimal digits.
pub open spec fn well_formed_integer(t: Seq<char>, signed: bool) -> bool {
    let digits = split_sign(t, signed).1;
    digits.len() > 0 && forall|i: int| 0 <= i < digits.len() ==> is_digit(#[trigger] digits[i])
}

/// The integer that `t` denotes, where it is well formed.
pub open spec fn integer_value(t: Seq<char>, signed: bool) -> int {
    let (neg, digits) = split_sign(t, signed);
    if neg {
        -decimal(digits)
    } else {
        decimal(digits)
    }
}

/// The description of why `t` is not an integer in `lo..=hi`.
pub open spec fn integer_error_message(t: Seq<char>, signed: bool, hi: int) -> Seq<char> {
    if t.len() == 0 {
        "cannot parse integer from empty string"@
    } else if !well_formed_integer(t, signed) {
        "invalid digit found in string"@
    } else if integer_value(t, signed) > hi {
        "number too large to fit in target type"@
    } else {
        "number too small to fit in target type"@
    }
}

/// Whether `r` is what reading an integer in `lo..=hi` from the start of `s` yields.
///
/// The token before the first separator is read; the length consumed is its
/// length. Where there is no token, nothing is read at offset zero.
pub open spec fn integer_outcome(
    s: Seq<char>,
    signed: bool,
    lo: int,
    hi: int,
    r: Result<(int, usize), Error>,
) -> bool {
    match spec_token(s) {
        None => r matches Err(Error::UnexpectedToken(k)) && k == 0,
        Some(t) => if well_formed_integer(t, signed) && lo <= integer_value(t, signed) <= hi {
            r matches Ok((v, n)) && v == integer_value(t, signed) && n == t.len()
        } else {
            r matches Err(Error::InvalidFormat(msg)) && msg@ == integer_error_message(t, signed, hi)
        },
    }
}

/// `r` with its value read as a mathematical integer.
pub open spec fn widened<T>(r: TypeParseResult<T>, f: spec_fn(T) -> int) -> Result<(int, usize), Error> {
    match r {
        Ok((v, n)) => Ok((f(v), n)),
        Err(e) => Err(e),
    }
}

proof fn lemma_decimal_prefix_grows(s: Seq<char>, i: int, j: int)
    requires
        0 <= i <= j <= s.len(),
        forall|k: int| 0 <= k < s.len() ==> is_digit(#[trigger] s[k]),
    ensures
        decimal(s.subrange(0, i)) <= decimal(s.subrange(0, j)),
    decreases j - i,
{
    if i < j {
        lemma_decimal_prefix_grows(s, i, j - 1);
        assert(s.subrange(0, j).drop_last() =~= s.subrange(0, j - 1));
        crate::utils::lemma_decimal_bound(s.subrange(0, j - 1));
    }
}

/// The value of `digits`, where it is at most `bound`.
fn bounded_decimal(digits: &Vec<char>, start: usize, bound: u128) -> (r: Option<u128>)
    requires
        start <= digits@.len(),
        bound <= u64::MAX,
        forall|k: int| start <= k < digits@.len() ==> is_digit(#[trigger] digits@[k]),
    ensures
        match r {
            Some(v) => v == decimal(digits@.subrange(start as int, digits@.len() as int)) && v <= bound,
            None => decimal(digits@.subrange(start as int, digits@.len() as int)) > bound,
        },
{
    let ghost d = digits@.subrange(start as int, digits@.len() as int);
    let n = digits.len();
    let mut v: u128 = 0;
    let mut i: usize = start;
    while i < n
        invariant
            n == digits@.len(),
            start <= i <= n,
            bound <= u64::MAX,
            d == digits@.subrange(start as int, n as int),
            forall|k: int| start <= k < n ==> is_digit(#[trigger] digits@[k]),
            v == decimal(d.subrange(0, i - start)),
            v <= bound,
        decreases n - i,
    {
        proof {
            assert(d.subrange(0, i + 1 - start).drop_last() =~= d.subrange(0, i - start));
            assert(is_digit(d[i - start]));
        }
        let c = digits[i];
        v = v * 10 + (c as u32 - '0' as u32) as u128;
        i += 1;
        if v > bound {
            proof {
                lemma_decimal_prefix_grows(d, i - start, d.len() as int);
                assert(d.subrange(0, d.len() as int) =~= d);
            }
            return None;
        }
    }
    proof {
        assert(d.subrange(0, n - start) =~= d);
    }
    Some(v)
}

/// Reads an integer in `lo..=hi` from the start of `src`, as `from_str` reads one.
pub fn parse_integer(src: &str, signed: bool, lo: i128, hi: i128) -> (r: Result<(i128, usize), Error>)
    requires
        i64::MIN <= lo <= 0 < hi <= u64::MAX,
    ensures
        integer_outcome(src@, signed, lo as int, hi as int, widened(r, |v: i128| v as int)),
        r is Ok ==> r->Ok_0.1 <= src@.len(),
{
    let tok = match take_until_whitespace(src) {
        Some(t) => t,
        None => return Err(Error::UnexpectedToken(0)),
    };
    proof {
        lemma_separator_from(src@, 0);
    }
    let t = chars_of(tok);
    let n = t.len();
    if n == 0 {
        return Err(Error::InvalidFormat("cannot parse integer from empty string".to_owned()));
    }
    let mut start: usize = 0;
    let mut neg = false;
    if t[0] == '+' {
        start = 1;
    } else if signed && t[0] == '-' {
        start = 1;
        neg = true;
    }
    let ghost digits = split_sign(t@, signed).1;
    assert(digits =~= t@.subrange(start as int, n as int));
    assert(neg == split_sign(t@, signed).0);
    if start == n {
        return Err(Error::InvalidFormat("invalid digit found in string".to_owned()));
    }
    let mut i: usize = start;
    while i < n
        invariant
            n == t@.len(),
            start <= i <= n,
            digits == t@.subrange(start as int, n as int),
            digits == split_sign(t@, signed).1,
            spec_token(src@) == Some(t@),
            forall|k: int| start <= k < i ==> is_digit(#[trigger] t@[k]),
        decreases n - i,
    {
        if !('0' <= t[i] && t[i] <= '9') {
            assert(!is_digit(digits[i - start]));
            assert(!well_formed_integer(t@, signed));
            return Err(Error::InvalidFormat("invalid digit found in string".to_owned()));
        }
        i += 1;
    }
    assert(well_formed_integer(t@, signed));
    let bound: u128 = if neg {
        (-lo) as u128
    } else {
        hi as u128
    };
    match bounded_decimal(&t, start, bound) {
        Some(m) => {
            let v: i128 = if neg {
                -(m as i128)
            } else {
                m as i128
            };
            Ok((v, n))
        },
        None => {
            if neg {
                Err(Error::InvalidFormat("number too small to fit in target type".to_owned()))
            } else {
                Err(Error::InvalidFormat("number too large to fit in target type".to_owned()))
            }
        },
    }
}

/// Reads a `u8`.
pub struct U8Parser;

impl TypeParser for U8Parser {
    type Type = u8;

    type Context = ();

    open spec fn parses_as(&self, ctx: &(), src: Seq<char>, r: TypeParseResult<u8>) -> bool {
        integer_outcome(src, false, u8::MIN as int, u8::MAX as int, widened(r, |v: u8| v as int))
    }

    fn parse(&self, ctx: &(), src: &str) -> (r: TypeParseResult<u8>) {
        match parse_integer(src, false, u8::MIN as i128, u8::MAX as i128) {
            Ok((v, n)) => Ok((v as u8, n)),
            Err(e) => Err(e),
        }
    }
}

/// Reads a `u16`.
pub struct U16Parser;

impl TypeParser for U16Parser {
    type Type = u16;

    type Context = ();

    open spec fn parses_as(&self, ctx: &(), src: Seq<char>, r: TypeParseResult<u16>) -> bool {
        integer_outcome(src, false, u16::MIN as int, u16::MAX as int, widened(r, |v: u16| v as int))
    }

    fn parse(&self, ctx: &(), src: &str) -> (r: TypeParseResult<u16>) {
        match parse_integer(src, false, u16::MIN as i128, u16::MAX as i128) {
            Ok((v, n)) => Ok((v as u16, n)),
            Err(e) => Err(e),
        }
    }
}

/// Reads a `u32`.
pub struct U32Parser;

impl TypeParser for U32Parser {
    type Type = u32;

    type Context = ();

    open spec fn parses_as(&self, ctx: &(), src: Seq<char>, r: TypeParseResult<u32>) -> bool {
        integer_outcome(src, false, u32::MIN as int, u32::MAX as int, widened(r, |v: u32| v as int))
    }

    fn parse(&self, ctx: &(), src: &str) -> (r: TypeParseResult<u32>) {
        match parse_integer(src, false, u32::MIN as i128, u32::MAX as i128) {
            Ok((v, n)) => Ok((v as u32, n)),
            Err(e) => Err(e),
        }
    }
}

/// Reads a `u64`.
pub struct U64Parser;

impl TypeParser for U64Parser {
    type Type = u64;

    type Context = ();

    open spec fn parses_as(&self, ctx: &(), src: Seq<char>, r: TypeParseResult<u64>) -> bool {
        integer_outcome(src, false, u64::MIN as int, u64::MAX as int, widened(r, |v: u64| v as int))
    }

    fn parse(&self, ctx: &(), src: &str) -> (r: TypeParseResult<u64>) {
        match parse_integer(src, false, u64::MIN as i128, u64::MAX as i128) {
            Ok((v, n)) => Ok((v as u64, n)),
            Err(e) => Err(e),
        }
    }
}

/// Reads a `i8`.
pub struct I8Parser;

impl TypeParser for I8Parser {
    type Type = i8;

    type Context = ();

    open spec fn parses_as(&self, ctx: &(), src: Seq<char>, r: TypeParseResult<i8>) -> bool {
        integer_outcome(src, true, i8::MIN as int, i8::MAX as int, widened(r, |v: i8| v as int))
    }

    fn parse(&self, ctx: &(), src: &str) -> (r: TypeParseResult<i8>) {
        match parse_integer(src, true, i8::MIN as i128, i8::MAX as i128) {
            Ok((v, n)) => Ok((v as i8, n)),
            Err(e) => Err(e),
        }
    }
}

/// Reads a `i16`.
pub struct I16Parser;

impl TypeParser for I16Parser {
    type Type = i16;

    type Context = ();

    open spec fn parses_as(&self, ctx: &(), src: Seq<char>, r: TypeParseResult<i16>) -> bool {
        integer_outcome(src, true, i16::MIN as int, i16::MAX as int, widened(r, |v: i16| v as int))
    }

    fn parse(&self, ctx: &(), src: &str) -> (r: TypeParseResult<i16>) {
        match parse_integer(src, true, i16::MIN as i128, i16::MAX as i128) {
            Ok((v, n)) => Ok((v as i16, n)),
            Err(e) => Err(e),
        }
    }
}

/// Reads a `i32`.
pub struct I32Parser;

impl TypeParser for I32Parser {
    type Type = i32;

    type Context = ();

    open spec fn parses_as(&self, ctx: &(), src: Seq<char>, r: TypeParseResult<i32>) -> bool {
        integer_outcome(src, true, i32::MIN as int, i32::MAX as int, widened(r, |v: i32| v as int))
    }

    fn parse(&self, ctx: &(), src: &str) -> (r: TypeParseResult<i32>) {
        match parse_integer(src, true, i32::MIN as i128, i32::MAX as i128) {
            Ok((v, n)) => Ok((v as i32, n)),
            Err(e) => Err(e),
        }
    }
}

/// Reads a `i64`.
pub struct I64Parser;

impl TypeParser for I64Parser {
    type Type = i64;

    type Context = ();

    open spec fn parses_as(&self, ctx: &(), src: Seq<char>, r: TypeParseResult<i64>) -> bool {
        integer_outcome(src, true, i64::MIN as int, i64::MAX as int, widened(r, |v: i64| v as int))
    }

    fn parse(&self, ctx: &(), src: &str) -> (r: TypeParseResult<i64>) {
        match parse_integer(src, true, i64::MIN as i128, i64::MAX as i128) {
            Ok((v, n)) => Ok((v as i64, n)),
            Err(e) => Err(e),
        }
    }
}

} // verus!
