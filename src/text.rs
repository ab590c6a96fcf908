//! A parser for strings, quoted or not.
use vstd::prelude::*;

use crate::utils::{
    lemma_index_of_from, lemma_separator_from, spec_quoted, spec_token, take_until_close_quote,
    take_until_whitespace,
};
use crate::{Error, TypeParseResult, TypeParser};

verus! {

/// Whether `r` is what reading a string from the start of `s` yields.
///
/// A quoted string gives what stands between its quotes, and the length consumed
/// is the length of that text alone: the two quotes are not counted. Otherwise
/// the token before the first separator is read.
pub open spec fn string_outcome(s: Seq<char>, r: TypeParseResult<String>) -> bool {
    match spec_quoted(s) {
        Some(q) => r matches Ok((v, n)) && v@ == q && n == q.len(),
        None => match spec_token(s) {
            Some(t) => r matches Ok((v, n)) && v@ == t && n == t.len(),
            None => r matches Err(Error::UnexpectedToken(k)) && k == 0,
        },
    }
}

/// Reads a string: the inside of a quoted token, or else a bare token.
pub struct StringParser;

impl TypeParser for StringParser {
    type Type = String;

    type Context = ();

    open spec fn parses_as(&self, ctx: &(), src: Seq<char>, r: TypeParseResult<String>) -> bool {
        string_outcome(src, r)
    }

    fn parse(&self, ctx: &(), src: &str) -> (r: TypeParseResult<String>) {
        proof {
            lemma_separator_from(src@, 0);
            if src@.len() > 0 {
                lemma_index_of_from(src@, src@[0], 1);
            }
        }
        if let Some(q) = take_until_close_quote(src) {
            let n = q.unicode_len();
            return Ok((q.to_owned(), n));
        }
        match take_until_whitespace(src) {
            Some(t) => {
                let n = t.unicode_len();
                Ok((t.to_owned(), n))
            },
            None => Err(Error::UnexpectedToken(0)),
        }
    }
}

} // verus!
