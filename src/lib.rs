//! Typed value parsers for sequential text tokens, as found on a command line.
//!
//! A parser takes the text that is left on a line and reads one value from its
//! start, reporting how many characters it consumed so that a caller can move
//! on to the next token. Lengths and offsets are counted in characters.
use vstd::prelude::*;

pub mod duration;
pub mod network;
pub mod primitives;
pub mod registry;
pub mod text;
pub mod utils;

verus! {

/// Why a parser could not read a value.
#[derive(Clone, Debug, PartialEq, Eq)]
pub enum Error {
    /// A token was found, but it does not denote a value of the expected type.
    InvalidFormat(String),
    /// No token could be found at the given character offset.
    UnexpectedToken(usize),
    /// A failure that the other variants do not classify, with its description.
    Other(String),
}

/// A value and the number of characters that were consumed to read it.
pub type TypeParseResult<T> = Result<(T, usize), Error>;

/// A parser for values of one type, read from the start of a text.
///
/// `Context` is configuration handed to every call; `()` where none is needed.
pub trait TypeParser {
    type Type;

    type Context;

    /// Whether `r` is what parsing `src` in `ctx` yields.
    spec fn parses_as(
        &self,
        ctx: &Self::Context,
        src: Seq<char>,
        r: TypeParseResult<Self::Type>,
    ) -> bool;

    /// Reads one value from the start of `src`. On success the number of
    /// characters consumed never exceeds the length of `src`.
    fn parse(&self, ctx: &Self::Context, src: &str) -> (r: TypeParseResult<Self::Type>)
        ensures
            self.parses_as(ctx, src@, r),
            r is Ok ==> r->Ok_0.1 <= src@.len(),
    ;
}

} // verus!
