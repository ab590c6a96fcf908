//! Locating the boundaries of a token at the start of a text.
use vstd::prelude::*;

verus! {

/// Whether `c` is one of the space characters that end a token.
pub open spec fn is_separator(c: char) -> bool {
    c == '\u{0020}' || c == '\u{00A0}' || c == '\u{1680}' || c == '\u{180E}'
        || c == '\u{2000}' || c == '\u{2001}' || c == '\u{2002}' || c == '\u{2003}'
        || c == '\u{2004}' || c == '\u{2005}' || c == '\u{2006}' || c == '\u{2007}'
        || c == '\u{2008}' || c == '\u{2009}' || c == '\u{200A}' || c == '\u{200B}'
        || c == '\u{202F}' || c == '\u{205F}' || c == '\u{3000}' || c == '\u{FEFF}'
}

/// The index of the first separator in `s` at or after `i`, or `s.len()` if there is none.
pub open spec fn separator_from(s: Seq<char>, i: int) -> int
    decreases s.len() - i,
{
    if i >= s.len() {
        s.len() as int
    } else if is_separator(s[i]) {
        i
    } else {
        separator_from(s, i + 1)
    }
}

/// The length of the token at the start of `s`: everything before the first separator.
pub open spec fn token_len(s: Seq<char>) -> int {
    separator_from(s, 0)
}

/// The token at the start of `s`, if it is not empty.
pub open spec fn spec_token(s: Seq<char>) -> Option<Seq<char>> {
    if token_len(s) == 0 {
        None
    } else {
        Some(s.subrange(0, token_len(s)))
    }
}

pub proof fn lemma_separator_from(s: Seq<char>, i: int)
    requires
        0 <= i <= s.len(),
    ensures
        i <= separator_from(s, i) <= s.len(),
        forall|j: int| i <= j < separator_from(s, i) ==> !is_separator(#[trigger] s[j]),
        separator_from(s, i) < s.len() ==> is_separator(s[separator_from(s, i)]),
    decreases s.len() - i,
{
    if i < s.len() && !is_separator(s[i]) {
        lemma_separator_from(s, i + 1);
    }
}

/// Whether `c` is a separator.
pub fn is_separator_char(c: char) -> (r: bool)
    ensures
        r == is_separator(c),
{
    c == '\u{0020}' || c == '\u{00A0}' || c == '\u{1680}' || c == '\u{180E}'
        || c == '\u{2000}' || c == '\u{2001}' || c == '\u{2002}' || c == '\u{2003}'
        || c == '\u{2004}' || c == '\u{2005}' || c == '\u{2006}' || c == '\u{2007}'
        || c == '\u{2008}' || c == '\u{2009}' || c == '\u{200A}' || c == '\u{200B}'
        || c == '\u{202F}' || c == '\u{205F}' || c == '\u{3000}' || c == '\u{FEFF}'
}

/// The number of characters before the first separator in `src`.
pub fn token_length(src: &str) -> (n: usize)
    ensures
        n == token_len(src@),
{
    let len = src.unicode_len();
    let mut i: usize = 0;
    while i < len
        invariant
            len == src@.len(),
            0 <= i <= len,
            separator_from(src@, i as int) == token_len(src@),
        decreases len - i,
    {
        if is_separator_char(src.get_char(i)) {
            return i;
        }
        i += 1;
    }
    i
}

/// The token at the start of `src`: the text before its first separator.
///
/// Gives `None` where there is no token, that is where `src` is empty or
/// starts with a separator. Where `src` holds no separator, it is all token.
pub fn take_until_whitespace(src: &str) -> (r: Option<&str>)
    ensures
        r is Some <==> spec_token(src@) is Some,
        r is Some ==> r->0@ == spec_token(src@)->0,
{
    let n = token_length(src);
    if n == 0 {
        None
    } else {
        proof {
            lemma_separator_from(src@, 0);
        }
        Some(src.substring_char(0, n))
    }
}

/// Whether `c` opens a quoted token.
pub open spec fn is_quote(c: char) -> bool {
    c == '"' || c == '\''
}

/// The index of the first `c` in `s` at or after `i`, or `s.len()` if there is none.
pub open spec fn index_of_from(s: Seq<char>, c: char, i: int) -> int
    decreases s.len() - i,
{
    if i >= s.len() {
        s.len() as int
    } else if s[i] == c {
        i
    } else {
        index_of_from(s, c, i + 1)
    }
}

/// The text between the quote that opens `s` and the next one like it, if both are there.
pub open spec fn spec_quoted(s: Seq<char>) -> Option<Seq<char>> {
    if s.len() > 0 && is_quote(s[0]) && index_of_from(s, s[0], 1) < s.len() {
        Some(s.subrange(1, index_of_from(s, s[0], 1)))
    } else {
        None
    }
}

pub proof fn lemma_index_of_from(s: Seq<char>, c: char, i: int)
    requires
        0 <= i <= s.len(),
    ensures
        i <= index_of_from(s, c, i) <= s.len(),
        forall|j: int| i <= j < index_of_from(s, c, i) ==> #[trigger] s[j] != c,
        index_of_from(s, c, i) < s.len() ==> s[index_of_from(s, c, i)] == c,
    decreases s.len() - i,
{
    if i < s.len() && s[i] != c {
        lemma_index_of_from(s, c, i + 1);
    }
}

/// The inside of a quoted token at the start of `src`.
///
/// Where `src` starts with a double or a single quote, gives the text up to
/// the next quote of the same kind, both quotes left out. Gives `None` where
/// `src` does not start with a quote, or where the quote is never closed.
pub fn take_until_close_quote(src: &str) -> (r: Option<&str>)
    ensures
        r is Some <==> spec_quoted(src@) is Some,
        r is Some ==> r->0@ == spec_quoted(src@)->0,
{
    let len = src.unicode_len();
    if len == 0 {
        return None;
    }
    let quote = src.get_char(0);
    if !(quote == '"' || quote == '\'') {
        return None;
    }
    let mut i: usize = 1;
    while i < len
        invariant
            len == src@.len(),
            1 <= i <= len,
            quote == src@[0],
            is_quote(quote),
            index_of_from(src@, quote, i as int) == index_of_from(src@, quote, 1),
        decreases len - i,
    {
        if src.get_char(i) == quote {
            assert(index_of_from(src@, quote, i as int) == i);
            return Some(src.substring_char(1, i));
        }
        i += 1;
    }
    None
}

/// Whether `c` is an ASCII decimal digit.
pub open spec fn is_digit(c: char) -> bool {
    '0' <= c <= '9'
}

/// The value of the digit `c`.
pub open spec fn digit_value(c: char) -> int {
    c as int - '0' as int
}

/// The value of `s` read as decimal digits, most significant first.
pub open spec fn decimal(s: Seq<char>) -> int
    decreases s.len(),
{
    if s.len() == 0 {
        0
    } else {
        decimal(s.drop_last()) * 10 + digit_value(s.last())
    }
}

/// The number of digits in a row in `s` from index `p` on.
pub open spec fn digit_run(s: Seq<char>, p: int) -> int
    decreases s.len() - p,
{
    if p < 0 || p >= s.len() || !is_digit(s[p]) {
        0
    } else {
        1 + digit_run(s, p + 1)
    }
}

pub proof fn lemma_digit_run(s: Seq<char>, p: int)
    requires
        0 <= p,
    ensures
        0 <= digit_run(s, p),
        p + digit_run(s, p) <= s.len() || digit_run(s, p) == 0,
        forall|j: int| p <= j < p + digit_run(s, p) ==> is_digit(#[trigger] s[j]),
        p + digit_run(s, p) < s.len() ==> !is_digit(s[p + digit_run(s, p)]),
    decreases s.len() - p,
{
    if p < s.len() && is_digit(s[p]) {
        lemma_digit_run(s, p + 1);
    }
}

/// The value of `s` as digits is below `10` to the power of its length.
pub proof fn lemma_decimal_bound(s: Seq<char>)
    requires
        forall|j: int| 0 <= j < s.len() ==> is_digit(#[trigger] s[j]),
    ensures
        0 <= decimal(s) < pow10(s.len()),
    decreases s.len(),
{
    if s.len() > 0 {
        lemma_decimal_bound(s.drop_last());
    }
}

/// Ten to the power `n`.
pub open spec fn pow10(n: nat) -> int
    decreases n,
{
    if n == 0 {
        1
    } else {
        10 * pow10((n - 1) as nat)
    }
}

/// The characters of `src`, in order.
pub fn chars_of(src: &str) -> (r: Vec<char>)
    ensures
        r@ == src@,
{
    let len = src.unicode_len();
    let mut r: Vec<char> = Vec::new();
    let mut i: usize = 0;
    while i < len
        invariant
            len == src@.len(),
            i <= len,
            r@ == src@.subrange(0, i as int),
        decreases len - i,
    {
        r.push(src.get_char(i));
        i += 1;
    }
    r
}

/// The number of digits in a row in `s` from index `p` on.
pub fn digit_run_at(s: &Vec<char>, p: usize) -> (n: usize)
    ensures
        n == digit_run(s@, p as int),
{
    let mut i: usize = p;
    while i < s.len() && '0' <= s[i] && s[i] <= '9'
        invariant
            p <= i,
            i <= s@.len() || i == p,
            digit_run(s@, p as int) == (i - p) + digit_run(s@, i as int),
        decreases s@.len() - i,
    {
        i += 1;
    }
    i - p
}

/// The value of the digits `s[p..p + k]`, where there are at most four.
pub fn small_decimal_at(s: &Vec<char>, p: usize, k: usize) -> (v: u64)
    requires
        k <= 4,
        p + k <= s@.len(),
        forall|j: int| p <= j < p + k ==> is_digit(#[trigger] s@[j]),
    ensures
        v == decimal(s@.subrange(p as int, p + k)),
        v < 10000,
{
    let n = s.len();
    let mut v: u64 = 0;
    let mut i: usize = 0;
    while i < k
        invariant
            n == s@.len(),
            k <= 4,
            p + k <= s@.len(),
            i <= k,
            forall|j: int| p <= j < p + k ==> is_digit(#[trigger] s@[j]),
            v == decimal(s@.subrange(p as int, p + i)),
            v < pow10(i as nat),
        decreases k - i,
    {
        proof {
            reveal_with_fuel(pow10, 5);
            assert(s@.subrange(p as int, p + i + 1).drop_last() == s@.subrange(p as int, p + i));
        }
        assert(is_digit(s@[p + i]));
        let d = s[p + i] as u32 - '0' as u32;
        v = v * 10 + d as u64;
        i += 1;
    }
    proof {
        reveal_with_fuel(pow10, 5);
    }
    v
}

} // verus!
