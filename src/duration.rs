//! Durations, written either on a clock face (`1:02:03.456`) or as a run of
//! numbers with units (`5m10s`).
use vstd::prelude::*;

use crate::utils::{
    chars_of, decimal, digit_run, digit_run_at, lemma_digit_run, small_decimal_at,
};
use crate::{Error, TypeParseResult, TypeParser};

verus! {

pub const NANOS_PER_MILLI: u128 = 1_000_000;

pub const NANOS_PER_SEC: u128 = 1_000_000_000;

pub const NANOS_PER_MIN: u128 = 60_000_000_000;

pub const NANOS_PER_HOUR: u128 = 3_600_000_000_000;

pub const NANOS_PER_DAY: u128 = 86_400_000_000_000;

pub const NANOS_PER_WEEK: u128 = 604_800_000_000_000;

/// A month counts as thirty days.
pub const NANOS_PER_MONTH: u128 = 2_592_000_000_000_000;

/// A year counts as twelve months of thirty days.
pub const NANOS_PER_YEAR: u128 = 31_104_000_000_000_000;

/// The longest duration there is: `u64::MAX` seconds and 999,999,999 nanoseconds.
pub const MAX_NANOS: u128 = 18_446_744_073_709_551_615_999_999_999;

/// A span of time, in whole seconds and the nanoseconds beyond them.
#[derive(Clone, Copy, Debug, PartialEq, Eq, Structural)]
pub struct Duration {
    pub secs: u64,
    pub nanos: u32,
}

impl Duration {
    /// The nanoseconds part stays below one second.
    pub open spec fn wf(self) -> bool {
        self.nanos < NANOS_PER_SEC
    }

    /// The whole span in nanoseconds.
    pub open spec fn total_nanos(self) -> int {
        self.secs * NANOS_PER_SEC + self.nanos
    }

    /// The duration of `n` nanoseconds.
    pub fn from_nanos(n: u128) -> (d: Duration)
        requires
            n <= MAX_NANOS,
        ensures
            d.wf(),
            d.total_nanos() == n,
    {
        Duration { secs: (n / NANOS_PER_SEC) as u64, nanos: (n % NANOS_PER_SEC) as u32 }
    }

    /// The whole span in nanoseconds.
    pub fn as_nanos(&self) -> (n: u128)
        requires
            self.wf(),
        ensures
            n == self.total_nanos(),
    {
        self.secs as u128 * NANOS_PER_SEC + self.nanos as u128
    }
}

/// The value of the `k` digits of `s` from index `p` on; zero where `k` is zero.
pub open spec fn number_at(s: Seq<char>, p: int, k: int) -> int {
    if k <= 0 {
        0
    } else {
        decimal(s.subrange(p, p + k))
    }
}

pub open spec fn at_most(a: int, b: int) -> int {
    if a < b {
        a
    } else {
        b
    }
}

/// `MINUTE:SECOND` with an optional `.FRACTION`, from index `q` of `s`: the
/// length of the match and its value in nanoseconds. The minutes take one or two
/// digits, the seconds the first one or two, the fraction the first one to three,
/// counted as milliseconds.
pub open spec fn clock_tail(s: Seq<char>, q: int) -> Option<(int, int)> {
    let m = digit_run(s, q);
    let sq = q + m + 1;
    let sd = at_most(digit_run(s, sq), 2);
    let e = sq + sd;
    let f = if e < s.len() && s[e] == '.' {
        at_most(digit_run(s, e + 1), 3)
    } else {
        0
    };
    let flen = if f > 0 {
        f + 1
    } else {
        0
    };
    if 1 <= m <= 2 && q + m < s.len() && s[q + m] == ':' && sd >= 1 {
        Some(
            (
                m + 1 + sd + flen,
                number_at(s, q, m) * NANOS_PER_MIN + number_at(s, sq, sd) * NANOS_PER_SEC
                    + number_at(s, e + 1, f) * NANOS_PER_MILLI,
            ),
        )
    } else {
        None
    }
}

/// The clock form matched at index `p` of `s`: an optional `HOUR:` of one to four
/// digits, then `clock_tail`. The form with hours is preferred.
pub open spec fn clock_at(s: Seq<char>, p: int) -> Option<(int, int)> {
    let h = digit_run(s, p);
    if 1 <= h <= 4 && p + h < s.len() && s[p + h] == ':' && clock_tail(s, p + h + 1) is Some {
        let (l, v) = clock_tail(s, p + h + 1)->0;
        Some((h + 1 + l, number_at(s, p, h) * NANOS_PER_HOUR + v))
    } else {
        clock_tail(s, p)
    }
}

/// The first clock form in `s` at or after index `p`.
pub open spec fn first_clock(s: Seq<char>, p: int) -> Option<(int, int)>
    decreases s.len() - p,
{
    if p < 0 || p >= s.len() {
        None
    } else if clock_at(s, p) is Some {
        clock_at(s, p)
    } else {
        first_clock(s, p + 1)
    }
}

/// The unit at index `q` of `s`: its length and nanoseconds per unit.
pub open spec fn unit_at(s: Seq<char>, q: int) -> Option<(int, int)> {
    if q < 0 || q >= s.len() {
        None
    } else if s[q] == 'm' && q + 1 < s.len() && s[q + 1] == 's' {
        Some((2, NANOS_PER_MILLI as int))
    } else if s[q] == 'n' && q + 1 < s.len() && s[q + 1] == 's' {
        Some((2, 1))
    } else if s[q] == 'y' {
        Some((1, NANOS_PER_YEAR as int))
    } else if s[q] == 'M' {
        Some((1, NANOS_PER_MONTH as int))
    } else if s[q] == 'w' {
        Some((1, NANOS_PER_WEEK as int))
    } else if s[q] == 'd' {
        Some((1, NANOS_PER_DAY as int))
    } else if s[q] == 'h' {
        Some((1, NANOS_PER_HOUR as int))
    } else if s[q] == 'm' {
        Some((1, NANOS_PER_MIN as int))
    } else if s[q] == 's' {
        Some((1, NANOS_PER_SEC as int))
    } else {
        None
    }
}

/// A number of one to four digits followed by a unit, matched at index `p` of
/// `s`: the length of the match and its value in nanoseconds.
pub open spec fn unit_term_at(s: Seq<char>, p: int) -> Option<(int, int)> {
    let d = digit_run(s, p);
    if 1 <= d <= 4 && unit_at(s, p + d) is Some {
        let (ul, per) = unit_at(s, p + d)->0;
        Some((d + ul, number_at(s, p, d) * per))
    } else {
        None
    }
}

/// The first number with a unit in `s` at or after index `p`: where it starts,
/// its length and its value.
pub open spec fn next_unit_term(s: Seq<char>, p: int) -> Option<(int, int, int)>
    decreases s.len() - p,
{
    if p < 0 || p >= s.len() {
        None
    } else if unit_term_at(s, p) is Some {
        let (l, v) = unit_term_at(s, p)->0;
        Some((p, l, v))
    } else {
        next_unit_term(s, p + 1)
    }
}

/// Every number with a unit in `s` from index `p` on, each searched for where
/// the one before ends: the length and value of each.
pub open spec fn unit_terms(s: Seq<char>, p: int) -> Seq<(int, int)>
    decreases s.len() - p,
{
    match next_unit_term(s, p) {
        Some((start, l, v)) => if p <= start && 0 < l && start + l <= s.len() {
            seq![(l, v)] + unit_terms(s, start + l)
        } else {
            Seq::empty()
        },
        None => Seq::empty(),
    }
}

/// The sum of the values in `terms`.
pub open spec fn sum_values(terms: Seq<(int, int)>) -> int
    decreases terms.len(),
{
    if terms.len() == 0 {
        0
    } else {
        sum_values(terms.drop_last()) + terms.last().1
    }
}

/// What the unit form adds up to: every term but the first counts.
pub open spec fn unit_form_total(terms: Seq<(int, int)>) -> int {
    if terms.len() <= 1 {
        0
    } else {
        sum_values(terms.drop_first())
    }
}

/// Whether `r` is what parsing `s` as a duration yields.
///
/// The clock form is tried first, anywhere in `s`; the length consumed is that
/// of the match. Otherwise the unit form: the first term found is passed over
/// and the others are added up, and the length consumed is that of the last
/// term. Where that leaves no term, or where the sum exceeds the longest
/// duration, the text is refused.
pub open spec fn duration_outcome(s: Seq<char>, r: TypeParseResult<Duration>) -> bool {
    match first_clock(s, 0) {
        Some((l, v)) => r matches Ok((d, n)) && d.wf() && d.total_nanos() == v && n == l,
        None => {
            let terms = unit_terms(s, 0);
            if terms.len() < 2 {
                r matches Err(Error::InvalidFormat(msg)) && msg@ == "unable to process duration"@
            } else if unit_form_total(terms) > MAX_NANOS {
                r matches Err(Error::InvalidFormat(msg)) && msg@ == "duration out of range"@
            } else {
                r matches Ok((d, n)) && d.wf() && d.total_nanos() == unit_form_total(terms) && n
                    == terms.last().0
            }
        },
    }
}

/// Whether the match `r` found in `s` is the match `o` of a spec function.
pub open spec fn same_match(r: Option<(usize, u128)>, o: Option<(int, int)>) -> bool {
    match r {
        Some((l, v)) => o == Some((l as int, v as int)),
        None => o is None,
    }
}

fn clock_tail_at(s: &Vec<char>, q: usize) -> (r: Option<(usize, u128)>)
    requires
        q <= s@.len(),
    ensures
        same_match(r, clock_tail(s@, q as int)),
        r matches Some((l, v)) ==> q + l <= s@.len() && v < 10_000_000_000_000,
{
    let n = s.len();
    let m = digit_run_at(s, q);
    proof {
        lemma_digit_run(s@, q as int);
    }
    if !(1 <= m && m <= 2 && q + m < n && s[q + m] == ':') {
        return None;
    }
    let sq = q + m + 1;
    let run = digit_run_at(s, sq);
    proof {
        lemma_digit_run(s@, sq as int);
    }
    let sd = if run < 2 {
        run
    } else {
        2
    };
    if sd < 1 {
        return None;
    }
    let e = sq + sd;
    let mut f: usize = 0;
    if e < n && s[e] == '.' {
        let fr = digit_run_at(s, e + 1);
        proof {
            lemma_digit_run(s@, e + 1);
        }
        f = if fr < 3 {
            fr
        } else {
            3
        };
    }
    let flen = if f > 0 {
        f + 1
    } else {
        0
    };
    let mins = small_decimal_at(s, q, m);
    let secs = small_decimal_at(s, sq, sd);
    let millis = if f > 0 {
        small_decimal_at(s, e + 1, f)
    } else {
        0
    };
    assert(mins < 100 && secs < 100 && millis < 1000) by {
        crate::utils::lemma_decimal_bound(s@.subrange(q as int, q + m));
        crate::utils::lemma_decimal_bound(s@.subrange(sq as int, sq + sd));
        if f > 0 {
            crate::utils::lemma_decimal_bound(s@.subrange(e + 1, e + 1 + f));
        }
        reveal_with_fuel(crate::utils::pow10, 4);
    }
    Some(
        (
            m + 1 + sd + flen,
            mins as u128 * NANOS_PER_MIN + secs as u128 * NANOS_PER_SEC + millis as u128
                * NANOS_PER_MILLI,
        ),
    )
}

fn clock_at_index(s: &Vec<char>, p: usize) -> (r: Option<(usize, u128)>)
    requires
        p <= s@.len(),
    ensures
        same_match(r, clock_at(s@, p as int)),
        r matches Some((l, v)) ==> p + l <= s@.len() && v <= 100_000_000_000_000_000,
{
    let n = s.len();
    let h = digit_run_at(s, p);
    proof {
        lemma_digit_run(s@, p as int);
    }
    if 1 <= h && h <= 4 && p + h < n && s[p + h] == ':' {
        if let Some((l, v)) = clock_tail_at(s, p + h + 1) {
            let hours = small_decimal_at(s, p, h);
            return Some((h + 1 + l, hours as u128 * NANOS_PER_HOUR + v));
        }
    }
    clock_tail_at(s, p)
}

fn first_clock_in(s: &Vec<char>) -> (r: Option<(usize, u128)>)
    ensures
        same_match(r, first_clock(s@, 0)),
        r matches Some((l, v)) ==> l <= s@.len() && v <= 100_000_000_000_000_000,
{
    let mut p: usize = 0;
    while p < s.len()
        invariant
            p <= s@.len(),
            first_clock(s@, p as int) == first_clock(s@, 0),
        decreases s@.len() - p,
    {
        if let Some((l, v)) = clock_at_index(s, p) {
            return Some((l, v));
        }
        p += 1;
    }
    None
}

fn unit_at_index(s: &Vec<char>, q: usize) -> (r: Option<(usize, u128)>)
    ensures
        same_match(r, unit_at(s@, q as int)),
        r matches Some((l, per)) ==> 1 <= l <= 2 && q + l <= s@.len() && per <= NANOS_PER_YEAR,
{
    let n = s.len();
    if q >= n {
        return None;
    }
    let c = s[q];
    if c == 'm' && q + 1 < n && s[q + 1] == 's' {
        Some((2, NANOS_PER_MILLI))
    } else if c == 'n' && q + 1 < n && s[q + 1] == 's' {
        Some((2, 1))
    } else if c == 'y' {
        Some((1, NANOS_PER_YEAR))
    } else if c == 'M' {
        Some((1, NANOS_PER_MONTH))
    } else if c == 'w' {
        Some((1, NANOS_PER_WEEK))
    } else if c == 'd' {
        Some((1, NANOS_PER_DAY))
    } else if c == 'h' {
        Some((1, NANOS_PER_HOUR))
    } else if c == 'm' {
        Some((1, NANOS_PER_MIN))
    } else if c == 's' {
        Some((1, NANOS_PER_SEC))
    } else {
        None
    }
}

fn unit_term_at_index(s: &Vec<char>, p: usize) -> (r: Option<(usize, u128)>)
    requires
        p <= s@.len(),
    ensures
        same_match(r, unit_term_at(s@, p as int)),
        r matches Some((l, v)) ==> 0 < l && p + l <= s@.len() && v <= 10000 * NANOS_PER_YEAR,
{
    let n = s.len();
    let d = digit_run_at(s, p);
    proof {
        lemma_digit_run(s@, p as int);
    }
    if !(1 <= d && d <= 4) {
        return None;
    }
    match unit_at_index(s, p + d) {
        Some((ul, per)) => {
            let k = small_decimal_at(s, p, d);
            assert(k * per <= 10000 * NANOS_PER_YEAR) by (nonlinear_arith)
                requires
                    k < 10000,
                    per <= NANOS_PER_YEAR,
            ;
            Some((d + ul, k as u128 * per))
        },
        None => None,
    }
}

fn next_unit_term_from(s: &Vec<char>, from: usize) -> (r: Option<(usize, usize, u128)>)
    requires
        from <= s@.len(),
    ensures
        match r {
            Some((p, l, v)) => next_unit_term(s@, from as int) == Some((p as int, l as int, v as int))
                && from <= p && 0 < l && p + l <= s@.len() && v <= 10000 * NANOS_PER_YEAR,
            None => next_unit_term(s@, from as int) is None,
        },
{
    let mut p: usize = from;
    while p < s.len()
        invariant
            from <= p <= s@.len(),
            next_unit_term(s@, p as int) == next_unit_term(s@, from as int),
        decreases s@.len() - p,
    {
        if let Some((l, v)) = unit_term_at_index(s, p) {
            return Some((p, l, v));
        }
        p += 1;
    }
    None
}

/// Reads a duration in either form.
pub struct DurationParser;

impl TypeParser for DurationParser {
    type Type = Duration;

    type Context = ();

    open spec fn parses_as(&self, ctx: &(), src: Seq<char>, r: TypeParseResult<Duration>) -> bool {
        duration_outcome(src, r)
    }

    fn parse(&self, ctx: &(), src: &str) -> (r: TypeParseResult<Duration>) {
        let s = chars_of(src);
        if let Some((l, v)) = first_clock_in(&s) {
            return Ok((Duration::from_nanos(v), l));
        }
        let mut pos: usize = 0;
        let mut count: usize = 0;
        let mut total: u128 = 0;
        let mut end: usize = 0;
        let ghost mut done: Seq<(int, int)> = Seq::empty();
        loop
            invariant
                pos <= s@.len(),
                s@ == src@,
                first_clock(s@, 0) is None,
                unit_terms(s@, 0) == done + unit_terms(s@, pos as int),
                count == at_most(done.len() as int, 2),
                done.len() > 0 ==> end == done.last().0 && end <= s@.len(),
                total == at_most(unit_form_total(done), MAX_NANOS + 1),
            ensures
                unit_terms(s@, pos as int) == Seq::<(int, int)>::empty(),
            decreases s@.len() - pos,
        {
            match next_unit_term_from(&s, pos) {
                None => {
                    break;
                },
                Some((p, l, v)) => {
                    let ghost old_done = done;
                    proof {
                        done = done.push((l as int, v as int));
                        assert(unit_terms(s@, pos as int) == seq![(l as int, v as int)]
                            + unit_terms(s@, p + l));
                        assert(done + unit_terms(s@, p + l) =~= old_done + (seq![
                            (l as int, v as int),
                        ] + unit_terms(s@, p + l)));
                        if old_done.len() >= 1 {
                            assert(done.drop_first().drop_last() =~= old_done.drop_first());
                            assert(done.drop_first().last() == (l as int, v as int));
                            assert(sum_values(done.drop_first()) == sum_values(
                                done.drop_first().drop_last(),
                            ) + done.drop_first().last().1);
                            if old_done.len() == 1 {
                                assert(sum_values(old_done.drop_first()) == 0);
                            }
                            assert(unit_form_total(done) == unit_form_total(old_done) + v);
                        } else {
                            assert(unit_form_total(done) == 0);
                        }
                    }
                    if count > 0 {
                        total = total + v;
                        if total > MAX_NANOS {
                            total = MAX_NANOS + 1;
                        }
                    }
                    if count < 2 {
                        count += 1;
                    }
                    end = l;
                    pos = p + l;
                },
            }
        }
        proof {
            assert(done =~= unit_terms(s@, 0));
        }
        if count < 2 {
            Err(Error::InvalidFormat("unable to process duration".to_owned()))
        } else if total > MAX_NANOS {
            Err(Error::InvalidFormat("duration out of range".to_owned()))
        } else {
            Ok((Duration::from_nanos(total), end))
        }
    }
}

} // verus!
