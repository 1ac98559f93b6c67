//! Numerals as the pages write them: unsigned decimal integers, and the
//! decimal notation of a physical reading.

use vstd::prelude::*;
use crate::text::{same_ignoring_case, range_equals_ignoring_case};

verus! {

/// One of `0` to `9`.
pub open spec fn is_digit(c: char) -> bool {
    0x30 <= c as u32 <= 0x39
}

/// Every character is a decimal digit.
pub open spec fn all_digits(s: Seq<char>) -> bool {
    forall|i: int| 0 <= i < s.len() ==> is_digit(#[trigger] s[i])
}

/// The number that a run of decimal digits spells.
pub open spec fn decimal_value(s: Seq<char>) -> int
    decreases s.len(),
{
    if s.len() == 0 {
        0
    } else {
        10 * decimal_value(s.drop_last()) + (s.last() as u32 - 0x30)
    }
}

/// The text without one leading `+`.
pub open spec fn without_plus(s: Seq<char>) -> Seq<char> {
    if s.len() > 0 && s[0] == '+' {
        s.skip(1)
    } else {
        s
    }
}

/// The unsigned integer that `s` spells, if it is one and is at most `max`:
/// an optional `+`, then one or more decimal digits and nothing else.
pub open spec fn parse_unsigned(s: Seq<char>, max: int) -> Option<int> {
    let digits = without_plus(s);
    if digits.len() > 0 && all_digits(digits) && decimal_value(digits) <= max {
        Some(decimal_value(digits))
    } else {
        None
    }
}

/// The unsigned 64-bit integer that `s` spells, if it is one.
pub open spec fn u64_in(s: Seq<char>) -> Option<u64> {
    match parse_unsigned(s, u64::MAX as int) {
        Some(n) => Some(n as u64),
        None => None,
    }
}

/// The unsigned 32-bit integer that `s` spells, if it is one.
pub open spec fn u32_in(s: Seq<char>) -> Option<u32> {
    match parse_unsigned(s, u32::MAX as int) {
        Some(n) => Some(n as u32),
        None => None,
    }
}

/// The number in the first of the candidates that is there and spells an
/// unsigned 64-bit integer.
pub open spec fn first_u64_in(candidates: Seq<Option<Seq<char>>>) -> Option<u64>
    decreases candidates.len(),
{
    if candidates.len() == 0 {
        None
    } else {
        match candidates[0] {
            Some(text) if u64_in(text) is Some => u64_in(text),
            _ => first_u64_in(candidates.drop_first()),
        }
    }
}

/// A run of digits spells at least what any of its prefixes spells.
pub proof fn lemma_decimal_value_grows(s: Seq<char>, k: int)
    requires
        all_digits(s),
        0 <= k <= s.len(),
    ensures
        0 <= decimal_value(s.take(k)) <= decimal_value(s),
    decreases s.len() - k,
{
    lemma_decimal_value_nonnegative(s.take(k));
    if k == s.len() {
        assert(s.take(k) == s);
    } else {
        lemma_decimal_value_grows(s, k + 1);
        let longer = s.take(k + 1);
        assert(longer.drop_last() == s.take(k));
        assert(is_digit(longer[k]));
    }
}

/// A run of digits spells no negative number.
pub proof fn lemma_decimal_value_nonnegative(s: Seq<char>)
    requires
        all_digits(s),
    ensures
        0 <= decimal_value(s),
    decreases s.len(),
{
    if s.len() > 0 {
        assert(is_digit(s[s.len() - 1]));
        lemma_decimal_value_nonnegative(s.drop_last());
    }
}

/// Whether `c` is one of `0` to `9`.
pub fn is_digit_char(c: char) -> (r: bool)
    ensures
        r == is_digit(c),
{
    let u: u32 = c as u32;
    0x30 <= u && u <= 0x39
}

/// The unsigned 64-bit integer that `v` spells, if it is one.
pub(crate) fn parse_u64_chars(v: &Vec<char>) -> (r: Option<u64>)
    ensures
        r == u64_in(v@),
{
    let start: usize = if v.len() > 0 && v[0] == '+' {
        1
    } else {
        0
    };
    let ghost digits = without_plus(v@);
    proof {
        assert(digits == v@.skip(start as int));
    }
    if start == v.len() {
        return None;
    }
    let mut acc: u64 = 0;
    let mut i: usize = start;
    proof {
        assert(digits.take(0) == Seq::<char>::empty());
    }
    while i < v.len()
        invariant
            start <= i <= v.len(),
            digits == v@.skip(start as int),
            digits == without_plus(v@),
            all_digits(digits.take(i - start)),
            acc == decimal_value(digits.take(i - start)),
        decreases v.len() - i,
    {
        let c = v[i];
        let ghost seen = digits.take(i - start);
        let ghost next = digits.take(i - start + 1);
        proof {
            assert(next.drop_last() == seen);
            assert(next.last() == c);
        }
        if !is_digit_char(c) {
            proof {
                assert(!is_digit(digits[i - start]));
            }
            return None;
        }
        let d: u64 = (c as u32 - 0x30) as u64;
        if acc > (u64::MAX - d) / 10 {
            proof {
                assert(decimal_value(next) > u64::MAX);
                if all_digits(digits) {
                    lemma_decimal_value_grows(digits, i - start + 1);
                }
            }
            return None;
        }
        acc = acc * 10 + d;
        proof {
            assert forall|j: int| 0 <= j < next.len() implies is_digit(#[trigger] next[j]) by {
                if j < seen.len() {
                    assert(next[j] == seen[j]);
                }
            }
        }
        i += 1;
    }
    proof {
        assert(digits.take(i - start) == digits);
    }
    Some(acc)
}

/// The unsigned 64-bit integer that `s` spells, if it is one.
pub fn parse_u64(s: &str) -> (r: Option<u64>)
    ensures
        r == u64_in(s@),
{
    let v = crate::text::chars_of(s);
    parse_u64_chars(&v)
}

/// The unsigned 32-bit integer that `s` spells, if it is one.
pub fn parse_u32(s: &str) -> (r: Option<u32>)
    ensures
        r == u32_in(s@),
{
    proof {
        if all_digits(without_plus(s@)) {
            lemma_decimal_value_nonnegative(without_plus(s@));
        }
    }
    match parse_u64(s) {
        Some(n) => {
            if n <= 0xffff_ffff {
                Some(n as u32)
            } else {
                None
            }
        },
        None => None,
    }
}

/// The number in the first of the candidates that is there and spells an
/// unsigned 64-bit integer.
pub fn first_parsed_u64(candidates: &Vec<Option<String>>) -> (r: Option<u64>)
    ensures
        r == first_u64_in(candidates.deep_view()),
{
    let ghost all = candidates.deep_view();
    let mut i: usize = 0;
    proof {
        assert(all.skip(0) == all);
    }
    while i < candidates.len()
        invariant
            i <= candidates.len(),
            all == candidates.deep_view(),
            first_u64_in(all) == first_u64_in(all.skip(i as int)),
        decreases candidates.len() - i,
    {
        proof {
            let rest = all.skip(i as int);
            assert(rest[0] == candidates@[i as int].deep_view());
            assert(rest.drop_first() == all.skip(i + 1));
        }
        match &candidates[i] {
            Some(text) => {
                let n = parse_u64(text.as_str());
                if n.is_some() {
                    return n;
                }
            },
            None => {},
        }
        i += 1;
    }
    None
}

// ---------------------------------------------------------------------------
// Readings

/// How many decimal digits stand at the head of `s`.
pub open spec fn digit_run(s: Seq<char>) -> int
    decreases s.len(),
{
    if s.len() > 0 && is_digit(s[0]) {
        1 + digit_run(s.drop_first())
    } else {
        0
    }
}

/// The text without one leading `+` or `-`.
pub open spec fn without_sign(s: Seq<char>) -> Seq<char> {
    if s.len() > 0 && (s[0] == '+' || s[0] == '-') {
        s.skip(1)
    } else {
        s
    }
}

/// An exponent: `e` or `E`, an optional sign, one or more digits.
pub open spec fn is_exponent(s: Seq<char>) -> bool {
    &&& s.len() > 0
    &&& (s[0] == 'e' || s[0] == 'E')
    &&& without_sign(s.skip(1)).len() > 0
    &&& all_digits(without_sign(s.skip(1)))
}

/// An unsigned decimal number: digits with an optional point among them, at
/// least one digit before or behind it, and an optional exponent.
pub open spec fn is_decimal_number(s: Seq<char>) -> bool {
    let whole = digit_run(s);
    let after = s.skip(whole);
    if after.len() > 0 && after[0] == '.' {
        let fraction = digit_run(after.skip(1));
        let tail = after.skip(1 + fraction);
        whole + fraction > 0 && (tail.len() == 0 || is_exponent(tail))
    } else {
        whole > 0 && (after.len() == 0 || is_exponent(after))
    }
}

/// One of the three words for a value that is no finite number, in any case.
pub open spec fn is_special_value(s: Seq<char>) -> bool {
    ||| same_ignoring_case(s, "inf"@)
    ||| same_ignoring_case(s, "infinity"@)
    ||| same_ignoring_case(s, "nan"@)
}

/// The text is the decimal notation of a reading: an optional sign, then a
/// decimal number or one of the special words. This is the notation from
/// which a double-precision value can be read without error.
pub open spec fn is_reading(s: Seq<char>) -> bool {
    is_special_value(without_sign(s)) || is_decimal_number(without_sign(s))
}

/// The digits counted by `digit_run` are digits, they fit in the text, and
/// the character behind them, if there is one, is none.
pub proof fn lemma_digit_run(s: Seq<char>)
    ensures
        0 <= digit_run(s) <= s.len(),
        all_digits(s.take(digit_run(s))),
        digit_run(s) < s.len() ==> !is_digit(s[digit_run(s)]),
        digit_run(s) == s.len() <==> all_digits(s),
    decreases s.len(),
{
    if s.len() > 0 && is_digit(s[0]) {
        let rest = s.drop_first();
        lemma_digit_run(rest);
        let n = digit_run(s);
        assert forall|i: int| 0 <= i < n implies is_digit(#[trigger] s.take(n)[i]) by {
            if i > 0 {
                assert(rest.take(n - 1)[i - 1] == s.take(n)[i]);
            }
        }
        if n < s.len() {
            assert(s[n] == rest[n - 1]);
        }
        if all_digits(s) {
            assert forall|i: int| 0 <= i < rest.len() implies is_digit(#[trigger] rest[i]) by {
                assert(rest[i] == s[i + 1]);
            }
        }
        if n == s.len() {
            assert(s.take(n) == s);
        }
    } else {
        assert(s.take(0) == Seq::<char>::empty());
        if s.len() > 0 {
            assert(!is_digit(s[0]));
        }
    }
}

/// The index behind the digits that stand in `v` from `from` on.
pub(crate) fn skip_digits(v: &Vec<char>, from: usize, hi: usize) -> (r: usize)
    requires
        from <= hi <= v.len(),
    ensures
        from <= r <= hi,
        r - from == digit_run(v@.subrange(from as int, hi as int)),
{
    let mut i: usize = from;
    while i < hi && is_digit_char(v[i])
        invariant
            from <= i <= hi <= v.len(),
            digit_run(v@.subrange(from as int, hi as int)) == (i - from) + digit_run(
                v@.subrange(i as int, hi as int),
            ),
        decreases hi - i,
    {
        proof {
            let here = v@.subrange(i as int, hi as int);
            assert(here[0] == v@[i as int]);
            assert(here.drop_first() == v@.subrange(i + 1, hi as int));
        }
        i += 1;
    }
    proof {
        let here = v@.subrange(i as int, hi as int);
        if i < hi {
            assert(here[0] == v@[i as int]);
        }
    }
    i
}

/// Whether `v[lo..hi]` is an exponent.
fn is_exponent_range(v: &Vec<char>, lo: usize, hi: usize) -> (r: bool)
    requires
        lo <= hi <= v.len(),
    ensures
        r == is_exponent(v@.subrange(lo as int, hi as int)),
{
    let ghost s = v@.subrange(lo as int, hi as int);
    if lo == hi {
        return false;
    }
    proof {
        assert(s[0] == v@[lo as int]);
    }
    if v[lo] != 'e' && v[lo] != 'E' {
        return false;
    }
    let mut at: usize = lo + 1;
    proof {
        assert(s.skip(1) == v@.subrange(lo + 1, hi as int));
        if at < hi {
            assert(s.skip(1)[0] == v@[at as int]);
        }
    }
    if at < hi && (v[at] == '+' || v[at] == '-') {
        at += 1;
    }
    let ghost digits = without_sign(s.skip(1));
    proof {
        assert(digits == v@.subrange(at as int, hi as int));
    }
    let end = skip_digits(v, at, hi);
    proof {
        lemma_digit_run(digits);
    }
    at < hi && end == hi
}

/// Whether `v[lo..hi]` is the decimal notation of a reading.
pub(crate) fn is_reading_range(v: &Vec<char>, lo: usize, hi: usize) -> (r: bool)
    requires
        lo <= hi <= v.len(),
    ensures
        r == is_reading(v@.subrange(lo as int, hi as int)),
{
    let ghost s = v@.subrange(lo as int, hi as int);
    let mut at: usize = lo;
    proof {
        if lo < hi {
            assert(s[0] == v@[lo as int]);
        }
    }
    if at < hi && (v[at] == '+' || v[at] == '-') {
        at += 1;
    }
    let ghost u = without_sign(s);
    proof {
        assert(u == v@.subrange(at as int, hi as int));
    }
    if range_equals_ignoring_case(v, at, hi, "inf") || range_equals_ignoring_case(
        v,
        at,
        hi,
        "infinity",
    ) || range_equals_ignoring_case(v, at, hi, "nan") {
        return true;
    }
    let whole_end = skip_digits(v, at, hi);
    let ghost after = u.skip(whole_end - at);
    proof {
        assert(after == v@.subrange(whole_end as int, hi as int));
        if whole_end < hi {
            assert(after[0] == v@[whole_end as int]);
        }
    }
    if whole_end < hi && v[whole_end] == '.' {
        let fraction_end = skip_digits(v, whole_end + 1, hi);
        proof {
            assert(after.skip(1) == v@.subrange(whole_end + 1, hi as int));
            assert(after.skip(1 + (fraction_end - whole_end - 1)) == v@.subrange(
                fraction_end as int,
                hi as int,
            ));
        }
        let has_digit = whole_end > at || fraction_end > whole_end + 1;
        has_digit && (fraction_end == hi || is_exponent_range(v, fraction_end, hi))
    } else {
        whole_end > at && (whole_end == hi || is_exponent_range(v, whole_end, hi))
    }
}

/// Whether `s` is the decimal notation of a reading.
pub fn is_reading_text(s: &str) -> (r: bool)
    ensures
        r == is_reading(s@),
{
    let v = crate::text::chars_of(s);
    assert(v@.subrange(0, v.len() as int) == v@);
    is_reading_range(&v, 0, v.len())
}

// ---------------------------------------------------------------------------
// Long numbers in running text

/// The first number of `least` or more digits in `s`: the whole run of
/// digits at the first index at which so many digits stand. Shorter runs
/// before it are passed over.
pub open spec fn first_long_run(s: Seq<char>, least: int) -> Option<Seq<char>>
    decreases s.len(),
{
    if s.len() == 0 {
        None
    } else if digit_run(s) >= least {
        Some(s.take(digit_run(s)))
    } else {
        first_long_run(s.drop_first(), least)
    }
}

/// `run` is a run of `least` or more digits that stands in `s` at `at`,
/// ends where the digits end, and has no run of that length beginning
/// before it.
pub open spec fn is_first_long_run_at(s: Seq<char>, run: Seq<char>, at: int, least: int) -> bool {
    &&& 0 <= at
    &&& at + run.len() <= s.len()
    &&& run == s.subrange(at, at + run.len())
    &&& run.len() >= least
    &&& all_digits(run)
    &&& (at + run.len() == s.len() || !is_digit(s[at + run.len()]))
    &&& forall|q: int| 0 <= q < at ==> digit_run(#[trigger] s.skip(q)) < least
}

/// What `first_long_run` finds is a whole run of digits of the length asked
/// for, and the first such: no index before it has so many digits behind
/// it. It finds nothing only where no index has.
pub proof fn lemma_first_long_run(s: Seq<char>, least: int)
    ensures
        match first_long_run(s, least) {
            Some(run) => exists|at: int| is_first_long_run_at(s, run, at, least),
            None => forall|q: int| 0 <= q < s.len() ==> digit_run(#[trigger] s.skip(q)) < least,
        },
    decreases s.len(),
{
    if s.len() == 0 {
    } else if digit_run(s) >= least {
        let n = digit_run(s);
        lemma_digit_run(s);
        assert(s.take(n) == s.subrange(0, n));
        let found = first_long_run(s, least).unwrap();
        assert(found == s.take(n));
        assert(is_first_long_run_at(s, found, 0, least));
    } else {
        let rest = s.drop_first();
        lemma_first_long_run(rest, least);
        assert(first_long_run(s, least) == first_long_run(rest, least));
        assert(s.skip(0) == s);
        assert forall|q: int| 0 <= q < s.len() && (first_long_run(rest, least) is None || q
            <= choose|at: int|
            is_first_long_run_at(rest, first_long_run(rest, least).unwrap(), at, least)) implies digit_run(
            #[trigger] s.skip(q),
        ) < least by {
            if q > 0 {
                assert(s.skip(q) == rest.skip(q - 1));
                assert(digit_run(rest.skip(q - 1)) < least);
            }
        }
        if first_long_run(rest, least) is Some {
            let run = first_long_run(rest, least).unwrap();
            let at = choose|at: int| is_first_long_run_at(rest, run, at, least);
            assert(rest.subrange(at, at + run.len()) == s.subrange(at + 1, at + 1 + run.len()));
            assert(is_first_long_run_at(s, run, at + 1, least));
        }
    }
}

/// The bounds within `v` of the first number of `least` or more digits in `v[lo..hi]`.
pub(crate) fn first_long_run_range(v: &Vec<char>, lo: usize, hi: usize, least: usize) -> (r: Option<
    (usize, usize),
>)
    requires
        lo <= hi <= v.len(),
    ensures
        match r {
            Some((a, b)) => lo <= a <= b <= hi && first_long_run(
                v@.subrange(lo as int, hi as int),
                least as int,
            ) == Some(v@.subrange(a as int, b as int)),
            None => first_long_run(v@.subrange(lo as int, hi as int), least as int) is None,
        },
{
    let ghost whole = v@.subrange(lo as int, hi as int);
    let mut i: usize = lo;
    proof {
        assert(whole.skip(0) == whole);
    }
    while i < hi
        invariant
            lo <= i <= hi <= v.len(),
            whole == v@.subrange(lo as int, hi as int),
            first_long_run(whole, least as int) == first_long_run(
                whole.skip(i - lo),
                least as int,
            ),
        decreases hi - i,
    {
        let ghost here = whole.skip(i - lo);
        proof {
            assert(here == v@.subrange(i as int, hi as int));
        }
        let end = skip_digits(v, i, hi);
        if end - i >= least {
            proof {
                assert(here.take(end - i) == v@.subrange(i as int, end as int));
            }
            return Some((i, end));
        }
        proof {
            assert(here.drop_first() == whole.skip(i + 1 - lo));
        }
        i += 1;
    }
    proof {
        assert(whole.skip(hi - lo).len() == 0);
    }
    None
}

/// The first number of `least` or more digits in `text`.
pub fn long_number_in(text: &str, least: usize) -> (r: Option<String>)
    ensures
        r.deep_view() == first_long_run(text@, least as int),
{
    let v = crate::text::chars_of(text);
    proof {
        assert(v@.subrange(0, v.len() as int) == v@);
    }
    match first_long_run_range(&v, 0, v.len(), least) {
        Some((a, b)) => Some(crate::text::string_of_range(&v, a, b)),
        None => None,
    }
}

} // verus!
