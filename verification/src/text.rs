//! Character sequences: conversion between strings and indexable vectors,
//! substring search, trimming and splitting.
//!
//! Every executable function here is stated against a spec function on
//! `Seq<char>`, the view of `str` and `String`.

use vstd::prelude::*;
use vstd::std_specs::iter::IteratorSpec;

verus! {

/// `String::push` appends exactly one character to the end of the string.
pub assume_specification[ String::push ](s: &mut String, c: char)
    ensures
        final(s)@ == old(s)@.push(c),
;

/// The characters of `s`, in order, as a vector that can be indexed in constant time.
pub fn chars_of(s: &str) -> (v: Vec<char>)
    ensures
        v@ == s@,
{
    let mut v: Vec<char> = Vec::new();
    for c in it: s.chars()
        invariant
            v@ == it.seq().take(it.index() as int),
    {
        v.push(c);
    }
    v
}

/// A string holding exactly the characters `v[lo..hi]`.
pub(crate) fn string_of_range(v: &Vec<char>, lo: usize, hi: usize) -> (s: String)
    requires
        lo <= hi <= v.len(),
    ensures
        s@ == v@.subrange(lo as int, hi as int),
{
    let mut s = String::new();
    let mut i: usize = lo;
    while i < hi
        invariant
            lo <= i <= hi <= v.len(),
            s@ == v@.subrange(lo as int, i as int),
        decreases hi - i,
    {
        s.push(v[i]);
        i += 1;
    }
    s
}

// ---------------------------------------------------------------------------
// Substring search

/// `needle` stands in `hay` at index `i`.
pub open spec fn occurs_at(hay: Seq<char>, needle: Seq<char>, i: int) -> bool {
    &&& 0 <= i
    &&& i + needle.len() <= hay.len()
    &&& hay.subrange(i, i + needle.len()) == needle
}

/// The least index at or after `from` at which `needle` stands in `hay`.
pub open spec fn find_from(hay: Seq<char>, needle: Seq<char>, from: int) -> Option<int>
    decreases hay.len() - from + 1,
{
    if from < 0 || from + needle.len() > hay.len() {
        None
    } else if occurs_at(hay, needle, from) {
        Some(from)
    } else {
        find_from(hay, needle, from + 1)
    }
}

/// The least index at which `needle` stands in `hay`.
pub open spec fn find(hay: Seq<char>, needle: Seq<char>) -> Option<int> {
    find_from(hay, needle, 0)
}

/// `needle` stands somewhere in `hay`.
pub open spec fn contains(hay: Seq<char>, needle: Seq<char>) -> bool {
    find(hay, needle) is Some
}

/// `find_from` returns an occurrence at or after `from`, no occurrence lies
/// between `from` and it, and it returns `None` only if there is none at all.
pub proof fn lemma_find_from(hay: Seq<char>, needle: Seq<char>, from: int)
    requires
        0 <= from,
    ensures
        match find_from(hay, needle, from) {
            Some(i) => {
                &&& from <= i
                &&& occurs_at(hay, needle, i)
                &&& forall|j: int| from <= j < i ==> !occurs_at(hay, needle, j)
            },
            None => forall|j: int| from <= j ==> !occurs_at(hay, needle, j),
        },
    decreases hay.len() - from + 1,
{
    if from + needle.len() > hay.len() {
    } else if occurs_at(hay, needle, from) {
    } else {
        lemma_find_from(hay, needle, from + 1);
    }
}

/// A text contains a needle exactly if the needle stands at some index.
pub proof fn lemma_contains(hay: Seq<char>, needle: Seq<char>)
    ensures
        contains(hay, needle) <==> exists|i: int| occurs_at(hay, needle, i),
{
    lemma_find_from(hay, needle, 0);
    if contains(hay, needle) {
        assert(occurs_at(hay, needle, find(hay, needle).unwrap()));
    }
}

/// Whether `needle` stands in `hay` at index `i`.
pub(crate) fn matches_at(hay: &Vec<char>, needle: &Vec<char>, i: usize) -> (r: bool)
    requires
        i + needle.len() <= hay.len(),
    ensures
        r == occurs_at(hay@, needle@, i as int),
{
    let mut k: usize = 0;
    while k < needle.len()
        invariant
            k <= needle.len(),
            i + needle.len() <= hay.len(),
            forall|j: int| 0 <= j < k ==> hay@[i + j] == needle@[j],
        decreases needle.len() - k,
    {
        if hay[i + k] != needle[k] {
            proof {
                let sub = hay@.subrange(i as int, i + needle.len());
                assert(sub[k as int] == hay@[i + k]);
            }
            return false;
        }
        k += 1;
    }
    assert(hay@.subrange(i as int, i + needle.len()) =~= needle@);
    true
}

/// The least index at or after `from` at which `needle` stands in `hay`.
pub(crate) fn find_in(hay: &Vec<char>, needle: &Vec<char>, from: usize) -> (r: Option<usize>)
    ensures
        match r {
            Some(i) => find_from(hay@, needle@, from as int) == Some(i as int),
            None => find_from(hay@, needle@, from as int) is None,
        },
{
    if needle.len() > hay.len() || from > hay.len() - needle.len() {
        return None;
    }
    let last: usize = hay.len() - needle.len();
    let mut i: usize = from;
    loop
        invariant
            from <= i <= last,
            last == hay.len() - needle.len(),
            find_from(hay@, needle@, from as int) == find_from(hay@, needle@, i as int),
        decreases last - i,
    {
        if matches_at(hay, needle, i) {
            return Some(i);
        }
        if i == last {
            return None;
        }
        i += 1;
    }
}

/// Whether `needle` stands somewhere in `hay`.
pub fn contains_text(hay: &str, needle: &str) -> (r: bool)
    ensures
        r == contains(hay@, needle@),
{
    let h = chars_of(hay);
    let n = chars_of(needle);
    find_in(&h, &n, 0).is_some()
}

// ---------------------------------------------------------------------------
// Whitespace

/// The characters with the Unicode property `White_Space`.
pub open spec fn is_whitespace(c: char) -> bool {
    let u = c as u32;
    ||| 0x09 <= u <= 0x0d
    ||| u == 0x20
    ||| u == 0x85
    ||| u == 0xa0
    ||| u == 0x1680
    ||| 0x2000 <= u <= 0x200a
    ||| u == 0x2028
    ||| u == 0x2029
    ||| u == 0x202f
    ||| u == 0x205f
    ||| u == 0x3000
}

/// The text without its leading whitespace.
pub open spec fn trim_start(s: Seq<char>) -> Seq<char>
    decreases s.len(),
{
    if s.len() > 0 && is_whitespace(s[0]) {
        trim_start(s.drop_first())
    } else {
        s
    }
}

/// The text without its trailing whitespace.
pub open spec fn trim_end(s: Seq<char>) -> Seq<char>
    decreases s.len(),
{
    if s.len() > 0 && is_whitespace(s.last()) {
        trim_end(s.drop_last())
    } else {
        s
    }
}

/// The text without leading and trailing whitespace.
pub open spec fn trim(s: Seq<char>) -> Seq<char> {
    trim_end(trim_start(s))
}

/// Whether `c` has the Unicode property `White_Space`.
pub fn is_space(c: char) -> (r: bool)
    ensures
        r == is_whitespace(c),
{
    let u: u32 = c as u32;
    (0x09 <= u && u <= 0x0d) || u == 0x20 || u == 0x85 || u == 0xa0 || u == 0x1680 || (0x2000 <= u
        && u <= 0x200a) || u == 0x2028 || u == 0x2029 || u == 0x202f || u == 0x205f || u == 0x3000
}

/// Skipping whitespace from the left: once `k` leading characters are known
/// to be whitespace, trimming the rest trims the whole.
proof fn lemma_trim_start_skip(s: Seq<char>, k: int)
    requires
        0 <= k <= s.len(),
        forall|j: int| 0 <= j < k ==> is_whitespace(s[j]),
    ensures
        trim_start(s) == trim_start(s.skip(k)),
    decreases k,
{
    if k == 0 {
        assert(s.skip(0) == s);
    } else {
        lemma_trim_start_skip(s, k - 1);
        let t = s.skip(k - 1);
        assert(t[0] == s[k - 1]);
        assert(t.drop_first() == s.skip(k));
    }
}

/// The same from the right.
proof fn lemma_trim_end_take(s: Seq<char>, k: int)
    requires
        0 <= k <= s.len(),
        forall|j: int| k <= j < s.len() ==> is_whitespace(s[j]),
    ensures
        trim_end(s) == trim_end(s.take(k)),
    decreases s.len() - k,
{
    if k == s.len() {
        assert(s.take(k) == s);
    } else {
        lemma_trim_end_take(s, k + 1);
        let t = s.take(k + 1);
        assert(t.last() == s[k]);
        assert(t.drop_last() == s.take(k));
    }
}

/// The bounds of `trim(v[lo..hi])` within `v`.
pub(crate) fn trim_range(v: &Vec<char>, lo: usize, hi: usize) -> (r: (usize, usize))
    requires
        lo <= hi <= v.len(),
    ensures
        lo <= r.0 <= r.1 <= hi,
        v@.subrange(r.0 as int, r.1 as int) == trim(v@.subrange(lo as int, hi as int)),
{
    let ghost whole = v@.subrange(lo as int, hi as int);
    let mut a: usize = lo;
    while a < hi && is_space(v[a])
        invariant
            lo <= a <= hi <= v.len(),
            whole == v@.subrange(lo as int, hi as int),
            forall|j: int| 0 <= j < a - lo ==> is_whitespace(whole[j]),
        decreases hi - a,
    {
        a += 1;
    }
    let ghost left = v@.subrange(a as int, hi as int);
    proof {
        lemma_trim_start_skip(whole, a - lo);
        assert(whole.skip(a - lo) == left);
        assert(trim_start(left) == left);
    }
    let mut b: usize = hi;
    while b > a && is_space(v[b - 1])
        invariant
            a <= b <= hi <= v.len(),
            left == v@.subrange(a as int, hi as int),
            forall|j: int| b - a <= j < left.len() ==> is_whitespace(left[j]),
        decreases b,
    {
        b -= 1;
    }
    proof {
        lemma_trim_end_take(left, b - a);
        let kept = v@.subrange(a as int, b as int);
        assert(left.take(b - a) == kept);
        assert(trim_end(kept) == kept);
    }
    (a, b)
}

/// `s` without leading and trailing whitespace.
pub fn trim_text(s: &str) -> (r: String)
    ensures
        r@ == trim(s@),
{
    let v = chars_of(s);
    let (a, b) = trim_range(&v, 0, v.len());
    assert(v@.subrange(0, v.len() as int) == v@);
    string_of_range(&v, a, b)
}

// ---------------------------------------------------------------------------
// Splitting

/// The pieces of `s` between occurrences of `sep`, in order. A text without
/// `sep` is one piece; each `sep` closes a piece and opens the next, so the
/// pieces are one more than the separators.
pub open spec fn split_on(s: Seq<char>, sep: char) -> Seq<Seq<char>>
    decreases s.len(),
{
    if s.len() == 0 {
        seq![Seq::<char>::empty()]
    } else {
        let before = split_on(s.drop_last(), sep);
        if s.last() == sep {
            before.push(Seq::<char>::empty())
        } else {
            before.drop_last().push(before.last().push(s.last()))
        }
    }
}

/// The pieces joined again, with `sep` between neighbours.
pub open spec fn join_with(pieces: Seq<Seq<char>>, sep: char) -> Seq<char>
    decreases pieces.len(),
{
    if pieces.len() == 0 {
        Seq::<char>::empty()
    } else if pieces.len() == 1 {
        pieces[0]
    } else {
        join_with(pieces.drop_last(), sep).push(sep) + pieces.last()
    }
}

/// Splitting loses nothing: there is at least one piece, no piece holds the
/// separator, and joining the pieces gives the text back.
pub proof fn lemma_split_on(s: Seq<char>, sep: char)
    ensures
        split_on(s, sep).len() >= 1,
        forall|i: int, j: int|
            0 <= i < split_on(s, sep).len() && 0 <= j < split_on(s, sep)[i].len()
                ==> split_on(s, sep)[i][j] != sep,
        join_with(split_on(s, sep), sep) == s,
    decreases s.len(),
{
    if s.len() == 0 {
    } else {
        let front = s.drop_last();
        lemma_split_on(front, sep);
        let before = split_on(front, sep);
        let now = split_on(s, sep);
        if s.last() == sep {
            assert(now.drop_last() == before);
            assert(join_with(now, sep) == s);
        } else {
            let grown = before.last().push(s.last());
            assert(now == before.drop_last().push(grown));
            if before.len() == 1 {
                assert(before[0] == front);
                assert(grown == s);
            } else {
                assert(now.drop_last() == before.drop_last());
                assert(join_with(before, sep) == join_with(before.drop_last(), sep).push(sep)
                    + before.last());
                assert(join_with(now, sep) == join_with(before.drop_last(), sep).push(sep)
                    + grown);
                assert(join_with(now, sep) == front.push(s.last()));
                assert(front.push(s.last()) == s);
            }
        }
    }
}

/// The bounds within `v` of the pieces of `v[lo..hi]` between occurrences of `sep`.
pub(crate) fn split_range(v: &Vec<char>, lo: usize, hi: usize, sep: char) -> (r: Vec<(usize, usize)>)
    requires
        lo <= hi <= v.len(),
    ensures
        r.len() == split_on(v@.subrange(lo as int, hi as int), sep).len(),
        forall|k: int|
            0 <= k < r.len() ==> {
                &&& lo <= (#[trigger] r[k]).0 <= r[k].1 <= hi
                &&& v@.subrange(r[k].0 as int, r[k].1 as int) == split_on(
                    v@.subrange(lo as int, hi as int),
                    sep,
                )[k]
            },
{
    let mut done: Vec<(usize, usize)> = Vec::new();
    let mut start: usize = lo;
    let mut i: usize = lo;
    proof {
        assert(v@.subrange(lo as int, lo as int) == Seq::<char>::empty());
    }
    while i < hi
        invariant
            lo <= start <= i <= hi <= v.len(),
            done.len() + 1 == split_on(v@.subrange(lo as int, i as int), sep).len(),
            v@.subrange(start as int, i as int) == split_on(
                v@.subrange(lo as int, i as int),
                sep,
            ).last(),
            forall|k: int|
                0 <= k < done.len() ==> {
                    &&& lo <= (#[trigger] done[k]).0 <= done[k].1 <= hi
                    &&& v@.subrange(done[k].0 as int, done[k].1 as int) == split_on(
                        v@.subrange(lo as int, i as int),
                        sep,
                    )[k]
                },
        decreases hi - i,
    {
        let ghost seen = v@.subrange(lo as int, i as int);
        let ghost next = v@.subrange(lo as int, i + 1);
        proof {
            assert(next.drop_last() == seen);
            assert(next.last() == v@[i as int]);
        }
        if v[i] == sep {
            done.push((start, i));
            start = i + 1;
            proof {
                assert(split_on(next, sep) == split_on(seen, sep).push(Seq::<char>::empty()));
                assert(v@.subrange(start as int, i + 1) == Seq::<char>::empty());
            }
        } else {
            proof {
                let before = split_on(seen, sep);
                assert(split_on(next, sep) == before.drop_last().push(
                    before.last().push(next.last()),
                ));
                assert(v@.subrange(start as int, i + 1) == v@.subrange(
                    start as int,
                    i as int,
                ).push(v@[i as int]));
            }
        }
        i += 1;
    }
    done.push((start, hi));
    done
}

// ---------------------------------------------------------------------------
// Comparison without regard to ASCII case

/// `c` with an ASCII capital letter made small; any other character unchanged.
pub open spec fn ascii_lower(c: char) -> char {
    if 0x41 <= c as u32 <= 0x5a {
        (c as u32 + 0x20) as char
    } else {
        c
    }
}

/// The two texts are equal once ASCII capitals are made small.
pub open spec fn same_ignoring_case(a: Seq<char>, b: Seq<char>) -> bool {
    &&& a.len() == b.len()
    &&& forall|i: int| 0 <= i < a.len() ==> ascii_lower(#[trigger] a[i]) == ascii_lower(b[i])
}

/// `c` with an ASCII capital letter made small.
pub fn to_ascii_lower(c: char) -> (r: char)
    ensures
        r == ascii_lower(c),
{
    let u: u32 = c as u32;
    if 0x41 <= u && u <= 0x5a {
        ((u + 0x20) as u8) as char
    } else {
        c
    }
}

/// Whether `v[lo..hi]` and `word` are equal once ASCII capitals are made small.
pub(crate) fn range_equals_ignoring_case(v: &Vec<char>, lo: usize, hi: usize, word: &str) -> (r: bool)
    requires
        lo <= hi <= v.len(),
    ensures
        r == same_ignoring_case(v@.subrange(lo as int, hi as int), word@),
{
    let w = chars_of(word);
    let ghost part = v@.subrange(lo as int, hi as int);
    if w.len() != hi - lo {
        return false;
    }
    let mut i: usize = 0;
    while i < w.len()
        invariant
            lo <= hi <= v.len(),
            w.len() == hi - lo,
            i <= w.len(),
            w@ == word@,
            part == v@.subrange(lo as int, hi as int),
            forall|j: int| 0 <= j < i ==> ascii_lower(#[trigger] part[j]) == ascii_lower(w@[j]),
        decreases w.len() - i,
    {
        proof {
            assert(part[i as int] == v@[lo + i]);
        }
        if to_ascii_lower(v[lo + i]) != to_ascii_lower(w[i]) {
            return false;
        }
        i += 1;
    }
    true
}

} // verus!
