//! The literal extractor: recovers the arguments of a pseudo-constructor
//! call `new Name(arg, arg, ...)` that a page embeds as data.

use vstd::prelude::*;
use crate::escape::{decode_hex, decode_range};
use crate::text::{chars_of, find, occurs_at, find_from, find_in, split_on, split_range, trim, trim_range};

verus! {

/// No call of the construct stands in the page.
#[derive(Clone, Copy, Debug, PartialEq, Eq, Structural)]
pub struct NotFound;

/// The text that opens a call of the construct `name`.
pub open spec fn call_opening(name: Seq<char>) -> Seq<char> {
    "new "@ + name + seq!['(']
}

/// The text between the parentheses of the first call of `name` in `body`:
/// from behind the first opening up to the first `)` after it. `None` where
/// no opening stands in `body`, or no `)` follows the first one.
pub open spec fn call_span(body: Seq<char>, name: Seq<char>) -> Option<Seq<char>> {
    match find(body, call_opening(name)) {
        None => None,
        Some(at) => {
            let start = at + call_opening(name).len();
            match find_from(body, seq![')'], start) {
                None => None,
                Some(close) => Some(body.subrange(start, close)),
            }
        },
    }
}

/// A single or a double quote.
pub open spec fn is_quote(c: char) -> bool {
    c == '"' || c == '\''
}

/// The text without one pair of quotes around it: where it begins with a
/// quote and ends with the same one, both are dropped; else nothing is.
pub open spec fn strip_quotes(s: Seq<char>) -> Seq<char> {
    if s.len() >= 2 && is_quote(s[0]) && s.last() == s[0] {
        s.subrange(1, s.len() - 1)
    } else {
        s
    }
}

/// What one raw argument stands for: trimmed, unquoted, escapes decoded.
pub open spec fn clean_argument(raw: Seq<char>) -> Seq<char> {
    decode_hex(strip_quotes(trim(raw)))
}

/// The arguments of a call, given the text between its parentheses: the
/// pieces between commas, each cleaned.
pub open spec fn span_arguments(span: Seq<char>) -> Seq<Seq<char>> {
    split_on(span, ',').map_values(|raw: Seq<char>| clean_argument(raw))
}

/// The arguments of the first call of `name` in `body`.
pub open spec fn call_arguments(body: Seq<char>, name: Seq<char>) -> Option<Seq<Seq<char>>> {
    match call_span(body, name) {
        None => None,
        Some(span) => Some(span_arguments(span)),
    }
}

/// The bounds of `strip_quotes(v[lo..hi])` within `v`.
pub(crate) fn strip_quotes_range(v: &Vec<char>, lo: usize, hi: usize) -> (r: (usize, usize))
    requires
        lo <= hi <= v.len(),
    ensures
        lo <= r.0 <= r.1 <= hi,
        v@.subrange(r.0 as int, r.1 as int) == strip_quotes(v@.subrange(lo as int, hi as int)),
{
    let ghost s = v@.subrange(lo as int, hi as int);
    if hi - lo >= 2 {
        proof {
            assert(s[0] == v@[lo as int]);
            assert(s.last() == v@[hi - 1]);
        }
        let first = v[lo];
        if (first == '"' || first == '\'') && v[hi - 1] == first {
            assert(s.subrange(1, s.len() - 1) == v@.subrange(lo + 1, hi - 1));
            return (lo + 1, hi - 1);
        }
    }
    (lo, hi)
}

/// The cleaned arguments of the call whose parentheses enclose `v[lo..hi]`.
pub(crate) fn arguments_in_range(v: &Vec<char>, lo: usize, hi: usize) -> (args: Vec<String>)
    requires
        lo <= hi <= v.len(),
    ensures
        args.deep_view() == span_arguments(v@.subrange(lo as int, hi as int)),
{
    let ghost span = v@.subrange(lo as int, hi as int);
    let ghost raw = split_on(span, ',');
    let pieces = split_range(v, lo, hi, ',');
    let mut args: Vec<String> = Vec::new();
    let mut k: usize = 0;
    while k < pieces.len()
        invariant
            k <= pieces.len(),
            lo <= hi <= v.len(),
            span == v@.subrange(lo as int, hi as int),
            raw == split_on(span, ','),
            pieces.len() == raw.len(),
            forall|j: int|
                0 <= j < pieces.len() ==> {
                    &&& lo <= (#[trigger] pieces[j]).0 <= pieces[j].1 <= hi
                    &&& v@.subrange(pieces[j].0 as int, pieces[j].1 as int) == raw[j]
                },
            args.len() == k,
            forall|j: int| 0 <= j < k ==> (#[trigger] args[j])@ == clean_argument(raw[j]),
        decreases pieces.len() - k,
    {
        let (a, b) = pieces[k];
        let (a, b) = trim_range(v, a, b);
        let (a, b) = strip_quotes_range(v, a, b);
        let mut arg = String::new();
        decode_range(v, a, b, &mut arg);
        proof {
            assert(Seq::<char>::empty() + decode_hex(v@.subrange(a as int, b as int))
                == decode_hex(v@.subrange(a as int, b as int)));
        }
        args.push(arg);
        k += 1;
    }
    proof {
        assert(args.deep_view() =~= span_arguments(span));
    }
    args
}

/// The bounds within `page` of the text between the parentheses of the
/// first call of `construct_name`.
pub(crate) fn call_span_range(page: &Vec<char>, construct_name: &str) -> (r: Option<(usize, usize)>)
    ensures
        match r {
            Some((start, end)) => start <= end <= page.len() && call_span(
                page@,
                construct_name@,
            ) == Some(page@.subrange(start as int, end as int)),
            None => call_span(page@, construct_name@) is None,
        },
{
    let name = chars_of(construct_name);
    let mut opening = chars_of("new ");
    let mut i: usize = 0;
    while i < name.len()
        invariant
            i <= name.len(),
            opening@ == "new "@ + name@.take(i as int),
        decreases name.len() - i,
    {
        opening.push(name[i]);
        proof {
            assert(name@.take(i as int).push(name@[i as int]) == name@.take(i + 1));
        }
        i += 1;
    }
    opening.push('(');
    proof {
        assert(name@.take(name.len() as int) == name@);
        assert(opening@ == call_opening(construct_name@));
    }
    match find_in(page, &opening, 0) {
        None => None,
        Some(at) => {
            proof {
                crate::text::lemma_find_from(page@, opening@, 0);
                assert(occurs_at(page@, opening@, at as int));
                assert(page@.len() == page.len());
            }
            let start: usize = at + opening.len();
            let mut close: Vec<char> = Vec::new();
            close.push(')');
            assert(close@ == seq![')']);
            match find_in(page, &close, start) {
                None => None,
                Some(end) => {
                    proof {
                        crate::text::lemma_find_from(page@, close@, start as int);
                        assert(occurs_at(page@, close@, end as int));
                    }
                    Some((start, end))
                },
            }
        },
    }
}

/// The arguments of the first call `new construct_name(...)` in `body`, in
/// order, each trimmed, freed of one pair of quotes and decoded.
pub fn extract_call_args(body: &str, construct_name: &str) -> (r: Result<Vec<String>, NotFound>)
    ensures
        match r {
            Ok(args) => call_arguments(body@, construct_name@) == Some(args.deep_view()),
            Err(_) => call_arguments(body@, construct_name@) is None,
        },
{
    let page = chars_of(body);
    match call_span_range(&page, construct_name) {
        Some((start, end)) => Ok(arguments_in_range(&page, start, end)),
        None => Err(NotFound),
    }
}

} // verus!
