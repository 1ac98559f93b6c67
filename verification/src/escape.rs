//! The backslash-hex escape encoding of embedded literals: `\xHH` stands for
//! the character whose code is the byte `HH`.

use vstd::prelude::*;
use crate::text::{contains, occurs_at, lemma_contains};


verus! {

/// The value of a hexadecimal digit, of either case.
pub open spec fn hex_digit_value(c: char) -> Option<int> {
    let u = c as u32 as int;
    if 0x30 <= u <= 0x39 {
        Some(u - 0x30)
    } else if 0x61 <= u <= 0x66 {
        Some(u - 0x61 + 10)
    } else if 0x41 <= u <= 0x46 {
        Some(u - 0x41 + 10)
    } else {
        None
    }
}

/// An escape opens at index `i`: a backslash followed by `x`.
pub open spec fn escape_opens_at(s: Seq<char>, i: int) -> bool {
    &&& 0 <= i
    &&& i + 2 <= s.len()
    &&& s[i] == '\\'
    &&& s[i + 1] == 'x'
}

/// A well-formed escape stands at index `i`: `\x` and two hexadecimal digits.
pub open spec fn escape_at(s: Seq<char>, i: int) -> bool {
    &&& escape_opens_at(s, i)
    &&& i + 4 <= s.len()
    &&& hex_digit_value(s[i + 2]) is Some
    &&& hex_digit_value(s[i + 3]) is Some
}

/// The character that the escape with digits `high` and `low` stands for:
/// the one whose code is the byte they spell.
pub open spec fn escaped_char(high: char, low: char) -> char {
    ((16 * hex_digit_value(high).unwrap() + hex_digit_value(low).unwrap()) as u8) as char
}

/// The text with its escapes decoded, read from the left: a well-formed
/// escape becomes one character, and any other character is copied. So the
/// `\x` of a malformed escape stays as it is, and reading goes on behind it.
pub open spec fn decode_hex(s: Seq<char>) -> Seq<char>
    decreases s.len(),
{
    if s.len() == 0 {
        s
    } else if escape_at(s, 0) {
        seq![escaped_char(s[2], s[3])] + decode_hex(s.skip(4))
    } else {
        seq![s[0]] + decode_hex(s.skip(1))
    }
}

/// The value of a hexadecimal digit, of either case.
pub fn hex_value(c: char) -> (r: Option<u8>)
    ensures
        match r {
            Some(d) => hex_digit_value(c) == Some(d as int) && d < 16,
            None => hex_digit_value(c) is None,
        },
{
    let u: u32 = c as u32;
    if 0x30 <= u && u <= 0x39 {
        Some((u - 0x30) as u8)
    } else if 0x61 <= u && u <= 0x66 {
        Some((u - 0x61 + 10) as u8)
    } else if 0x41 <= u && u <= 0x46 {
        Some((u - 0x41 + 10) as u8)
    } else {
        None
    }
}

/// Appends the decoding of `v[lo..hi]` to `out`.
pub(crate) fn decode_range(v: &Vec<char>, lo: usize, hi: usize, out: &mut String)
    requires
        lo <= hi <= v.len(),
    ensures
        final(out)@ == old(out)@ + decode_hex(v@.subrange(lo as int, hi as int)),
{
    let ghost whole = v@.subrange(lo as int, hi as int);
    let mut i: usize = lo;
    proof {
        assert(whole.skip(0) == whole);
    }
    while i < hi
        invariant
            lo <= i <= hi <= v.len(),
            whole == v@.subrange(lo as int, hi as int),
            out@ + decode_hex(whole.skip(i - lo)) == old(out)@ + decode_hex(whole),
        decreases hi - i,
    {
        let ghost rest = whole.skip(i - lo);
        let ghost before = out@;
        let c = v[i];
        proof {
            assert(rest.len() == hi - i);
            assert(rest[0] == v@[i as int]);
            if hi - i >= 4 {
                assert(rest[1] == v@[i + 1]);
                assert(rest[2] == v@[i + 2]);
                assert(rest[3] == v@[i + 3]);
            }
        }
        let mut decoded: Option<u8> = None;
        if c == '\\' && hi - i >= 4 && v[i + 1] == 'x' {
            match (hex_value(v[i + 2]), hex_value(v[i + 3])) {
                (Some(high), Some(low)) => {
                    decoded = Some(high * 16 + low);
                },
                _ => {},
            }
        }
        match decoded {
            Some(byte) => {
                out.push(byte as char);
                proof {
                    assert(escape_at(rest, 0));
                    assert(rest.skip(4) == whole.skip(i + 4 - lo));
                    assert(before.push(escaped_char(rest[2], rest[3])) + decode_hex(rest.skip(4))
                        == before + decode_hex(rest));
                }
                i += 4;
            },
            None => {
                out.push(c);
                proof {
                    assert(!escape_at(rest, 0));
                    assert(rest.skip(1) == whole.skip(i + 1 - lo));
                    assert(before.push(rest[0]) + decode_hex(rest.skip(1)) == before + (seq![
                        rest[0],
                    ] + decode_hex(rest.skip(1))));
                }
                i += 1;
            },
        }
    }
    proof {
        assert(decode_hex(whole.skip(hi - lo)) == Seq::<char>::empty());
        assert(out@ + Seq::<char>::empty() == out@);
    }
}

// ---------------------------------------------------------------------------
// What decoding keeps and what it undoes

/// A text in which no well-formed escape stands anywhere decodes to itself:
/// every malformed escape is copied unchanged, as every other character is.
pub proof fn lemma_decode_without_escape(s: Seq<char>)
    requires
        forall|i: int| !escape_at(s, i),
    ensures
        decode_hex(s) == s,
    decreases s.len(),
{
    if s.len() == 0 {
    } else {
        assert(!escape_at(s, 0));
        let rest = s.skip(1);
        assert forall|i: int| !escape_at(rest, i) by {
            if escape_at(rest, i) {
                assert(escape_at(s, i + 1));
            }
        }
        lemma_decode_without_escape(rest);
        assert(seq![s[0]] + rest == s);
    }
}

/// A malformed escape at the head of a text stays as it is: its `\x` is
/// copied, and what follows is decoded as if it stood alone.
pub proof fn lemma_malformed_escape_kept(s: Seq<char>)
    requires
        escape_opens_at(s, 0),
        !escape_at(s, 0),
    ensures
        decode_hex(s) == escape_opener() + decode_hex(s.skip(2)),
{
    let rest = s.skip(1);
    assert(rest[0] == 'x');
    assert(!escape_at(rest, 0));
    assert(rest.skip(1) == s.skip(2));
    assert(decode_hex(s) == seq![s[0]] + decode_hex(rest));
    assert(decode_hex(rest) == seq![rest[0]] + decode_hex(rest.skip(1)));
    assert(seq![s[0]] + (seq![rest[0]] + decode_hex(rest.skip(1))) == escape_opener()
        + decode_hex(s.skip(2)));
}

/// The two characters that open an escape.
pub open spec fn escape_opener() -> Seq<char> {
    seq!['\\', 'x']
}

/// On a text that holds no `\x`, decoding changes nothing, so decoding twice
/// is the same as decoding once.
pub proof fn lemma_decode_plain(s: Seq<char>)
    requires
        !contains(s, escape_opener()),
    ensures
        decode_hex(s) == s,
        decode_hex(decode_hex(s)) == decode_hex(s),
{
    lemma_contains(s, escape_opener());
    assert forall|i: int| !escape_at(s, i) by {
        if escape_at(s, i) {
            assert(s.subrange(i, i + 2) == escape_opener());
            assert(occurs_at(s, escape_opener(), i));
        }
    }
    lemma_decode_without_escape(s);
}

/// The hexadecimal digit for `d`, in upper or lower case.
pub open spec fn hex_digit(d: int, upper: bool) -> char {
    if d < 10 {
        (0x30 + d) as char
    } else if upper {
        (0x41 + d - 10) as char
    } else {
        (0x61 + d - 10) as char
    }
}

/// The escape that stands for the byte `b`.
pub open spec fn hex_escape(b: u8, upper: bool) -> Seq<char> {
    seq!['\\', 'x', hex_digit(b as int / 16, upper), hex_digit(b as int % 16, upper)]
}

/// Every byte written as an escape, one after the other.
pub open spec fn hex_escape_all(bytes: Seq<u8>, upper: bool) -> Seq<char>
    decreases bytes.len(),
{
    if bytes.len() == 0 {
        Seq::<char>::empty()
    } else {
        hex_escape(bytes[0], upper) + hex_escape_all(bytes.drop_first(), upper)
    }
}

/// Each byte as the character with that code.
pub open spec fn raw_chars(bytes: Seq<u8>) -> Seq<char> {
    Seq::new(bytes.len(), |i: int| bytes[i] as char)
}

/// A hexadecimal digit has the value it was written for.
pub proof fn lemma_hex_digit_value(d: int, upper: bool)
    requires
        0 <= d < 16,
    ensures
        hex_digit_value(hex_digit(d, upper)) == Some(d),
{
}

/// Writing a byte as an escape and decoding it gives the byte back, as the
/// character with that code: for every byte, in both cases of the digits.
pub proof fn lemma_escape_round_trip(b: u8, upper: bool)
    ensures
        decode_hex(hex_escape(b, upper)) == seq![b as char],
{
    let e = hex_escape(b, upper);
    lemma_hex_digit_value(b as int / 16, upper);
    lemma_hex_digit_value(b as int % 16, upper);
    assert(escape_at(e, 0));
    assert(e.skip(4) == Seq::<char>::empty());
    assert(decode_hex(e.skip(4)) == Seq::<char>::empty());
    assert(16 * (b as int / 16) + b as int % 16 == b as int);
    assert(seq![escaped_char(e[2], e[3])] + Seq::<char>::empty() == seq![b as char]);
}

/// The same for a whole sequence of bytes.
pub proof fn lemma_escape_all_round_trip(bytes: Seq<u8>, upper: bool)
    ensures
        decode_hex(hex_escape_all(bytes, upper)) == raw_chars(bytes),
    decreases bytes.len(),
{
    if bytes.len() == 0 {
        assert(raw_chars(bytes) == Seq::<char>::empty());
    } else {
        let b = bytes[0];
        let tail = bytes.drop_first();
        let e = hex_escape(b, upper);
        let all = hex_escape_all(bytes, upper);
        lemma_escape_all_round_trip(tail, upper);
        lemma_hex_digit_value(b as int / 16, upper);
        lemma_hex_digit_value(b as int % 16, upper);
        assert(all == e + hex_escape_all(tail, upper));
        assert(escape_at(all, 0));
        assert(all.skip(4) == hex_escape_all(tail, upper));
        assert(16 * (b as int / 16) + b as int % 16 == b as int);
        assert(escaped_char(all[2], all[3]) == b as char);
        assert(seq![b as char] + raw_chars(tail) == raw_chars(bytes));
    }
}

} // verus!
