use vstd::prelude::*;
use crate::number::{parse_unsigned, parse_unsigned_chars, radix_value};
use crate::text::{char_len_utf8, lemma_utf8_len_concat, lemma_utf8_len_pos, str_chars, utf8_len};

verus! {

/// What is left of `s` once every leading `#` is removed.
pub open spec fn strip_hashes(s: Seq<char>) -> Seq<char>
    decreases s.len(),
{
    if s.len() > 0 && s[0] == '#' {
        strip_hashes(s.drop_first())
    } else {
        s
    }
}

/// A character whose UTF-8 encoding is a single byte.
pub open spec fn one_byte(c: char) -> bool {
    utf8_len(seq![c]) == 1
}

/// Byte offset `k` of the encoding of `t` falls between two characters.
pub open spec fn byte_boundary(t: Seq<char>, k: int) -> bool {
    exists|i: int| 0 <= i <= t.len() && #[trigger] utf8_len(t.take(i)) == k
}

/// The value of the hexadecimal digits `t[lo..hi]` as a byte.
pub open spec fn hex_byte(t: Seq<char>, lo: int, hi: int) -> Option<nat> {
    parse_unsigned(t.subrange(lo, hi), 16, 255)
}

/// Whether every piece that a reading of `t` cuts out by byte offsets starts
/// and ends between characters: with three bytes the pieces are one byte
/// each, with six bytes two bytes each, and the reading stops at the first
/// piece that is not a hexadecimal number.
pub open spec fn hex_slices_ok(t: Seq<char>) -> bool {
    &&& utf8_len(t) == 3 ==> t.len() > 0 && one_byte(t[0]) && (hex_byte(t, 0, 1) is None || (
    t.len() > 1 && one_byte(t[1])))
    &&& utf8_len(t) == 6 ==> byte_boundary(t, 2) && (hex_byte(t, 0, 2) is None || byte_boundary(
        t,
        4,
    ))
}

/// The red, green and blue channels that the hexadecimal colour `t` (without
/// its `#`) stands for: three digits, each repeated (`f` is `ff`), or three
/// pairs of digits; `None` for any other length or a piece that is not a
/// hexadecimal number.
pub open spec fn hex_rgb_spec(t: Seq<char>) -> Option<(nat, nat, nat)> {
    if utf8_len(t) == t.len() && t.len() == 3 {
        match (hex_byte(t, 0, 1), hex_byte(t, 1, 2), hex_byte(t, 2, 3)) {
            (Some(r), Some(g), Some(b)) => Some((r * 17, g * 17, b * 17)),
            _ => None,
        }
    } else if utf8_len(t) == t.len() && t.len() == 6 {
        match (hex_byte(t, 0, 2), hex_byte(t, 2, 4), hex_byte(t, 4, 6)) {
            (Some(r), Some(g), Some(b)) => Some((r, g, b)),
            _ => None,
        }
    } else {
        None
    }
}

/// A string takes as many bytes as it has characters exactly when every
/// character takes one byte; it never takes fewer.
proof fn lemma_utf8_ascii(s: Seq<char>)
    ensures
        utf8_len(s) >= s.len(),
        utf8_len(s) == s.len() <==> forall|i: int| 0 <= i < s.len() ==> one_byte(#[trigger] s[i]),
    decreases s.len(),
{
    if s.len() > 0 {
        let p = s.drop_last();
        lemma_utf8_ascii(p);
        assert(s == p + seq![s.last()]);
        lemma_utf8_len_concat(p, seq![s.last()]);
        lemma_utf8_len_pos(seq![s.last()]);
        if utf8_len(s) == s.len() {
            assert forall|i: int| 0 <= i < s.len() implies one_byte(#[trigger] s[i]) by {
                if i < s.len() - 1 {
                    assert(s[i] == p[i]);
                }
            }
        }
        if forall|i: int| 0 <= i < s.len() ==> one_byte(#[trigger] s[i]) {
            assert forall|i: int| 0 <= i < p.len() implies one_byte(#[trigger] p[i]) by {
                assert(p[i] == s[i]);
            }
            assert(one_byte(s[s.len() - 1]));
        }
    } else {
        assert(vstd::utf8::encode_utf8(s).len() == 0);
    }
}

/// A single hexadecimal digit is below 16.
proof fn lemma_single_digit(t: Seq<char>, lo: int)
    requires
        0 <= lo < t.len(),
        hex_byte(t, lo, lo + 1) is Some,
    ensures
        hex_byte(t, lo, lo + 1)->0 < 16,
{
    let s = t.subrange(lo, lo + 1);
    reveal_with_fuel(radix_value, 2);
    assert(s.drop_last().len() == 0);
    if s[0] == '+' {
        assert(s.drop_first().len() == 0);
    }
}

/// Converts colours between the notations the launcher reads and writes.
pub struct ColorConverter;

impl ColorConverter {
    /// The red, green and blue channels of a hexadecimal colour such as
    /// `#1e90ff` or `#abc` (any number of leading `#` is skipped).
    pub fn hex_to_rgb(hex: &str) -> (r: Option<(u8, u8, u8)>)
        requires
            hex_slices_ok(strip_hashes(hex@)),
        ensures
            match r {
                Some(c) => hex_rgb_spec(strip_hashes(hex@)) == Some((c.0 as nat, c.1 as nat, c.2 as nat)),
                None => hex_rgb_spec(strip_hashes(hex@)) is None,
            },
    {
        let v = str_chars(hex);
        let mut lo: usize = 0;
        assert(v@.skip(0) == v@);
        while lo < v.len() && v[lo] == '#'
            invariant
                lo <= v@.len(),
                strip_hashes(v@.skip(lo as int)) == strip_hashes(hex@),
                v@ == hex@,
            decreases v.len() - lo,
        {
            assert(v@.skip(lo as int).drop_first() == v@.skip(lo + 1));
            lo += 1;
        }
        assert(strip_hashes(v@.skip(lo as int)) == v@.skip(lo as int));
        let ghost t = v@.skip(lo as int);
        assert(t == strip_hashes(hex@));
        let n = v.len() - lo;
        if n != 3 && n != 6 {
            return None;
        }
        let mut i = lo;
        while i < v.len()
            invariant
                lo <= i <= v@.len(),
                t == v@.skip(lo as int),
                t == strip_hashes(hex@),
                n == t.len(),
                forall|j: int| 0 <= j < i - lo ==> one_byte(#[trigger] t[j]),
            decreases v.len() - i,
        {
            if char_len_utf8(v[i]) != 1 {
                proof {
                    lemma_utf8_ascii(t);
                    assert(!one_byte(t[i - lo]));
                }
                return None;
            }
            i += 1;
        }
        proof {
            lemma_utf8_ascii(t);
        }
        assert(utf8_len(t) == t.len());
        if n == 3 {
            let r = parse_unsigned_chars(&v, lo, lo + 1, 16, 255);
            let g = parse_unsigned_chars(&v, lo + 1, lo + 2, 16, 255);
            let b = parse_unsigned_chars(&v, lo + 2, lo + 3, 16, 255);
            assert(v@.subrange(lo as int, lo + 1) == t.subrange(0, 1));
            assert(v@.subrange(lo + 1, lo + 2) == t.subrange(1, 2));
            assert(v@.subrange(lo + 2, lo + 3) == t.subrange(2, 3));
            match (r, g, b) {
                (Some(r), Some(g), Some(b)) => {
                    proof {
                        lemma_single_digit(t, 0);
                        lemma_single_digit(t, 1);
                        lemma_single_digit(t, 2);
                    }
                    Some(((r as u8) * 17, (g as u8) * 17, (b as u8) * 17))
                },
                _ => None,
            }
        } else {
            let r = parse_unsigned_chars(&v, lo, lo + 2, 16, 255);
            let g = parse_unsigned_chars(&v, lo + 2, lo + 4, 16, 255);
            let b = parse_unsigned_chars(&v, lo + 4, lo + 6, 16, 255);
            assert(v@.subrange(lo as int, lo + 2) == t.subrange(0, 2));
            assert(v@.subrange(lo + 2, lo + 4) == t.subrange(2, 4));
            assert(v@.subrange(lo + 4, lo + 6) == t.subrange(4, 6));
            match (r, g, b) {
                (Some(r), Some(g), Some(b)) => Some((r as u8, g as u8, b as u8)),
                _ => None,
            }
        }
    }
}

/// A three-digit colour is the six-digit one with each digit doubled:
/// `#abc` reads as `#aabbcc`.
pub proof fn lemma_short_hex_doubles(a: char, b: char, c: char)
    requires
        crate::number::radix_digit(a, 16) is Some,
        crate::number::radix_digit(b, 16) is Some,
        crate::number::radix_digit(c, 16) is Some,
    ensures
        hex_rgb_spec(seq![a, b, c]) == hex_rgb_spec(seq![a, a, b, b, c, c]),
        hex_rgb_spec(seq![a, b, c]) is Some,
{
    let short = seq![a, b, c];
    let long = seq![a, a, b, b, c, c];
    lemma_digits_one_byte(short);
    lemma_digits_one_byte(long);
    lemma_utf8_ascii(short);
    lemma_utf8_ascii(long);
    lemma_single_and_double(short, long, 0, 0, a);
    lemma_single_and_double(short, long, 1, 2, b);
    lemma_single_and_double(short, long, 2, 4, c);
}

/// Hexadecimal digits are ASCII, so one byte each.
proof fn lemma_digits_one_byte(s: Seq<char>)
    requires
        forall|i: int| 0 <= i < s.len() ==> crate::number::radix_digit(#[trigger] s[i], 16) is Some,
    ensures
        forall|i: int| 0 <= i < s.len() ==> one_byte(#[trigger] s[i]),
{
    assert forall|i: int| 0 <= i < s.len() implies one_byte(#[trigger] s[i]) by {
        let ch = s[i];
        assert(crate::number::radix_digit(ch, 16) is Some);
        assert((ch as u32) < 0x80);
        vstd::utf8::char_is_scalar(ch);
        assert(seq![ch].drop_first() == Seq::<char>::empty());
        assert(vstd::utf8::encode_utf8(seq![ch]) == vstd::utf8::encode_scalar(ch as u32)
            + vstd::utf8::encode_utf8(Seq::<char>::empty()));
    }
}

/// A digit read alone gives `v`; read twice it gives `17 * v`.
proof fn lemma_single_and_double(short: Seq<char>, long: Seq<char>, i: int, j: int, d: char)
    requires
        0 <= i < short.len(),
        0 <= j && j + 1 < long.len(),
        short[i] == d,
        long[j] == d,
        long[j + 1] == d,
        crate::number::radix_digit(d, 16) is Some,
    ensures
        hex_byte(short, i, i + 1) matches Some(v) && hex_byte(long, j, j + 2) == Some(v * 17),
{
    let one = short.subrange(i, i + 1);
    let two = long.subrange(j, j + 2);
    let v = crate::number::radix_digit(d, 16)->0;
    reveal_with_fuel(radix_value, 3);
    assert(one.drop_last().len() == 0);
    assert(one.last() == d);
    assert(two.drop_last().drop_last().len() == 0);
    assert(two.drop_last().last() == d);
    assert(two.last() == d);
    assert(d != '+');
    assert(radix_value(one, 16) == Some(v));
    assert(radix_value(two.drop_last(), 16) == Some(v));
    assert(radix_value(two, 16) == Some(v * 16 + v));
    assert(v < 16);
}

} // verus!
