use vstd::prelude::*;

verus! {

/// The value of `c` as a digit in base `radix` (letters of either case stand
/// for 10 and up), as `char::to_digit` gives it.
pub open spec fn radix_digit(c: char, radix: nat) -> Option<nat> {
    let v = if '0' <= c <= '9' {
        Some((c as nat - '0' as nat) as nat)
    } else if 'a' <= c <= 'z' {
        Some((c as nat - 'a' as nat + 10) as nat)
    } else if 'A' <= c <= 'Z' {
        Some((c as nat - 'A' as nat + 10) as nat)
    } else {
        None::<nat>
    };
    match v {
        Some(d) => if d < radix {
            Some(d)
        } else {
            None
        },
        None => None,
    }
}

/// The value of a string of digits in base `radix` (0 for none), or `None`
/// when a character is not such a digit.
pub open spec fn radix_value(s: Seq<char>, radix: nat) -> Option<nat>
    decreases s.len(),
{
    if s.len() == 0 {
        Some(0)
    } else {
        match (radix_value(s.drop_last(), radix), radix_digit(s.last(), radix)) {
            (Some(v), Some(d)) => Some(v * radix + d),
            _ => None,
        }
    }
}

/// `from_str_radix` for an unsigned integer type whose largest value is
/// `max`: an optional `+`, then at least one digit, with a value up to `max`.
pub open spec fn parse_unsigned(s: Seq<char>, radix: nat, max: nat) -> Option<nat> {
    let digits = if s.len() > 0 && s[0] == '+' {
        s.drop_first()
    } else {
        s
    };
    if digits.len() == 0 {
        None
    } else {
        match radix_value(digits, radix) {
            Some(v) => if v <= max {
                Some(v)
            } else {
                None
            },
            None => None,
        }
    }
}

/// A string of digits has a value only if each prefix has one, no larger.
proof fn lemma_radix_prefix(s: Seq<char>, radix: nat, k: int)
    requires
        0 <= k <= s.len(),
        radix >= 1,
        radix_value(s, radix) is Some,
    ensures
        radix_value(s.take(k), radix) is Some,
        radix_value(s.take(k), radix)->0 <= radix_value(s, radix)->0,
    decreases s.len(),
{
    if k == s.len() {
        assert(s.take(k) == s);
    } else {
        let t = s.drop_last();
        lemma_radix_prefix(t, radix, k);
        assert(t.take(k) == s.take(k));
        let v = radix_value(t, radix)->0;
        let d = radix_digit(s.last(), radix)->0;
        assert(v <= v * radix + d) by (nonlinear_arith)
            requires
                radix >= 1,
        ;
    }
}

/// A string with a non-digit at `k` has no value.
proof fn lemma_radix_bad_digit(s: Seq<char>, radix: nat, k: int)
    requires
        0 <= k < s.len(),
        radix_digit(s[k], radix) is None,
    ensures
        radix_value(s, radix) is None,
    decreases s.len(),
{
    if k < s.len() - 1 {
        lemma_radix_bad_digit(s.drop_last(), radix, k);
    }
}

fn digit_of(c: char, radix: u32) -> (r: Option<u64>)
    requires
        radix <= 36,
    ensures
        match r {
            Some(d) => radix_digit(c, radix as nat) == Some(d as nat) && d < radix,
            None => radix_digit(c, radix as nat) is None,
        },
{
    let v: u64 = if '0' <= c && c <= '9' {
        (c as u64) - ('0' as u64)
    } else if 'a' <= c && c <= 'z' {
        (c as u64) - ('a' as u64) + 10
    } else if 'A' <= c && c <= 'Z' {
        (c as u64) - ('A' as u64) + 10
    } else {
        return None;
    };
    if v < radix as u64 {
        Some(v)
    } else {
        None
    }
}

/// Parses `s[lo..hi]` as `from_str_radix` does for an unsigned type whose
/// largest value is `max`.
pub fn parse_unsigned_chars(s: &Vec<char>, lo: usize, hi: usize, radix: u32, max: u64) -> (r: Option<u64>)
    requires
        lo <= hi <= s@.len(),
        2 <= radix <= 36,
        max <= u32::MAX,
    ensures
        match r {
            Some(v) => parse_unsigned(s@.subrange(lo as int, hi as int), radix as nat, max as nat)
                == Some(v as nat),
            None => parse_unsigned(s@.subrange(lo as int, hi as int), radix as nat, max as nat) is None,
        },
{
    let ghost whole = s@.subrange(lo as int, hi as int);
    let mut i = lo;
    if i < hi && s[i] == '+' {
        i += 1;
    }
    let ghost digits = s@.subrange(i as int, hi as int);
    assert(digits == if whole.len() > 0 && whole[0] == '+' {
        whole.drop_first()
    } else {
        whole
    });
    if i == hi {
        return None;
    }
    let start = i;
    let mut acc: u64 = 0;
    while i < hi
        invariant
            lo <= start <= i <= hi <= s@.len(),
            2 <= radix <= 36,
            max <= u32::MAX,
            digits == s@.subrange(start as int, hi as int),
            whole == s@.subrange(lo as int, hi as int),
            digits.len() > 0,
            parse_unsigned(whole, radix as nat, max as nat) == match radix_value(digits, radix as nat) {
                Some(x) => if x <= max {
                    Some(x)
                } else {
                    None
                },
                None => None,
            },
            radix_value(s@.subrange(start as int, i as int), radix as nat) == Some(acc as nat),
            acc <= max,
        decreases hi - i,
    {
        let d = match digit_of(s[i], radix) {
            Some(d) => d,
            None => {
                proof {
                    lemma_radix_bad_digit(digits, radix as nat, i - start);
                }
                return None;
            },
        };
        proof {
            assert(s@.subrange(start as int, i + 1).drop_last() == s@.subrange(start as int, i as int));
            assert(acc * radix <= u32::MAX * 36) by (nonlinear_arith)
                requires
                    acc <= u32::MAX,
                    radix <= 36,
            ;
        }
        acc = acc * (radix as u64) + d;
        i += 1;
        if acc > max {
            proof {
                if radix_value(digits, radix as nat) is Some {
                    lemma_radix_prefix(digits, radix as nat, i - start);
                    assert(digits.take(i - start) == s@.subrange(start as int, i as int));
                }
            }
            return None;
        }
    }
    Some(acc)
}

// ---- Decimal floating-point literals ----------------------------------------

/// An ASCII decimal digit.
pub open spec fn is_digit(c: char) -> bool {
    '0' <= c <= '9'
}

/// Every character of `s` is a decimal digit.
pub open spec fn all_digits(s: Seq<char>) -> bool {
    forall|i: int| 0 <= i < s.len() ==> is_digit(#[trigger] s[i])
}

/// `s` without one leading `+` or `-`.
pub open spec fn drop_sign(s: Seq<char>) -> Seq<char> {
    if s.len() > 0 && (s[0] == '+' || s[0] == '-') {
        s.drop_first()
    } else {
        s
    }
}

/// Digits with at most one `.` among them, and at least one digit.
pub open spec fn decimal_mantissa(s: Seq<char>) -> bool {
    ||| s.len() > 0 && all_digits(s)
    ||| s.len() >= 2 && exists|k: int|
        0 <= k < s.len() && s[k] == '.' && all_digits(#[trigger] s.take(k)) && all_digits(
            s.skip(k + 1),
        )
}

/// An exponent after the `e`: an optional sign and at least one digit.
pub open spec fn decimal_exponent(s: Seq<char>) -> bool {
    drop_sign(s).len() > 0 && all_digits(drop_sign(s))
}

/// A mantissa, optionally followed by `e` or `E` and an exponent.
pub open spec fn decimal_number(s: Seq<char>) -> bool {
    ||| decimal_mantissa(s)
    ||| exists|k: int|
        0 <= k < s.len() && (s[k] == 'e' || s[k] == 'E') && decimal_mantissa(#[trigger] s.take(k))
            && decimal_exponent(s.skip(k + 1))
}

/// Whether `s` reads as a floating-point number by the grammar that std
/// documents for `f32::from_str` and `f64::from_str`: an optional sign, then
/// `inf`, `infinity` or `nan` in any case, or a decimal number.
pub open spec fn is_float_literal(s: Seq<char>) -> bool {
    let b = drop_sign(s);
    let l = crate::text::lower_seq(b);
    l == "inf"@ || l == "infinity"@ || l == "nan"@ || decimal_number(b)
}

/// Whether `s[lo..hi]` is all digits.
fn digits_between(s: &Vec<char>, lo: usize, hi: usize) -> (r: bool)
    requires
        lo <= hi <= s@.len(),
    ensures
        r == all_digits(s@.subrange(lo as int, hi as int)),
{
    let mut i = lo;
    while i < hi
        invariant
            lo <= i <= hi <= s@.len(),
            all_digits(s@.subrange(lo as int, i as int)),
        decreases hi - i,
    {
        if !('0' <= s[i] && s[i] <= '9') {
            assert(s@.subrange(lo as int, hi as int)[i - lo] == s@[i as int]);
            return false;
        }
        assert forall|j: int| 0 <= j < i + 1 - lo implies is_digit(
            #[trigger] s@.subrange(lo as int, i + 1)[j],
        ) by {
            if j < i - lo {
                assert(s@.subrange(lo as int, i + 1)[j] == s@.subrange(lo as int, i as int)[j]);
            }
        }
        i += 1;
    }
    true
}

/// First index in `s[lo..hi]` holding `a` or `b`.
fn first_of(s: &Vec<char>, lo: usize, hi: usize, a: char, b: char) -> (r: Option<usize>)
    requires
        lo <= hi <= s@.len(),
    ensures
        match r {
            Some(k) => lo <= k < hi && (s@[k as int] == a || s@[k as int] == b) && forall|j: int|
                lo <= j < k ==> s@[j] != a && s@[j] != b,
            None => forall|j: int| lo <= j < hi ==> s@[j] != a && s@[j] != b,
        },
{
    let mut i = lo;
    while i < hi
        invariant
            lo <= i <= hi <= s@.len(),
            forall|j: int| lo <= j < i ==> s@[j] != a && s@[j] != b,
        decreases hi - i,
    {
        if s[i] == a || s[i] == b {
            return Some(i);
        }
        i += 1;
    }
    None
}

/// Whether `s[lo..hi]` is a mantissa.
fn mantissa_between(s: &Vec<char>, lo: usize, hi: usize) -> (r: bool)
    requires
        lo <= hi <= s@.len(),
    ensures
        r == decimal_mantissa(s@.subrange(lo as int, hi as int)),
{
    let ghost m = s@.subrange(lo as int, hi as int);
    match first_of(s, lo, hi, '.', '.') {
        None => {
            let d = digits_between(s, lo, hi);
            assert forall|k: int| 0 <= k < m.len() implies m[k] != '.' by {
                assert(m[k] == s@[lo + k]);
            }
            hi > lo && d
        },
        Some(k) => {
            let a = digits_between(s, lo, k);
            let b = digits_between(s, k + 1, hi);
            let ghost kk = (k - lo) as int;
            assert(m.take(kk) == s@.subrange(lo as int, k as int));
            assert(m.skip(kk + 1) == s@.subrange(k + 1, hi as int));
            assert(m[kk] == '.');
            assert(!is_digit(m[kk]));
            if a && b && hi - lo >= 2 {
                true
            } else {
                proof {
                    if m.len() >= 2 && exists|j: int|
                        0 <= j < m.len() && m[j] == '.' && all_digits(#[trigger] m.take(j))
                            && all_digits(m.skip(j + 1)) {
                        let j = choose|j: int|
                            0 <= j < m.len() && m[j] == '.' && all_digits(#[trigger] m.take(j))
                                && all_digits(m.skip(j + 1));
                        if j < kk {
                            assert(m[j] == s@[lo + j]);
                        } else if j > kk {
                            assert(m.take(j)[kk] == m[kk]);
                            assert(!is_digit(m.take(j)[kk]));
                        }
                    }
                }
                false
            }
        },
    }
}

/// Whether `s[lo..hi]` is a decimal number.
fn number_between(s: &Vec<char>, lo: usize, hi: usize) -> (r: bool)
    requires
        lo <= hi <= s@.len(),
    ensures
        r == decimal_number(s@.subrange(lo as int, hi as int)),
{
    let ghost m = s@.subrange(lo as int, hi as int);
    match first_of(s, lo, hi, 'e', 'E') {
        None => {
            let r = mantissa_between(s, lo, hi);
            proof {
                if exists|k: int|
                    0 <= k < m.len() && (m[k] == 'e' || m[k] == 'E') && decimal_mantissa(
                        #[trigger] m.take(k),
                    ) && decimal_exponent(m.skip(k + 1)) {
                    let k = choose|k: int|
                        0 <= k < m.len() && (m[k] == 'e' || m[k] == 'E') && decimal_mantissa(
                            #[trigger] m.take(k),
                        ) && decimal_exponent(m.skip(k + 1));
                    assert(m[k] == s@[lo + k]);
                }
            }
            r
        },
        Some(k) => {
            let ghost kk = (k - lo) as int;
            assert(m.take(kk) == s@.subrange(lo as int, k as int));
            assert(m.skip(kk + 1) == s@.subrange(k + 1, hi as int));
            let a = mantissa_between(s, lo, k);
            // the exponent: an optional sign, then digits
            let mut e = k + 1;
            if e < hi && (s[e] == '+' || s[e] == '-') {
                e += 1;
            }
            let ghost x = s@.subrange(k + 1, hi as int);
            assert(drop_sign(x) == s@.subrange(e as int, hi as int));
            let b = e < hi && digits_between(s, e, hi);
            proof {
                // the whole is no mantissa: it holds an `e`
                if decimal_mantissa(m) {
                    if m.len() > 0 && all_digits(m) {
                        assert(!is_digit(m[kk]));
                    } else {
                        let j = choose|j: int|
                            0 <= j < m.len() && m[j] == '.' && all_digits(#[trigger] m.take(j))
                                && all_digits(m.skip(j + 1));
                        if j < kk {
                            assert(m.skip(j + 1)[kk - j - 1] == m[kk]);
                            assert(!is_digit(m.skip(j + 1)[kk - j - 1]));
                        } else if j > kk {
                            assert(m.take(j)[kk] == m[kk]);
                            assert(!is_digit(m.take(j)[kk]));
                        }
                    }
                }
                // any `e` that splits it is the first one
                if exists|j: int|
                    0 <= j < m.len() && (m[j] == 'e' || m[j] == 'E') && decimal_mantissa(
                        #[trigger] m.take(j),
                    ) && decimal_exponent(m.skip(j + 1)) {
                    let j = choose|j: int|
                        0 <= j < m.len() && (m[j] == 'e' || m[j] == 'E') && decimal_mantissa(
                            #[trigger] m.take(j),
                        ) && decimal_exponent(m.skip(j + 1));
                    if j < kk {
                        assert(m[j] == s@[lo + j]);
                    } else if j > kk {
                        let t = m.take(j);
                        assert(t[kk] == m[kk]);
                        if t.len() > 0 && all_digits(t) {
                            assert(!is_digit(t[kk]));
                        } else {
                            let i = choose|i: int|
                                0 <= i < t.len() && t[i] == '.' && all_digits(#[trigger] t.take(i))
                                    && all_digits(t.skip(i + 1));
                            if i < kk {
                                assert(t.skip(i + 1)[kk - i - 1] == t[kk]);
                                assert(!is_digit(t.skip(i + 1)[kk - i - 1]));
                            } else if i > kk {
                                assert(t.take(i)[kk] == t[kk]);
                                assert(!is_digit(t.take(i)[kk]));
                            }
                        }
                    }
                }
            }
            a && b
        },
    }
}

/// Whether the text of `s` reads as a floating-point number (the grammar of
/// [`is_float_literal`]).
pub fn float_literal(s: &Vec<char>) -> (r: bool)
    ensures
        r == is_float_literal(s@),
{
    let n = s.len();
    let lo: usize = if n > 0 && (s[0] == '+' || s[0] == '-') {
        1
    } else {
        0
    };
    let ghost b = drop_sign(s@);
    assert(b == s@.subrange(lo as int, n as int));
    let rest = crate::text::sub_chars(s, lo, n);
    let l = crate::text::chars_to_ascii_lowercase(&rest);
    let inf = crate::text::str_chars("inf");
    let infinity = crate::text::str_chars("infinity");
    let nan = crate::text::str_chars("nan");
    proof {
        reveal_strlit("inf");
        reveal_strlit("infinity");
        reveal_strlit("nan");
    }
    if crate::text::chars_eq(&l, &inf) || crate::text::chars_eq(&l, &infinity) || crate::text::chars_eq(
        &l,
        &nan,
    ) {
        return true;
    }
    number_between(s, lo, n)
}

} // verus!
