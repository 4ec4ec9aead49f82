//! Fixed-point decimal numbers.
//!
//! A score or threshold is a count of ten-thousandths held in an `i64`.
//! This module parses decimal text such as `-0.05` into that form and
//! renders it back with exactly four fractional digits.

use vstd::prelude::*;
use crate::scan::{find_char, find_char_in, lemma_find_char};

verus! {

/// Every parsed value is strictly below this bound in magnitude.
pub const SCALED_LIMIT: i64 = 1000000000000000000;

pub open spec fn is_digit(c: char) -> bool {
    48 <= c as int <= 57
}

pub open spec fn digit_val(c: char) -> int {
    c as int - 48
}

pub open spec fn all_digits(s: Seq<char>) -> bool {
    forall|i: int| 0 <= i < s.len() ==> is_digit(s[i])
}

/// Value of a digit string read most-significant first.
pub open spec fn digits_val(s: Seq<char>) -> int
    decreases s.len(),
{
    if s.len() == 0 {
        0
    } else {
        digits_val(s.drop_last()) * 10 + digit_val(s.last())
    }
}

pub open spec fn pow10(n: nat) -> int
    decreases n,
{
    if n == 0 {
        1
    } else {
        10 * pow10((n - 1) as nat)
    }
}

pub proof fn lemma_pow10_pos(n: nat)
    ensures
        pow10(n) >= 1,
    decreases n,
{
    if n > 0 {
        lemma_pow10_pos((n - 1) as nat);
    }
}

pub proof fn lemma_pow10_le(a: nat, b: nat)
    requires
        a <= b,
    ensures
        pow10(a) <= pow10(b),
    decreases b,
{
    if a < b {
        lemma_pow10_le(a, (b - 1) as nat);
        lemma_pow10_pos((b - 1) as nat);
    }
}

pub proof fn lemma_pow10_values()
    ensures
        pow10(0) == 1,
        pow10(1) == 10,
        pow10(2) == 100,
        pow10(3) == 1000,
        pow10(4) == 10000,
        pow10(13) == 10000000000000,
        pow10(14) == 100000000000000,
{
    reveal_with_fuel(pow10, 15);
}

pub proof fn lemma_digits_val_bound(s: Seq<char>)
    requires
        all_digits(s),
    ensures
        0 <= digits_val(s) < pow10(s.len()),
    decreases s.len(),
{
    if s.len() == 0 {
    } else {
        assert(all_digits(s.drop_last()));
        lemma_digits_val_bound(s.drop_last());
        assert(is_digit(s.last()));
    }
}

/// Multiplier that pads `n` fractional digits out to four.
pub open spec fn frac_mult(n: nat) -> int {
    if n == 0 {
        10000
    } else if n == 1 {
        1000
    } else if n == 2 {
        100
    } else if n == 3 {
        10
    } else {
        1
    }
}

/// A well-formed unsigned decimal: one to fourteen integer digits,
/// optionally followed by a point and one to four fractional digits.
pub open spec fn valid_unsigned_scaled(s: Seq<char>) -> bool {
    let d = find_char(s, '.') as int;
    &&& 1 <= d <= 14
    &&& all_digits(s.take(d))
    &&& (d < s.len() ==> 1 <= s.len() - d - 1 <= 4 && all_digits(s.skip(d + 1)))
}

/// Scaled value of a well-formed unsigned decimal.
pub open spec fn scaled_val_unsigned(s: Seq<char>) -> int {
    let d = find_char(s, '.') as int;
    let frac = if d < s.len() {
        s.skip(d + 1)
    } else {
        Seq::<char>::empty()
    };
    digits_val(s.take(d)) * 10000 + digits_val(frac) * frac_mult(frac.len())
}

/// A well-formed decimal: an optional leading minus sign before a
/// well-formed unsigned decimal.
pub open spec fn valid_scaled(s: Seq<char>) -> bool {
    if s.len() > 0 && s[0] == '-' {
        valid_unsigned_scaled(s.skip(1))
    } else {
        valid_unsigned_scaled(s)
    }
}

/// Scaled value of a well-formed decimal.
pub open spec fn scaled_val(s: Seq<char>) -> int {
    if s.len() > 0 && s[0] == '-' {
        -scaled_val_unsigned(s.skip(1))
    } else {
        scaled_val_unsigned(s)
    }
}

/// Reads the digits of `s` between the character positions `from` and `to`
/// as an unsigned number.
fn digits_to_val(s: &str, from: usize, to: usize) -> (r: Option<i64>)
    requires
        from <= to <= s@.len(),
        to - from <= 14,
    ensures
        match r {
            Some(v) => {
                &&& all_digits(s@.subrange(from as int, to as int))
                &&& v as int == digits_val(s@.subrange(from as int, to as int))
                &&& 0 <= v < pow10((to - from) as nat)
            },
            None => !all_digits(s@.subrange(from as int, to as int)),
        },
{
    let ghost whole = s@.subrange(from as int, to as int);
    let mut acc: i64 = 0;
    let mut i: usize = from;
    while i < to
        invariant
            from <= i <= to <= s@.len(),
            to - from <= 14,
            whole == s@.subrange(from as int, to as int),
            all_digits(whole.take(i - from)),
            acc as int == digits_val(whole.take(i - from)),
            0 <= acc < pow10((i - from) as nat),
        decreases to - i,
    {
        let c = s.get_char(i);
        let u = c as u32;
        if u < 48 || u > 57 {
            proof {
                assert(whole[i - from] == c);
                assert(!is_digit(c));
            }
            return None;
        }
        let d = (u - 48) as i64;
        proof {
            lemma_pow10_le(((i - from) as nat), 13);
            lemma_pow10_values();
            let k = i - from;
            assert(whole.take(k + 1).drop_last() =~= whole.take(k));
            assert(whole.take(k + 1).last() == whole[k]);
            assert(whole[k] == c);
        }
        acc = acc * 10 + d;
        i += 1;
    }
    proof {
        assert(whole.take(to - from) =~= whole);
    }
    Some(acc)
}

/// Parses an unsigned decimal into scaled units.
fn parse_unsigned_scaled(s: &str) -> (r: Option<i64>)
    ensures
        match r {
            Some(v) => {
                &&& valid_unsigned_scaled(s@)
                &&& v as int == scaled_val_unsigned(s@)
                &&& 0 <= v < SCALED_LIMIT
            },
            None => !valid_unsigned_scaled(s@),
        },
{
    let n = s.unicode_len();
    let d = find_char_in(s, '.');
    proof {
        lemma_find_char(s@, '.');
    }
    if d < 1 || d > 14 {
        return None;
    }
    let int_part = match digits_to_val(s, 0, d) {
        Some(v) => v,
        None => {
            proof {
                assert(s@.subrange(0, d as int) =~= s@.take(d as int));
            }
            return None;
        },
    };
    proof {
        assert(s@.subrange(0, d as int) =~= s@.take(d as int));
        lemma_pow10_le((d as nat), 14);
        lemma_pow10_values();
    }
    if d == n {
        return Some(int_part * 10000);
    }
    let flen = n - d - 1;
    if flen < 1 || flen > 4 {
        return None;
    }
    let frac = match digits_to_val(s, d + 1, n) {
        Some(v) => v,
        None => {
            proof {
                assert(s@.subrange(d + 1, n as int) =~= s@.skip(d + 1));
            }
            return None;
        },
    };
    proof {
        assert(s@.subrange(d + 1, n as int) =~= s@.skip(d + 1));
        lemma_pow10_values();
    }
    let mult: i64 = if flen == 1 {
        1000
    } else if flen == 2 {
        100
    } else if flen == 3 {
        10
    } else {
        1
    };
    proof {
        assert(mult as int == frac_mult(flen as nat));
        if flen == 1 {
            assert(frac < 10);
        } else if flen == 2 {
            assert(frac < 100);
        } else if flen == 3 {
            assert(frac < 1000);
        } else {
            assert(frac < 10000);
        }
        assert(0 <= frac as int * mult as int <= 9999);
    }
    Some(int_part * 10000 + frac * mult)
}

/// Parses decimal text such as `-0.05` into scaled units, four fractional
/// digits at most; returns `None` exactly when the text is not a
/// well-formed decimal of at most fourteen integer digits.
pub fn parse_scaled(s: &str) -> (r: Option<i64>)
    ensures
        match r {
            Some(v) => {
                &&& valid_scaled(s@)
                &&& v as int == scaled_val(s@)
                &&& -SCALED_LIMIT < v < SCALED_LIMIT
            },
            None => !valid_scaled(s@),
        },
{
    let n = s.unicode_len();
    if n > 0 && s.get_char(0) == '-' {
        let rest = s.substring_char(1, n);
        proof {
            assert(rest@ =~= s@.skip(1));
        }
        match parse_unsigned_scaled(rest) {
            Some(v) => Some(-v),
            None => None,
        }
    } else {
        parse_unsigned_scaled(s)
    }
}

/// Decimal rendering of a single digit value.
pub open spec fn digit_repr(d: int) -> Seq<char> {
    if d == 0 {
        "0"@
    } else if d == 1 {
        "1"@
    } else if d == 2 {
        "2"@
    } else if d == 3 {
        "3"@
    } else if d == 4 {
        "4"@
    } else if d == 5 {
        "5"@
    } else if d == 6 {
        "6"@
    } else if d == 7 {
        "7"@
    } else if d == 8 {
        "8"@
    } else {
        "9"@
    }
}

/// Decimal rendering of a non-negative number, no leading zeros except
/// for zero itself.
pub open spec fn dec_repr(n: int) -> Seq<char>
    decreases n,
{
    if n < 10 {
        digit_repr(n)
    } else {
        dec_repr(n / 10) + digit_repr(n % 10)
    }
}

/// Rendering of a non-negative scaled value: the whole part, a point, and
/// exactly four fractional digits.
pub open spec fn scaled_repr_unsigned(n: int) -> Seq<char> {
    dec_repr(n / 10000) + "."@ + digit_repr((n / 1000) % 10) + digit_repr((n / 100) % 10)
        + digit_repr((n / 10) % 10) + digit_repr(n % 10)
}

/// Rendering of a scaled value, with a leading minus sign when negative.
pub open spec fn scaled_repr(v: int) -> Seq<char> {
    if v < 0 {
        "-"@ + scaled_repr_unsigned(-v)
    } else {
        scaled_repr_unsigned(v)
    }
}

fn digit_str(d: u64) -> (r: &'static str)
    requires
        d < 10,
    ensures
        r@ == digit_repr(d as int),
{
    if d == 0 {
        "0"
    } else if d == 1 {
        "1"
    } else if d == 2 {
        "2"
    } else if d == 3 {
        "3"
    } else if d == 4 {
        "4"
    } else if d == 5 {
        "5"
    } else if d == 6 {
        "6"
    } else if d == 7 {
        "7"
    } else if d == 8 {
        "8"
    } else {
        "9"
    }
}

/// Renders a non-negative number in decimal.
pub fn format_dec(n: u64) -> (r: String)
    ensures
        r@ == dec_repr(n as int),
    decreases n,
{
    if n < 10 {
        String::from_str(digit_str(n))
    } else {
        let mut prefix = format_dec(n / 10);
        prefix.append(digit_str(n % 10));
        prefix
    }
}

fn format_unsigned(n: u64) -> (r: String)
    ensures
        r@ == scaled_repr_unsigned(n as int),
{
    let mut out = format_dec(n / 10000);
    out.append(".");
    out.append(digit_str((n / 1000) % 10));
    out.append(digit_str((n / 100) % 10));
    out.append(digit_str((n / 10) % 10));
    out.append(digit_str(n % 10));
    out
}

/// Renders a scaled value as decimal text with four fractional digits.
pub fn format_scaled(v: i64) -> (r: String)
    requires
        v != i64::MIN,
    ensures
        r@ == scaled_repr(v as int),
{
    if v < 0 {
        let m = (-v) as u64;
        let mut out = String::from_str("-");
        let rest = format_unsigned(m);
        out.append(rest.as_str());
        out
    } else {
        format_unsigned(v as u64)
    }
}

} // verus!
