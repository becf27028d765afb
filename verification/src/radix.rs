//! Integer reading and rendering in a radix, and the exact conversion of an
//! `i64` to the bit pattern of the nearest double.
//!
//! Parsing follows `i64::from_str_radix`: an optional `+` or `-` sign, then
//! at least one digit of the radix, with any overflow rejected. Rendering
//! follows `{:X}` and `{:b}`: uppercase digits, no leading zeros, and a
//! negative number shown as its two's-complement 64-bit pattern.

use vstd::prelude::*;
use crate::value::{FRAC_MASK, SIGN_MASK};

verus! {

/// The numeric value of `c` as a digit under `radix`, if it is one.
/// Mirrors `char::to_digit`: `0`-`9`, then letters of either case.
pub open spec fn spec_digit_val(c: char, radix: u32) -> Option<u32> {
    let u = c as u32;
    if 48 <= u <= 57 && u - 48 < radix {
        Some((u - 48) as u32)
    } else if 97 <= u <= 122 && u - 87 < radix {
        Some((u - 87) as u32)
    } else if 65 <= u <= 90 && u - 55 < radix {
        Some((u - 55) as u32)
    } else {
        None
    }
}

/// Left-to-right accumulation of digits onto `acc`, negatively when `neg`,
/// with the running value required to stay in `i64` range, as
/// `from_str_radix` requires.
pub open spec fn spec_accum_digits(s: Seq<char>, radix: u32, neg: bool, acc: int) -> Option<int>
    decreases s.len(),
{
    if s.len() == 0 {
        Some(acc)
    } else {
        match spec_digit_val(s[0], radix) {
            None => None,
            Some(d) => {
                let acc2 = if neg {
                    acc * radix - d
                } else {
                    acc * radix + d
                };
                if i64::MIN <= acc2 <= i64::MAX {
                    spec_accum_digits(s.drop_first(), radix, neg, acc2)
                } else {
                    None
                }
            },
        }
    }
}

/// The value `i64::from_str_radix` reads from `s`, if any.
pub open spec fn spec_parse_i64_radix(s: Seq<char>, radix: u32) -> Option<int> {
    if s.len() == 0 {
        None
    } else {
        let neg = s[0] == '-';
        let rest = if s[0] == '-' || s[0] == '+' {
            s.drop_first()
        } else {
            s
        };
        if rest.len() == 0 {
            None
        } else {
            spec_accum_digits(rest, radix, neg, 0)
        }
    }
}

/// Reads an `i64` from `s` under `radix` exactly as `i64::from_str_radix`
/// does: optional sign, one or more digits, `None` on any other character,
/// an empty digit run, or overflow.
pub fn parse_i64_radix(s: &Vec<char>, radix: u32) -> (r: Option<i64>)
    requires
        2 <= radix <= 36,
    ensures
        match r {
            Some(n) => spec_parse_i64_radix(s@, radix) == Some(n as int),
            None => spec_parse_i64_radix(s@, radix) == None::<int>,
        },
{
    if s.len() == 0 {
        return None;
    }
    let c0 = s[0];
    let neg = c0 == '-';
    let start: usize = if c0 == '-' || c0 == '+' {
        1
    } else {
        0
    };
    if s.len() == start {
        return None;
    }
    let ghost rest = if s@[0] == '-' || s@[0] == '+' {
        s@.drop_first()
    } else {
        s@
    };
    proof {
        if s@[0] == '-' || s@[0] == '+' {
            assert(rest =~= s@.skip(1));
        } else {
            assert(rest =~= s@.skip(0));
        }
        assert(spec_parse_i64_radix(s@, radix) == spec_accum_digits(rest, radix, neg, 0));
    }
    let mut acc: i64 = 0;
    let mut i: usize = start;
    while i < s.len()
        invariant
            start <= i <= s@.len(),
            2 <= radix <= 36,
            rest == s@.skip(start as int),
            rest.len() > 0,
            spec_parse_i64_radix(s@, radix) == spec_accum_digits(rest, radix, neg, 0),
            neg ==> acc <= 0,
            !neg ==> acc >= 0,
            spec_accum_digits(rest, radix, neg, 0) == spec_accum_digits(
                s@.skip(i as int),
                radix,
                neg,
                acc as int,
            ),
        decreases s@.len() - i,
    {
        let c = s[i];
        let d = digit_val(c, radix);
        assert(s@.skip(i as int)[0] == s@[i as int]);
        assert(s@.skip(i as int).drop_first() =~= s@.skip(i as int + 1));
        match d {
            None => {
                return None;
            },
            Some(d) => {
                // The running value keeps one sign, so the product and the
                // digit step can only leave the range on that same side:
                // checking them separately, as `from_str_radix` does, rejects
                // exactly the values whose combined step leaves the range.
                proof {
                    if neg {
                        assert(acc * (radix as i64) <= 0) by (nonlinear_arith)
                            requires
                                acc <= 0,
                                radix >= 2,
                        ;
                    } else {
                        assert(acc * (radix as i64) >= 0) by (nonlinear_arith)
                            requires
                                acc >= 0,
                                radix >= 2,
                        ;
                    }
                }
                let stepped: Option<i64> = if neg {
                    match acc.checked_mul(radix as i64) {
                        Some(m) => m.checked_sub(d as i64),
                        None => None,
                    }
                } else {
                    match acc.checked_mul(radix as i64) {
                        Some(m) => m.checked_add(d as i64),
                        None => None,
                    }
                };
                match stepped {
                    None => {
                        return None;
                    },
                    Some(a2) => {
                        acc = a2;
                    },
                }
            },
        }
        i = i + 1;
    }
    assert(s@.skip(i as int) =~= Seq::<char>::empty());
    Some(acc)
}

/// The numeric value of `c` as a digit under `radix`, if it is one.
pub fn digit_val(c: char, radix: u32) -> (r: Option<u32>)
    ensures
        r == spec_digit_val(c, radix),
{
    let u = c as u32;
    if 48 <= u && u <= 57 && u - 48 < radix {
        Some(u - 48)
    } else if 97 <= u && u <= 122 && u - 87 < radix {
        Some(u - 87)
    } else if 65 <= u && u <= 90 && u - 55 < radix {
        Some(u - 55)
    } else {
        None
    }
}

/// The two's-complement 64-bit pattern of `n`: what `{:X}`/`{:b}` show for
/// a negative `i64`.
pub open spec fn spec_to_u64_twos(n: int) -> u64 {
    if n >= 0 {
        n as u64
    } else {
        ((n + 0x1_0000_0000_0000_0000) as u64)
    }
}

/// Reinterprets an `i64` as its two's-complement `u64` pattern.
pub fn i64_to_u64_twos(n: i64) -> (r: u64)
    ensures
        r == spec_to_u64_twos(n as int),
{
    if n >= 0 {
        n as u64
    } else if n == i64::MIN {
        0x8000_0000_0000_0000
    } else {
        let mag = (-n) as u64;
        u64::MAX - mag + 1
    }
}

/// The uppercase digit character for a value below 16.
pub open spec fn spec_digit_char(d: u64) -> char {
    if d == 0 {
        '0'
    } else if d == 1 {
        '1'
    } else if d == 2 {
        '2'
    } else if d == 3 {
        '3'
    } else if d == 4 {
        '4'
    } else if d == 5 {
        '5'
    } else if d == 6 {
        '6'
    } else if d == 7 {
        '7'
    } else if d == 8 {
        '8'
    } else if d == 9 {
        '9'
    } else if d == 10 {
        'A'
    } else if d == 11 {
        'B'
    } else if d == 12 {
        'C'
    } else if d == 13 {
        'D'
    } else if d == 14 {
        'E'
    } else {
        'F'
    }
}

/// The digits of `n` under `radix`, most significant first, uppercase,
/// without leading zeros — the digit run `{:X}`/`{:b}` would print for the
/// unsigned value `n`.
pub open spec fn spec_radix_digits(n: u64, radix: u64) -> Seq<char>
    decreases n,
    via spec_radix_digits_dec
{
    if radix < 2 {
        Seq::empty()
    } else if n < radix {
        seq![spec_digit_char(n)]
    } else {
        spec_radix_digits(n / radix, radix).push(spec_digit_char(n % radix))
    }
}

#[via_fn]
proof fn spec_radix_digits_dec(n: u64, radix: u64) {
    if radix >= 2 && n >= radix {
        assert(n / radix < n) by (nonlinear_arith)
            requires
                n >= radix >= 2,
        ;
    }
}

/// Renders the digits of `n` under `radix`, most significant first.
pub fn radix_digits(n: u64, radix: u64) -> (r: Vec<char>)
    requires
        2 <= radix <= 16,
    ensures
        r@ == spec_radix_digits(n, radix),
{
    let mut low: Vec<char> = Vec::new();
    let mut cur: u64 = n;
    while cur >= radix
        invariant
            2 <= radix <= 16,
            spec_radix_digits(n, radix) =~= spec_radix_digits(cur, radix) + low@.reverse(),
        decreases cur,
    {
        let d = cur % radix;
        let ghost oldlow = low@;
        low.push(digit_char(d));
        assert(low@.reverse() =~= seq![spec_digit_char(d)] + oldlow.reverse());
        cur = cur / radix;
    }
    let ghost oldlow = low@;
    low.push(digit_char(cur));
    assert(low@.reverse() =~= seq![spec_digit_char(cur)] + oldlow.reverse());
    assert(spec_radix_digits(n, radix) =~= low@.reverse());
    let mut out: Vec<char> = Vec::new();
    let total = low.len();
    let mut j: usize = 0;
    while j < total
        invariant
            total == low@.len(),
            j <= total,
            out@ =~= low@.reverse().take(j as int),
        decreases total - j,
    {
        out.push(low[total - 1 - j]);
        assert(out@ =~= low@.reverse().take(j as int + 1));
        j = j + 1;
    }
    assert(out@ =~= low@.reverse());
    out
}

/// The uppercase digit character for a value below 16.
pub fn digit_char(d: u64) -> (r: char)
    requires
        d < 16,
    ensures
        r == spec_digit_char(d),
{
    if d == 0 {
        '0'
    } else if d == 1 {
        '1'
    } else if d == 2 {
        '2'
    } else if d == 3 {
        '3'
    } else if d == 4 {
        '4'
    } else if d == 5 {
        '5'
    } else if d == 6 {
        '6'
    } else if d == 7 {
        '7'
    } else if d == 8 {
        '8'
    } else if d == 9 {
        '9'
    } else if d == 10 {
        'A'
    } else if d == 11 {
        'B'
    } else if d == 12 {
        'C'
    } else if d == 13 {
        'D'
    } else if d == 14 {
        'E'
    } else {
        'F'
    }
}

} // verus!
