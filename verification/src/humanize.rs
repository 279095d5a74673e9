//! Byte counts for people: `1536` is `1.50 KiB`.
//!
//! The count is first taken to the nearest `f64` (ties to even), as
//! `n as f64` does; the value in the chosen unit is then shown with two
//! decimals, rounded to the nearest (ties to even), as `{:.2}` shows an
//! `f64`. All of it is computed here exactly, on integers.

use vstd::prelude::*;
use crate::number::{decimal, digit_char, push_decimal};

verus! {

pub open spec fn two_pow(k: nat) -> nat
    decreases k,
{
    if k == 0 {
        1
    } else {
        2 * two_pow((k - 1) as nat)
    }
}

/// 2^53: integers below it are exact in an `f64`.
pub open spec fn mantissa_limit() -> nat {
    9007199254740992
}

/// The spacing of `f64` values around `n`: the least power of two `p`
/// (from `2^k` up) with `n / p < 2^53`.
pub open spec fn ulp_from(n: nat, k: nat) -> nat
    decreases 64 - k,
{
    if k >= 64 || n / two_pow(k) < mantissa_limit() {
        two_pow(k)
    } else {
        ulp_from(n, k + 1)
    }
}

/// `n as f64`, as an integer: `n` rounded to the nearest multiple of its
/// spacing, ties to the even multiple.
pub open spec fn to_f64(n: nat) -> nat {
    if n < mantissa_limit() {
        n
    } else {
        let p = ulp_from(n, 0);
        let q = n / p;
        let r = n % p;
        if r * 2 > p || (r * 2 == p && q % 2 == 1) {
            (q + 1) * p
        } else {
            q * p
        }
    }
}

/// Which unit a value takes: the largest power of 1024 (up to the fourth)
/// that does not exceed it.
pub open spec fn unit_index(f: nat) -> nat {
    if f < 1024 {
        0
    } else if f < 1048576 {
        1
    } else if f < 1073741824 {
        2
    } else if f < 1099511627776 {
        3
    } else {
        4
    }
}

pub open spec fn unit_divisor(i: nat) -> nat {
    if i == 0 {
        1
    } else if i == 1 {
        1024
    } else if i == 2 {
        1048576
    } else if i == 3 {
        1073741824
    } else {
        1099511627776
    }
}

pub open spec fn unit_name(i: nat) -> Seq<char> {
    if i == 0 {
        "B"@
    } else if i == 1 {
        "KiB"@
    } else if i == 2 {
        "MiB"@
    } else if i == 3 {
        "GiB"@
    } else {
        "TiB"@
    }
}

/// `f / d` in hundredths, rounded to the nearest, ties to even.
pub open spec fn hundredths(f: nat, d: nat) -> nat {
    let q = (f * 100) / d;
    let r = (f * 100) % d;
    if r * 2 > d || (r * 2 == d && q % 2 == 1) {
        q + 1
    } else {
        q
    }
}

/// The text `humanize_bytes` gives for `n`.
pub open spec fn humanize_spec(n: nat) -> Seq<char> {
    let f = to_f64(n);
    let i = unit_index(f);
    if i == 0 {
        decimal(n) + " "@ + unit_name(0)
    } else {
        let h = hundredths(f, unit_divisor(i));
        decimal(h / 100) + seq!['.', digit_char((h % 100) / 10), digit_char(h % 10)] + " "@
            + unit_name(i)
    }
}

fn float_value(n: u64) -> (f: u128)
    ensures
        f == to_f64(n as nat),
        f <= 36893488147419103232,
{
    if n < 9007199254740992 {
        return n as u128;
    }
    let m: u128 = n as u128;
    let mut p: u128 = 1;
    let mut k: u64 = 0;
    while k < 64 && m / p >= 9007199254740992
        invariant
            k <= 64,
            p == two_pow(k as nat),
            1 <= p <= 18446744073709551616,
            ulp_from(m as nat, k as nat) == ulp_from(m as nat, 0),
            m <= 18446744073709551615,
        decreases 64 - k,
    {
        assert(p * 2 <= 18446744073709551616) by (nonlinear_arith)
            requires
                m / p >= 9007199254740992,
                m <= 18446744073709551615,
                p >= 1,
        ;
        p = p * 2;
        k = k + 1;
    }
    let q: u128 = m / p;
    let r: u128 = m % p;
    assert(q * p + r == m && r < p) by (nonlinear_arith)
        requires
            p >= 1,
            q == m / p,
            r == m % p,
    ;
    assert((q + 1) * p <= 36893488147419103232) by (nonlinear_arith)
        requires
            p >= 1,
            p <= 18446744073709551616,
            m <= 18446744073709551615,
            q * p + r == m,
            r < p,
    ;
    assert(q * p <= m) by (nonlinear_arith)
        requires
            q * p + r == m,
            r >= 0,
    ;
    if r * 2 > p || (r * 2 == p && q % 2 == 1) {
        (q + 1) * p
    } else {
        q * p
    }
}

fn push_unit(out: &mut String, i: u64)
    requires
        i <= 4,
    ensures
        final(out)@ == old(out)@ + unit_name(i as nat),
{
    if i == 0 {
        out.append("B");
    } else if i == 1 {
        out.append("KiB");
    } else if i == 2 {
        out.append("MiB");
    } else if i == 3 {
        out.append("GiB");
    } else {
        out.append("TiB");
    }
}

fn digit_of(d: u128) -> (c: char)
    requires
        d < 10,
    ensures
        c == digit_char(d as nat),
{
    let b: u8 = 48u8 + (d as u8);
    b as char
}

/// A byte count in the largest binary unit (B, KiB, MiB, GiB or TiB) that
/// keeps it at least 1: whole bytes as they are, other units with two
/// decimals.
pub fn humanize_bytes(n: u64) -> (s: String)
    ensures
        s@ == humanize_spec(n as nat),
{
    let f = float_value(n);
    let i: u64 = if f < 1024 {
        0
    } else if f < 1048576 {
        1
    } else if f < 1073741824 {
        2
    } else if f < 1099511627776 {
        3
    } else {
        4
    };
    let mut s = String::new();
    if i == 0 {
        push_decimal(&mut s, n);
        s.append(" ");
        push_unit(&mut s, 0);
        return s;
    }
    let d: u128 = if i == 1 {
        1024
    } else if i == 2 {
        1048576
    } else if i == 3 {
        1073741824
    } else {
        1099511627776
    };
    let f100: u128 = f * 100;
    let q0: u128 = f100 / d;
    let r: u128 = f100 % d;
    let h: u128 = if r * 2 > d || (r * 2 == d && q0 % 2 == 1) {
        q0 + 1
    } else {
        q0
    };
    assert(q0 <= f100 / 1024) by (nonlinear_arith)
        requires
            d >= 1024,
            q0 == f100 / d,
    ;
    assert(h / 100 <= 18446744073709551615) by (nonlinear_arith)
        requires
            h <= q0 + 1,
            q0 <= f100 / 1024,
            f100 == f * 100,
            f <= 36893488147419103232,
    ;
    let whole: u64 = (h / 100) as u64;
    push_decimal(&mut s, whole);
    s.push('.');
    s.push(digit_of((h % 100) / 10));
    s.push(digit_of(h % 10));
    s.append(" ");
    push_unit(&mut s, i);
    assert(s@ =~= humanize_spec(n as nat));
    s
}

} // verus!
