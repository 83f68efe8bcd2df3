//! Human-readable byte sizes: `B` below 1024, otherwise `KB`, `MB` or `GB`
//! with one decimal, rounded as a floating-point `{:.1}` rendering would.

use vstd::prelude::*;
use vstd::string::*;

use crate::text::{decimal, digit_char, push_char, push_decimal, push_str};

verus! {

/// `2^e`.
pub open spec fn two_pow(e: nat) -> nat
    decreases e,
{
    if e == 0 {
        1
    } else {
        2 * two_pow((e - 1) as nat)
    }
}

/// How many low bits of `n` do not fit in the 53-bit significand of an `f64`.
pub open spec fn f64_dropped_bits(n: nat) -> nat
    decreases n,
{
    if n < 0x20_0000_0000_0000 {
        0
    } else {
        1 + f64_dropped_bits(n / 2)
    }
}

/// `num / den` rounded to the nearest integer, ties to even.
pub open spec fn round_half_even(num: nat, den: nat) -> nat {
    let q = num / den;
    let r = num % den;
    if 2 * r > den || (2 * r == den && q % 2 == 1) {
        q + 1
    } else {
        q
    }
}

/// The value of `n as f64` (round to nearest, ties to even).
pub open spec fn f64_value(n: nat) -> nat {
    let e = f64_dropped_bits(n);
    round_half_even(n, two_pow(e)) * two_pow(e)
}

/// The power of 1024 of the unit chosen for a value `v`: KB, MB, then GB.
pub open spec fn size_unit_power(v: nat) -> nat {
    if v < 1024 * 1024 {
        1
    } else if v < 1024 * 1024 * 1024 {
        2
    } else {
        3
    }
}

pub open spec fn unit_divisor(k: nat) -> nat {
    if k == 1 {
        1024
    } else if k == 2 {
        1024 * 1024
    } else {
        1024 * 1024 * 1024
    }
}

pub open spec fn unit_name(k: nat) -> Seq<char> {
    if k == 1 {
        "KB"@
    } else if k == 2 {
        "MB"@
    } else {
        "GB"@
    }
}

/// The display of a byte count: `N B` below 1024, otherwise the value in the
/// largest unit up to GB that keeps it under 1024 (GB beyond), with one
/// decimal rounded half to even.
pub open spec fn size_text(bytes: u64) -> Seq<char> {
    if bytes < 1024 {
        decimal(bytes as nat) + " B"@
    } else {
        let v = f64_value(bytes as nat);
        let k = size_unit_power(v);
        let t = round_half_even(10 * v, unit_divisor(k));
        decimal(t / 10) + seq!['.', digit_char(t % 10), ' '] + unit_name(k)
    }
}

fn round_half_even_u128(num: u128, den: u128) -> (r: u128)
    requires
        den > 0,
        den < 0x1000_0000_0000_0000_0000_0000_0000_0000,
        num < 0x1000_0000_0000_0000_0000_0000_0000_0000,
    ensures
        r == round_half_even(num as nat, den as nat),
{
    let q = num / den;
    let r = num % den;
    if 2 * r > den || (2 * r == den && q % 2 == 1) {
        q + 1
    } else {
        q
    }
}

/// `n as f64`, as an exact integer.
fn f64_value_exec(n: u64) -> (v: u128)
    ensures
        v == f64_value(n as nat),
        v <= 2 * (n as nat),
{
    let mut m: u128 = n as u128;
    let mut pw: u128 = 1;
    let ghost mut e: nat = 0;
    while m >= 0x20_0000_0000_0000
        invariant
            m == (n as nat) / (pw as nat),
            pw == two_pow(e),
            pw >= 1,
            pw == 1 || pw <= n,
            pw * m <= n,
            f64_dropped_bits(n as nat) == e + f64_dropped_bits(m as nat),
        decreases m,
    {
        proof {
            vstd::arithmetic::div_mod::lemma_div_denominator(n as int, pw as int, 2);
            assert(pw * 2 <= n) by (nonlinear_arith)
                requires
                    pw * m <= n,
                    m >= 2,
            ;
            assert((pw * 2) * (m / 2) <= pw * m) by (nonlinear_arith)
                requires
                    pw >= 1,
            ;
        }
        m = m / 2;
        pw = pw * 2;
        proof {
            e = e + 1;
        }
    }
    proof {
        vstd::arithmetic::div_mod::lemma_fundamental_div_mod(n as int, pw as int);
    }
    let q = round_half_even_u128(n as u128, pw);
    proof {
        let nq = (n as nat) / (pw as nat);
        assert(q <= nq + 1);
        assert(pw * nq <= n);
        if pw == 1 {
            assert(nq == n);
            assert((n as nat) % 1 == 0);
            assert(q == n);
        } else {
            assert(q * pw <= 2 * (n as nat)) by (nonlinear_arith)
                requires
                    q <= nq + 1,
                    pw * nq <= n,
                    pw <= n,
            ;
        }
    }
    q * pw
}

fn digit_of(d: u128) -> (c: char)
    requires
        d < 10,
    ensures
        c == digit_char(d as nat),
{
    let b = d as u8;
    (48 + b) as char
}

/// Format a byte count: `<1024` → `"N B"`, else `KB`/`MB`/`GB` with one
/// decimal.
pub fn fmt_size(bytes: u64) -> (s: String)
    ensures
        s@ == size_text(bytes),
{
    if bytes < 1024 {
        let mut s = String::new();
        push_decimal(&mut s, bytes);
        push_str(&mut s, " B");
        assert(s@ =~= size_text(bytes));
        return s;
    }
    let v = f64_value_exec(bytes);
    let (den, unit): (u128, &str) = if v < 1024 * 1024 {
        (1024, "KB")
    } else if v < 1024 * 1024 * 1024 {
        (1024 * 1024, "MB")
    } else {
        (1024 * 1024 * 1024, "GB")
    };
    let t = round_half_even_u128(10 * v, den);
    proof {
        let k = size_unit_power(v as nat);
        assert(den == unit_divisor(k));
        vstd::arithmetic::div_mod::lemma_div_is_ordered_by_denominator(
            (10 * v) as int,
            1024,
            den as int,
        );
        assert(t <= (10 * v) / 1024 + 1);
        assert(t / 10 <= 0xffff_ffff_ffff_ffff);
    }
    let whole = (t / 10) as u64;
    let mut s = String::new();
    push_decimal(&mut s, whole);
    push_char(&mut s, '.');
    push_char(&mut s, digit_of(t % 10));
    push_char(&mut s, ' ');
    push_str(&mut s, unit);
    assert(s@ =~= size_text(bytes));
    s
}

} // verus!
