//! Compact token counts with SI suffixes (`999`, `1.20K`, `80.0K`, `12.3M`,
//! `1,234G`), as the host prints them in prompts.
use crate::text::{dec, push_all, push_u64, u64_decimal};
use vstd::prelude::*;

verus! {

/// `a / b` rounded half away from zero, for `a >= 0`, `b > 0`.
pub open spec fn round_div(a: int, b: int) -> int {
    (2 * a + b) / (2 * b)
}

/// `v` with `frac` fractional digits shown (`v / 10^frac`, zero-padded).
pub open spec fn fixed_text(v: nat, frac: nat) -> Seq<char> {
    if frac == 0 {
        dec(v)
    } else if frac == 1 {
        dec(v / 10) + seq!['.'] + dec(v % 10)
    } else {
        dec(v / 100) + seq!['.'] + dec((v % 100) / 10) + dec(v % 10)
    }
}

/// `v` with `,` between groups of three digits.
pub open spec fn grouped(v: nat) -> Seq<char>
    decreases v,
{
    if v < 1000 {
        dec(v)
    } else {
        grouped(v / 1000) + seq![','] + dec((v % 1000) / 100) + dec((v % 100) / 10) + dec(v % 10)
    }
}

/// The suffixed text for `n >= 1000` at one scale, if the scale fits.
pub open spec fn at_scale(n: int, scale: int, suffix: char) -> Option<Seq<char>> {
    if round_div(100 * n, scale) < 1000 {
        Some(fixed_text(round_div(100 * n, scale) as nat, 2).push(suffix))
    } else if round_div(10 * n, scale) < 1000 {
        Some(fixed_text(round_div(10 * n, scale) as nat, 1).push(suffix))
    } else if round_div(n, scale) < 1000 {
        Some(fixed_text(round_div(n, scale) as nat, 0).push(suffix))
    } else {
        None
    }
}

/// The SI-suffixed text of a token count; negative counts print as `0`.
pub open spec fn si_text(n: int) -> Seq<char> {
    let m = if n < 0 {
        0
    } else {
        n
    };
    if m < 1000 {
        dec(m as nat)
    } else {
        match at_scale(m, 1000, 'K') {
            Some(t) => t,
            None => match at_scale(m, 1000000, 'M') {
                Some(t) => t,
                None => match at_scale(m, 1000000000, 'G') {
                    Some(t) => t,
                    None => grouped(round_div(m, 1000000000) as nat).push('G'),
                },
            },
        }
    }
}

fn push_fixed(v: &mut Vec<char>, x: u64, frac: u64)
    requires
        frac <= 2,
    ensures
        final(v)@ == old(v)@ + fixed_text(x as nat, frac as nat),
{
    if frac == 0 {
        push_u64(v, x);
    } else if frac == 1 {
        push_u64(v, x / 10);
        v.push('.');
        push_u64(v, x % 10);
        assert(final(v)@ =~= old(v)@ + fixed_text(x as nat, frac as nat));
    } else {
        push_u64(v, x / 100);
        v.push('.');
        push_u64(v, (x % 100) / 10);
        push_u64(v, x % 10);
        assert(final(v)@ =~= old(v)@ + fixed_text(x as nat, frac as nat));
    }
}

/// `v` with `,` between groups of three digits.
pub fn grouped_decimal(x: u64) -> (r: Vec<char>)
    ensures
        r@ == grouped(x as nat),
    decreases x,
{
    if x < 1000 {
        u64_decimal(x)
    } else {
        let mut r = grouped_decimal(x / 1000);
        r.push(',');
        push_u64(&mut r, (x % 1000) / 100);
        push_u64(&mut r, (x % 100) / 10);
        push_u64(&mut r, x % 10);
        assert(r@ =~= grouped(x as nat));
        r
    }
}

/// The text at one scale, if the rounded value stays below 1000.
fn try_scale(n: u64, scale: u64, suffix: char) -> (r: Option<Vec<char>>)
    requires
        1000 <= n,
        n <= i64::MAX,
        scale == 1000 || scale == 1000000 || scale == 1000000000,
    ensures
        match at_scale(n as int, scale as int, suffix) {
            Some(t) => r matches Some(v) && v@ == t,
            None => r is None,
        },
{
    let n128 = n as u128;
    let s128 = scale as u128;
    let r2 = (2 * (100 * n128) + s128) / (2 * s128);
    if r2 < 1000 {
        let mut v: Vec<char> = Vec::new();
        push_fixed(&mut v, r2 as u64, 2);
        v.push(suffix);
        assert(v@ =~= fixed_text(r2 as nat, 2).push(suffix));
        return Some(v);
    }
    let r1 = (2 * (10 * n128) + s128) / (2 * s128);
    if r1 < 1000 {
        let mut v: Vec<char> = Vec::new();
        push_fixed(&mut v, r1 as u64, 1);
        v.push(suffix);
        assert(v@ =~= fixed_text(r1 as nat, 1).push(suffix));
        return Some(v);
    }
    let r0 = (2 * n128 + s128) / (2 * s128);
    if r0 < 1000 {
        let mut v: Vec<char> = Vec::new();
        push_fixed(&mut v, r0 as u64, 0);
        v.push(suffix);
        assert(v@ =~= fixed_text(r0 as nat, 0).push(suffix));
        return Some(v);
    }
    None
}

/// The SI-suffixed text of a token count (`format_si_suffix`).
pub fn format_si_suffix(n: i64) -> (r: Vec<char>)
    ensures
        r@ == si_text(n as int),
{
    let m: u64 = if n < 0 {
        0
    } else {
        n as u64
    };
    if m < 1000 {
        return u64_decimal(m);
    }
    match try_scale(m, 1000, 'K') {
        Some(t) => t,
        None => match try_scale(m, 1000000, 'M') {
            Some(t) => t,
            None => match try_scale(m, 1000000000, 'G') {
                Some(t) => t,
                None => {
                    let g = (2 * (m as u128) + 1000000000) / 2000000000;
                    let mut r = grouped_decimal(g as u64);
                    r.push('G');
                    r
                },
            },
        },
    }
}

/// Appends the SI-suffixed text of a token count.
pub fn push_si(v: &mut Vec<char>, n: i64)
    ensures
        final(v)@ == old(v)@ + si_text(n as int),
{
    let t = format_si_suffix(n);
    push_all(v, &t);
}

} // verus!
