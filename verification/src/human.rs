//! Human-readable sizes (`ls -lh`): a number of bytes scaled by powers of
//! 1024 and rounded as double-precision division and formatting round it,
//! computed exactly on integers.

use vstd::prelude::*;
use crate::text::{digits, decimal, lemma_digits_len, push_decimal_wide, string_from_chars};

verus! {

/// `n / d` rounded to the nearest integer, ties to even.
pub open spec fn round_half_even(n: nat, d: nat) -> nat {
    let q = n / d;
    let r = n % d;
    if 2 * r > d || (2 * r == d && q % 2 == 1) {
        q + 1
    } else {
        q
    }
}

/// The power of two by which `b` must be divided to fit in 53 bits.
pub open spec fn double_divisor(b: nat) -> nat
    decreases b,
{
    if b < 0x20_0000_0000_0000 {
        1
    } else {
        2 * double_divisor(b / 2)
    }
}

/// The value of `b` as an IEEE-754 double: rounded to 53 significant bits,
/// ties to even.
pub open spec fn as_double(b: nat) -> nat {
    let d = double_divisor(b);
    round_half_even(b, d) * d
}

/// How many times the size is divided by 1024: one step for every three
/// decimal digits after the first, at most five.
pub open spec fn human_scale(bytes: nat) -> nat {
    let n = digits(bytes).len();
    let s: nat = if n == 0 { 0 } else { ((n - 1) / 3) as nat };
    if s > 5 { 5 } else { s }
}

/// `1024` to the power `s`.
pub open spec fn kib_power(s: nat) -> nat
    decreases s,
{
    if s == 0 {
        1
    } else {
        1024 * kib_power((s - 1) as nat)
    }
}

/// The unit letter for a scale.
pub open spec fn unit_char(s: nat) -> char {
    if s == 0 {
        'B'
    } else if s == 1 {
        'K'
    } else if s == 2 {
        'M'
    } else if s == 3 {
        'G'
    } else if s == 4 {
        'T'
    } else {
        'P'
    }
}

/// The text of a human-readable size. With `v` the size as a double and
/// `d` the divisor of its scale: below three digits, or when the scaled value
/// has two or more integer digits, the scaled value rounded half up to an
/// integer; otherwise the scaled value with one decimal, rounded half to
/// even. The unit letter follows.
pub open spec fn human_text(bytes: nat) -> Seq<char> {
    let v = as_double(bytes);
    let s = human_scale(bytes);
    let d = kib_power(s);
    let ip = v / d;
    if digits(bytes).len() < 3 || ip >= 10 {
        let rounded = if 2 * (v % d) < d { ip } else { ip + 1 };
        digits(rounded).push(unit_char(s))
    } else {
        let t = round_half_even(10 * v, d);
        digits(t / 10) + seq!['.'] + digits(t % 10).push(unit_char(s))
    }
}

fn round_half_even_exec(n: u128, d: u128) -> (r: u128)
    requires
        0 < d <= 0x1_0000_0000_0000_0000_0000,
        n <= 0x1_0000_0000_0000_0000_0000_0000,
    ensures
        r == round_half_even(n as nat, d as nat),
{
    let q = n / d;
    let rem = n % d;
    if 2 * rem > d || (2 * rem == d && q % 2 == 1) {
        q + 1
    } else {
        q
    }
}

proof fn lemma_double_step(b: nat, d: nat)
    requires
        d > 0,
        b / d >= 0x20_0000_0000_0000,
        double_divisor(b) == d * double_divisor(b / d),
    ensures
        double_divisor(b) == (2 * d) * double_divisor(b / (2 * d)),
        b / (2 * d) < b / d,
        2 * d <= b,
{
    vstd::arithmetic::div_mod::lemma_div_denominator(b as int, d as int, 2);
    assert(d * 2 == 2 * d) by (nonlinear_arith);
    let x = double_divisor(b / d / 2);
    assert(d * (2 * x) == (2 * d) * x) by (nonlinear_arith);
    vstd::arithmetic::div_mod::lemma_fundamental_div_mod(b as int, d as int);
    assert(d * (b / d) >= d * 2) by (nonlinear_arith)
        requires b / d >= 2, d > 0;
    assert(b / d / 2 < b / d);
}

proof fn lemma_double_bound(b: nat, d: nat)
    requires
        d > 0,
        d <= b || d == 1,
    ensures
        round_half_even(b, d) * d <= 2 * b + 1,
{
    let q = b / d;
    vstd::arithmetic::div_mod::lemma_fundamental_div_mod(b as int, d as int);
    assert((q + 1) * d == q * d + d) by (nonlinear_arith);
    assert(q * d == d * q) by (nonlinear_arith);
}

proof fn lemma_kib_values()
    ensures
        kib_power(0) == 1,
        kib_power(1) == 0x400,
        kib_power(2) == 0x10_0000,
        kib_power(3) == 0x4000_0000,
        kib_power(4) == 0x100_0000_0000,
        kib_power(5) == 0x4_0000_0000_0000,
{
    reveal_with_fuel(kib_power, 6);
}

/// The value of `b` as a double, computed exactly.
fn double_value(b: u64) -> (v: u128)
    ensures
        v == as_double(b as nat),
        v <= 2 * (b as nat) + 1,
{
    let wide = b as u128;
    let mut d: u128 = 1;
    while wide / d >= 0x20_0000_0000_0000
        invariant
            d > 0,
            wide == b as u128,
            d <= wide || d == 1,
            double_divisor(b as nat) == d * double_divisor((b as nat) / (d as nat)),
        decreases wide / d,
    {
        proof {
            lemma_double_step(b as nat, d as nat);
        }
        d = 2 * d;
    }
    assert(double_divisor((b as nat) / (d as nat)) == 1);
    assert(double_divisor(b as nat) == d) by (nonlinear_arith)
        requires
            double_divisor(b as nat) == d * double_divisor((b as nat) / (d as nat)),
            double_divisor((b as nat) / (d as nat)) == 1,
    ;
    proof {
        lemma_double_bound(b as nat, d as nat);
    }
    let q = round_half_even_exec(wide, d);
    q * d
}

/// Formats a byte count as `ls -h` does, such as `512B`, `1.5K` or `12M`.
pub fn format_human(bytes: u64) -> (s: String)
    ensures
        s@ == human_text(bytes as nat),
{
    let numeral = decimal(bytes);
    let n = numeral.len();
    proof {
        lemma_digits_len(bytes as nat);
    }
    let mut scale: usize = if n == 0 { 0 } else { (n - 1) / 3 };
    if scale > 5 {
        scale = 5;
    }
    proof {
        lemma_kib_values();
    }
    let d: u128 = if scale == 0 {
        1
    } else if scale == 1 {
        0x400
    } else if scale == 2 {
        0x10_0000
    } else if scale == 3 {
        0x4000_0000
    } else if scale == 4 {
        0x100_0000_0000
    } else {
        0x4_0000_0000_0000
    };
    let v = double_value(bytes);
    let ip = v / d;
    let unit = if scale == 0 {
        'B'
    } else if scale == 1 {
        'K'
    } else if scale == 2 {
        'M'
    } else if scale == 3 {
        'G'
    } else if scale == 4 {
        'T'
    } else {
        'P'
    };
    let mut out: Vec<char> = Vec::new();
    if n < 3 || ip >= 10 {
        let rounded = if 2 * (v % d) < d { ip } else { ip + 1 };
        push_decimal_wide(&mut out, rounded);
        out.push(unit);
    } else {
        let t = round_half_even_exec(10 * v, d);
        push_decimal_wide(&mut out, t / 10);
        out.push('.');
        push_decimal_wide(&mut out, t % 10);
        out.push(unit);
    }
    assert(out@ =~= human_text(bytes as nat));
    string_from_chars(&out)
}

} // verus!

verus! {

/// Sizes below a thousand bytes are shown exactly, in bytes.
pub proof fn lemma_human_small(bytes: nat)
    requires
        bytes < 1000,
    ensures
        human_text(bytes) == digits(bytes).push('B'),
{
    lemma_digits_len(bytes);
    lemma_kib_values();
    assert(double_divisor(bytes) == 1);
    assert(bytes / 1 == bytes && bytes % 1 == 0);
    assert(as_double(bytes) == bytes);
}

} // verus!
