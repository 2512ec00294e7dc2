//! Exact integer account of how a byte count is shown to people.
//!
//! A size is shown in the largest of the units B, KB, MB, GB and TB (each
//! 1024 times the one before) in which it is at least one, with one decimal
//! place above bytes. The count is first rounded as a double-precision float
//! holds it, then divided by the unit, then rounded to tenths with ties to
//! even; these functions compute exactly that with integers.

use vstd::prelude::*;
use crate::text::{decimal, decimal_text, digit_char, digit_text};

verus! {

/// Numbers below this bound have an exact double-precision representation.
pub open spec fn exact_float_bound() -> nat {
    0x20_0000_0000_0000
}

/// The spacing of double-precision values around `b`: the least power of two
/// `p` with `b < 2^53 * p`.
pub open spec fn float_spacing(b: nat) -> nat
    decreases b,
{
    if b < exact_float_bound() {
        1
    } else {
        2 * float_spacing(b / 2)
    }
}

/// `n / d` rounded to the nearest integer, ties to the even one.
pub open spec fn round_half_even(n: nat, d: nat) -> nat
    recommends
        d > 0,
{
    let q = n / d;
    let r = n % d;
    if 2 * r > d || (2 * r == d && q % 2 == 1) {
        q + 1
    } else {
        q
    }
}

/// The value that converting the integer `b` to a double-precision float
/// gives: `b` rounded to 53 significant bits, ties to even.
pub open spec fn nearest_double(b: nat) -> nat {
    round_half_even(b, float_spacing(b)) * float_spacing(b)
}

/// The size of the `k`-th unit in bytes: 1024 to the power `k`.
pub open spec fn unit_divisor(k: nat) -> nat
    decreases k,
{
    if k == 0 {
        1
    } else {
        1024 * unit_divisor((k - 1) as nat)
    }
}

/// The name of the `k`-th unit.
pub open spec fn unit_name(k: nat) -> Seq<char> {
    if k == 0 {
        "B"@
    } else if k == 1 {
        "KB"@
    } else if k == 2 {
        "MB"@
    } else if k == 3 {
        "GB"@
    } else {
        "TB"@
    }
}

/// Starting from unit `k`, the unit a value `m` ends in: the next unit is
/// taken while `m` is at least one of it and a larger unit exists.
pub open spec fn unit_from(m: nat, k: nat) -> nat
    decreases 4 - k,
{
    if k < 4 && m >= unit_divisor(k + 1) {
        unit_from(m, k + 1)
    } else {
        k
    }
}

/// The unit in which the size `bytes` is shown.
pub open spec fn display_unit(bytes: nat) -> nat {
    unit_from(nearest_double(bytes), 0)
}

/// The text that shows `bytes` to people: the exact count and `B` below
/// 1024, else the value in its unit rounded to tenths, a space and the unit.
pub open spec fn size_text(bytes: nat) -> Seq<char> {
    let m = nearest_double(bytes);
    let k = display_unit(bytes);
    if k == 0 {
        decimal(bytes) + " "@ + unit_name(0)
    } else {
        let t = round_half_even(10 * m, unit_divisor(k));
        decimal(t / 10) + "."@ + seq![digit_char(t % 10)] + " "@ + unit_name(k)
    }
}

proof fn lemma_float_spacing(b: nat)
    ensures
        float_spacing(b) >= 1,
        b >= exact_float_bound() ==> float_spacing(b) * 0x10_0000_0000_0000 <= b,
    decreases b,
{
    if b >= exact_float_bound() {
        lemma_float_spacing(b / 2);
        let f = float_spacing(b / 2);
        if b / 2 >= exact_float_bound() {
            assert(2 * f * 0x10_0000_0000_0000 <= b) by (nonlinear_arith)
                requires
                    f * 0x10_0000_0000_0000 <= b / 2,
            ;
        }
    }
}

/// Sizes below 2^53 bytes convert to double precision exactly.
pub proof fn lemma_small_sizes_exact(b: nat)
    requires
        b < exact_float_bound(),
    ensures
        nearest_double(b) == b,
{
    assert(float_spacing(b) == 1);
    assert(b / 1 == b && b % 1 == 0) by (nonlinear_arith);
    assert(round_half_even(b, 1) == b);
    assert(b * 1 == b);
}

/// A size is shown in the largest of the units B, KB, MB, GB and TB that it
/// reaches (KB from 1024 bytes, MB from 1024 KB, and so on); below 1024 bytes
/// it is shown as the exact count followed by ` B`.
pub proof fn lemma_display_unit(b: nat)
    requires
        b <= u64::MAX,
    ensures
        display_unit(b) == (if b < 1024 {
            0nat
        } else if b < 1048576 {
            1nat
        } else if b < 1073741824 {
            2nat
        } else if b < 1099511627776 {
            3nat
        } else {
            4nat
        }),
        b < 1024 ==> size_text(b) == decimal(b) + " "@ + unit_name(0),
{
    lemma_unit_divisors();
    lemma_float_spacing(b);
    let m = nearest_double(b);
    if b >= exact_float_bound() {
        let p = float_spacing(b);
        assert(p <= 4096) by (nonlinear_arith)
            requires
                p * 0x10_0000_0000_0000 <= b,
                b <= u64::MAX,
        ;
        let q = b / p;
        assert(round_half_even(b, p) >= q);
        assert(q * p > b - p) by (nonlinear_arith)
            requires
                q == b / p,
                p >= 1,
        ;
        assert(m >= q * p) by (nonlinear_arith)
            requires
                m == round_half_even(b, p) * p,
                round_half_even(b, p) >= q,
                p >= 1,
        ;
        assert(m >= 1099511627776);
    } else {
        lemma_small_sizes_exact(b);
    }
    assert(unit_from(m, 4) == 4);
    assert(unit_from(m, 3) == if m >= 1099511627776 { 4nat } else { 3nat });
    assert(unit_from(m, 2) == if m >= 1073741824 { unit_from(m, 3) } else { 2nat });
    assert(unit_from(m, 1) == if m >= 1048576 { unit_from(m, 2) } else { 1nat });
    assert(unit_from(m, 0) == if m >= 1024 { unit_from(m, 1) } else { 0nat });
}

proof fn lemma_unit_divisors()
    ensures
        unit_divisor(0) == 1,
        unit_divisor(1) == 1024,
        unit_divisor(2) == 1048576,
        unit_divisor(3) == 1073741824,
        unit_divisor(4) == 1099511627776,
{
    reveal_with_fuel(unit_divisor, 5);
}

fn unit_text(k: usize) -> (s: &'static str)
    requires
        k <= 4,
    ensures
        s@ == unit_name(k as nat),
{
    if k == 0 {
        "B"
    } else if k == 1 {
        "KB"
    } else if k == 2 {
        "MB"
    } else if k == 3 {
        "GB"
    } else {
        "TB"
    }
}

fn round_half_even_exec(n: u128, d: u128) -> (r: u128)
    requires
        d > 0,
        n < 0x1_0000_0000_0000_0000_0000_0000_0000,
    ensures
        r == round_half_even(n as nat, d as nat),
{
    let q = n / d;
    let rem = n % d;
    assert(q <= n) by (nonlinear_arith)
        requires
            q == n / d,
            d > 0,
    ;
    if (rem > d - rem) || (rem == d - rem && q % 2 == 1) {
        q + 1
    } else {
        q
    }
}

/// The value that `b as f64` holds, as an exact integer.
pub fn nearest_double_exec(b: u64) -> (m: u128)
    ensures
        m == nearest_double(b as nat),
        m <= b as nat + 4096,
{
    let mut q: u64 = b;
    let mut p: u128 = 1;
    while q >= 0x20_0000_0000_0000
        invariant
            1 <= p <= 4096,
            q as nat == b as nat / (p as nat),
            float_spacing(b as nat) == p * float_spacing(q as nat),
            p * 0x20_0000_0000_0000 <= 2 * (b as nat) || p == 1,
        decreases q,
    {
        proof {
            vstd::arithmetic::div_mod::lemma_div_denominator(b as int, p as int, 2);
            assert(p * (q as nat) <= b as nat) by (nonlinear_arith)
                requires
                    q as nat == b as nat / (p as nat),
                    p >= 1,
            ;
            assert(p * 0x20_0000_0000_0000 <= b as nat) by (nonlinear_arith)
                requires
                    p * (q as nat) <= b as nat,
                    q >= 0x20_0000_0000_0000,
                    p >= 1,
            ;
            assert(p < 2048) by (nonlinear_arith)
                requires
                    p * 0x20_0000_0000_0000 <= b as nat,
                    b < 0x1_0000_0000_0000_0000,
            ;
            let fq = float_spacing((q / 2) as nat);
            assert(float_spacing(q as nat) == 2 * fq);
            assert(p * (2 * fq) == (p * 2) * fq) by (nonlinear_arith);
        }
        q = q / 2;
        p = p * 2;
    }
    assert(float_spacing(q as nat) == 1);
    assert(float_spacing(b as nat) == p) by (nonlinear_arith)
        requires
            float_spacing(b as nat) == p * float_spacing(q as nat),
            float_spacing(q as nat) == 1,
    ;
    let r = round_half_even_exec(b as u128, p);
    proof {
        assert(r <= (b as nat) / (p as nat) + 1);
        assert(r * p <= b as nat + p) by (nonlinear_arith)
            requires
                r <= (b as nat) / (p as nat) + 1,
                p >= 1,
        ;
    }
    r * p
}

/// The text that shows `bytes` to people (see [`size_text`]).
pub(crate) fn size_text_exec(bytes: u64) -> (s: String)
    ensures
        s@ == size_text(bytes as nat),
{
    let m = nearest_double_exec(bytes);
    proof {
        lemma_unit_divisors();
    }
    let mut k: usize = 0;
    let mut div: u128 = 1;
    while k < 4 && m >= div * 1024
        invariant
            k <= 4,
            div == unit_divisor(k as nat),
            div <= 1099511627776,
            unit_from(m as nat, 0) == unit_from(m as nat, k as nat),
            unit_divisor(0) == 1,
            unit_divisor(1) == 1024,
            unit_divisor(2) == 1048576,
            unit_divisor(3) == 1073741824,
            unit_divisor(4) == 1099511627776,
        decreases 4 - k,
    {
        assert(unit_divisor((k + 1) as nat) == 1024 * unit_divisor(k as nat));
        k = k + 1;
        div = div * 1024;
    }
    assert(unit_divisor((k + 1) as nat) == 1024 * unit_divisor(k as nat));
    assert(unit_from(m as nat, k as nat) == k);
    if k == 0 {
        let mut s = decimal_text(bytes as u128);
        s.append(" ");
        s.append(unit_text(0));
        s
    } else {
        assert(div >= 1024) by {
            if k == 1 {} else if k == 2 {} else if k == 3 {} else {}
        }
        let t = round_half_even_exec(10 * m, div);
        let mut s = decimal_text(t / 10);
        s.append(".");
        s.append(digit_text((t % 10) as u8));
        s.append(" ");
        s.append(unit_text(k));
        s
    }
}

} // verus!
