//! Numbers of documents, without floating point.

use crate::json::JsonNumber;
use crate::math::{power_of_two, powers_grow};
use vstd::prelude::*;

verus! {

/// The significand of a double, as an integer.
pub open spec fn significand(bits: u64) -> nat {
    if (bits / 0x10_0000_0000_0000) % 2048 == 0 {
        (bits % 0x10_0000_0000_0000) as nat
    } else {
        (bits % 0x10_0000_0000_0000 + 0x10_0000_0000_0000) as nat
    }
}

/// The power of two that a double's significand is scaled by.
pub open spec fn exponent(bits: u64) -> int {
    let stored = (bits / 0x10_0000_0000_0000) % 2048;
    (if stored == 0 {
        1
    } else {
        stored as int
    }) - 1075
}

/// A finite double, rounded to the nearest integer, halves away from 0, and held
/// to the range of 64 bits without a sign.
pub open spec fn rounded_bits(bits: u64) -> nat {
    if bits >= 0x8000_0000_0000_0000 {
        0
    } else if exponent(bits) >= 0 {
        let value = significand(bits) * power_of_two(exponent(bits) as nat);
        if value <= u64::MAX {
            value
        } else {
            u64::MAX as nat
        }
    } else {
        let unit = power_of_two((-exponent(bits)) as nat);
        ((2 * significand(bits) + unit) / (2 * unit)) as nat
    }
}

/// A number as a count: a whole number as it is, any other rounded; 0 where it
/// is negative.
pub open spec fn rounded(n: JsonNumber) -> nat {
    match n {
        JsonNumber::Unsigned(u) => u as nat,
        JsonNumber::Negative(_) => 0,
        JsonNumber::Float(bits) => rounded_bits(bits),
    }
}

proof fn power_of_55()
    ensures
        power_of_two(12) == 4096,
        power_of_two(55) == 0x80_0000_0000_0000,
{
    reveal_with_fuel(power_of_two, 56);
}

/// A power of two.
fn power(k: i64) -> (r: u128)
    requires
        0 <= k < 55,
    ensures
        r == power_of_two(k as nat),
        0 < r <= 0x80_0000_0000_0000,
{
    let mut unit: u128 = 1;
    let mut i: i64 = 0;
    while i < k
        invariant
            0 <= i <= k < 55,
            unit == power_of_two(i as nat),
            0 < unit <= 0x80_0000_0000_0000,
        decreases k - i,
    {
        proof {
            power_of_55();
            powers_grow((i + 1) as nat, 55);
        }
        unit = unit * 2;
        i = i + 1;
    }
    unit
}

/// The significand of a double and its exponent.
fn parts(bits: u64) -> (r: (u64, i64))
    ensures
        r.0 == significand(bits),
        r.1 == exponent(bits),
        r.0 < 0x20_0000_0000_0000,
        r.1 > -1074 ==> r.0 >= 0x10_0000_0000_0000,
        -1074 <= r.1 <= 972,
{
    let stored: u64 = (bits / 0x10_0000_0000_0000) % 2048;
    let fraction: u64 = bits % 0x10_0000_0000_0000;
    if stored == 0 {
        (fraction, -1074)
    } else {
        (fraction + 0x10_0000_0000_0000, stored as i64 - 1075)
    }
}

fn round_bits(bits: u64) -> (r: u64)
    ensures
        r == rounded_bits(bits),
{
    if bits >= 0x8000_0000_0000_0000 {
        return 0;
    }
    let (m, e): (u64, i64) = parts(bits);
    if e >= 12 {
        proof {
            power_of_55();
            powers_grow(12, e as nat);
            let p = power_of_two(e as nat);
            assert(m * p >= 0x10_0000_0000_0000 * 4096) by (nonlinear_arith)
                requires
                    m >= 0x10_0000_0000_0000,
                    p >= 4096,
            ;
        }
        return u64::MAX;
    }
    if e >= 0 {
        let mut value: u64 = m;
        let mut i: i64 = 0;
        proof {
            assert(m * power_of_two(0) == m) by (nonlinear_arith)
                requires
                    power_of_two(0) == 1,
            ;
        }
        while i < e
            invariant
                0 <= i <= e < 12,
                value == m * power_of_two(i as nat),
                m < 0x20_0000_0000_0000,
                m == significand(bits),
                e == exponent(bits),
                bits < 0x8000_0000_0000_0000,
            decreases e - i,
        {
            proof {
                power_of_55();
                powers_grow((i + 1) as nat, 11);
                reveal_with_fuel(power_of_two, 13);
                let p = power_of_two(i as nat);
                assert(power_of_two((i + 1) as nat) == 2 * p);
                assert(2 * (m * p) == m * (2 * p)) by (nonlinear_arith);
                assert(m * (2 * p) <= (0x20_0000_0000_0000 - 1) * 2048) by (nonlinear_arith)
                    requires
                        m < 0x20_0000_0000_0000,
                        2 * p <= 2048,
                ;
            }
            value = value * 2;
            i = i + 1;
        }
        return value;
    }
    let k: i64 = -e;
    if k >= 55 {
        proof {
            power_of_55();
            powers_grow(55, k as nat);
            let unit = power_of_two(k as nat);
            let n = 2 * m as int + unit as int;
            let d = 2 * unit as int;
            assert(n / d == 0) by (nonlinear_arith)
                requires
                    0 <= n < d,
            ;
        }
        return 0;
    }
    let unit: u128 = power(k);
    proof {
        powers_grow(0, k as nat);
        let n = 2 * m as int + unit as int;
        let d = 2 * unit as int;
        assert(n / d <= n) by (nonlinear_arith)
            requires
                n >= 0,
                d >= 1,
        ;
    }
    ((2 * m as u128 + unit) / (2 * unit)) as u64
}

/// A number as a count.
pub fn round_number(n: JsonNumber) -> (r: u64)
    ensures
        r == rounded(n),
{
    match n {
        JsonNumber::Unsigned(u) => u,
        JsonNumber::Negative(_) => 0,
        JsonNumber::Float(bits) => round_bits(bits),
    }
}

/// Whether a number is greater than a whole number.
pub open spec fn is_above(n: JsonNumber, bound: nat) -> bool {
    match n {
        JsonNumber::Unsigned(u) => u > bound,
        JsonNumber::Negative(_) => false,
        JsonNumber::Float(bits) => bits < 0x8000_0000_0000_0000 && if exponent(bits) >= 0 {
            significand(bits) * power_of_two(exponent(bits) as nat) > bound
        } else {
            significand(bits) > bound * power_of_two((-exponent(bits)) as nat)
        },
    }
}

/// Whether a number is greater than a small whole number.
pub fn above(n: JsonNumber, bound: u32) -> (r: bool)
    ensures
        r == is_above(n, bound as nat),
{
    let bits: u64 = match n {
        JsonNumber::Unsigned(u) => return u > bound as u64,
        JsonNumber::Negative(_) => return false,
        JsonNumber::Float(bits) => bits,
    };
    if bits >= 0x8000_0000_0000_0000 {
        return false;
    }
    let (m, e): (u64, i64) = parts(bits);
    if e >= 0 {
        proof {
            powers_grow(0, e as nat);
            let p = power_of_two(e as nat);
            assert(m * p >= m) by (nonlinear_arith)
                requires
                    p >= 1,
                    m >= 0,
            ;
        }
        return true;
    }
    if -e >= 55 {
        proof {
            power_of_55();
            powers_grow(55, (-e) as nat);
            let p = power_of_two((-e) as nat);
            if bound == 0 {
                assert(0 * p == 0) by (nonlinear_arith);
            } else {
                assert(bound * p >= p) by (nonlinear_arith)
                    requires
                        bound >= 1,
                        p >= 0,
                ;
            }
        }
        return bound == 0 && m > 0;
    }
    let unit: u128 = power(-e);
    proof {
        assert(0 <= bound * unit <= 0xffff_ffff * 0x80_0000_0000_0000) by (nonlinear_arith)
            requires
                0 <= bound <= 0xffff_ffff,
                0 <= unit <= 0x80_0000_0000_0000,
        ;
    }
    m as u128 > bound as u128 * unit
}

/// Whether a number is a half or more.
pub open spec fn is_half(n: JsonNumber) -> bool {
    match n {
        JsonNumber::Unsigned(u) => u > 0,
        JsonNumber::Negative(_) => false,
        JsonNumber::Float(bits) => bits < 0x8000_0000_0000_0000 && (exponent(bits) >= 0 || 2
            * significand(bits) >= power_of_two((-exponent(bits)) as nat)),
    }
}

/// Whether a number is a half or more.
pub fn at_least_half(n: JsonNumber) -> (r: bool)
    ensures
        r == is_half(n),
{
    let bits: u64 = match n {
        JsonNumber::Unsigned(u) => return u > 0,
        JsonNumber::Negative(_) => return false,
        JsonNumber::Float(bits) => bits,
    };
    if bits >= 0x8000_0000_0000_0000 {
        return false;
    }
    let (m, e): (u64, i64) = parts(bits);
    if e >= 0 {
        return true;
    }
    if -e >= 55 {
        proof {
            power_of_55();
            powers_grow(55, (-e) as nat);
        }
        return false;
    }
    2 * m as u128 >= power(-e)
}

// ---------------------------------------------------------------------------
// Laws
// ---------------------------------------------------------------------------

/// An integer is its own rounding, one below zero rounds to zero, and a number is
/// at least a half just where it rounds to more than zero.
pub proof fn rounding_is_true(n: JsonNumber)
    ensures
        n matches JsonNumber::Unsigned(u) ==> rounded(n) == u,
        n is Negative ==> rounded(n) == 0,
        is_half(n) <==> rounded(n) > 0,
{
    if let JsonNumber::Float(bits) = n {
        let s = significand(bits);
        if exponent(bits) >= 0 {
            let p = power_of_two(exponent(bits) as nat);
            powers_are_positive(exponent(bits) as nat);
            assert(s > 0);
            assert(s * p > 0) by (nonlinear_arith)
                requires
                    s > 0,
                    p > 0,
            ;
        } else {
            let unit = power_of_two((-exponent(bits)) as nat);
            powers_are_positive((-exponent(bits)) as nat);
            assert((2 * s + unit) / (2 * unit) > 0 <==> 2 * s >= unit) by (nonlinear_arith)
                requires
                    unit > 0,
                    s >= 0,
            ;
        }
    }
}

proof fn powers_are_positive(n: nat)
    ensures
        power_of_two(n) > 0,
    decreases n,
{
    if n > 0 {
        powers_are_positive((n - 1) as nat);
    }
}

/// A number that is not above a bound does not round to more than the bound, and
/// one that is above it does not round to less.
pub proof fn bounds_agree_with_rounding(n: JsonNumber, bound: nat)
    requires
        bound <= u64::MAX,
    ensures
        !is_above(n, bound) ==> rounded(n) <= bound,
        is_above(n, bound) ==> rounded(n) >= bound,
{
    if let JsonNumber::Float(bits) = n {
        let s = significand(bits);
        if exponent(bits) < 0 {
            let unit = power_of_two((-exponent(bits)) as nat);
            powers_are_positive((-exponent(bits)) as nat);
            let r = (2 * s + unit) / (2 * unit);
            assert(s <= bound * unit ==> r <= bound) by (nonlinear_arith)
                requires
                    unit > 0,
                    s >= 0,
                    bound >= 0,
                    r == (2 * s + unit) / (2 * unit),
            ;
            assert(s > bound * unit ==> r >= bound) by (nonlinear_arith)
                requires
                    unit > 0,
                    s >= 0,
                    bound >= 0,
                    r == (2 * s + unit) / (2 * unit),
            ;
        }
    }
}

/// What is above a bound is above every smaller one.
pub proof fn bounds_are_ordered(n: JsonNumber, low: nat, high: nat)
    requires
        low <= high,
    ensures
        is_above(n, high) ==> is_above(n, low),
{
    if let JsonNumber::Float(bits) = n {
        if exponent(bits) < 0 {
            let unit = power_of_two((-exponent(bits)) as nat);
            assert(low * unit <= high * unit) by (nonlinear_arith)
                requires
                    low <= high,
                    unit >= 0,
            ;
        }
    }
}

} // verus!
