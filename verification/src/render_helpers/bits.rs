//! Floating point numbers by their bits: when two are equal, and the bits of a whole number.

use vstd::arithmetic::power2;
use vstd::prelude::*;

verus! {

/// Whether the bits of a single precision number are those of no number.
pub open spec fn no_single(bits: u32) -> bool {
    bits % 0x8000_0000 > 0x7f80_0000
}

/// Whether two single precision numbers are equal: both zeros are, and what is no number is not even
/// equal to itself.
pub open spec fn equal_singles(left: u32, right: u32) -> bool {
    &&& !no_single(left)
    &&& !no_single(right)
    &&& left == right || (left % 0x8000_0000 == 0 && right % 0x8000_0000 == 0)
}

/// Whether two single precision numbers are equal.
pub fn same_single(left: u32, right: u32) -> (same: bool)
    ensures
        same == equal_singles(left, right),
{
    let (one, other): (u32, u32) = (left % 0x8000_0000, right % 0x8000_0000);
    one <= 0x7f80_0000 && other <= 0x7f80_0000 && (left == right || (one == 0 && other == 0))
}

/// Whether the bits of a double precision number are those of no number.
pub open spec fn no_double(bits: u64) -> bool {
    bits % 0x8000_0000_0000_0000 > 0x7ff0_0000_0000_0000
}

/// Whether two double precision numbers are equal: both zeros are, and what is no number is not even
/// equal to itself.
pub open spec fn equal_doubles(left: u64, right: u64) -> bool {
    &&& !no_double(left)
    &&& !no_double(right)
    &&& left == right || (left % 0x8000_0000_0000_0000 == 0 && right % 0x8000_0000_0000_0000 == 0)
}

/// Whether two double precision numbers are equal.
pub fn same_double(left: u64, right: u64) -> (same: bool)
    ensures
        same == equal_doubles(left, right),
{
    let (one, other): (u64, u64) = (
        left % 0x8000_0000_0000_0000,
        right % 0x8000_0000_0000_0000,
    );
    one <= 0x7ff0_0000_0000_0000 && other <= 0x7ff0_0000_0000_0000 && (left == right || (one == 0
        && other == 0))
}

/// The greatest power of two that is at most `value`, as its exponent.
pub open spec fn exponent(value: nat) -> nat
    decreases value,
{
    if value < 2 {
        0
    } else {
        1 + exponent(value / 2)
    }
}

/// How large a number is, without its sign.
pub open spec fn magnitude(value: i32) -> nat {
    if value < 0 {
        -(value as int) as nat
    } else {
        value as nat
    }
}

/// What a number is over the highest power of two in it, as a fraction of that power in double
/// precision.
pub open spec fn fraction(size: nat) -> int {
    (size - power2::pow2(exponent(size))) * power2::pow2((52 - exponent(size)) as nat)
}

/// The bits of a whole number in double precision: its sign, the exponent of its highest power of two,
/// and what is left of it as a fraction of that power.
pub open spec fn double_of(value: i32) -> int {
    if value == 0 {
        0
    } else {
        (if value < 0 {
            0x8000_0000_0000_0000int
        } else {
            0
        }) + (1023 + exponent(magnitude(value))) * 0x10_0000_0000_0000 + fraction(magnitude(value))
    }
}

proof fn exponent_is(value: nat, high: nat)
    requires
        power2::pow2(high) <= value < power2::pow2(high + 1),
    ensures
        exponent(value) == high,
    decreases value,
{
    power2::lemma_pow2_pos(high);
    power2::lemma_pow2_unfold(high + 1);
    power2::lemma2_to64();
    if high > 0 {
        power2::lemma_pow2_unfold(high);
        power2::lemma_pow2_pos((high - 1) as nat);
        exponent_is(value / 2, (high - 1) as nat);
    }
}

/// The bits of a whole number in double precision.
pub fn whole_double(value: i32) -> (bits: u64)
    ensures
        bits == double_of(value),
{
    if value == 0 {
        return 0;
    }
    let size: u64 = if value < 0 {
        (-(value as i64)) as u64
    } else {
        value as u64
    };
    let mut power: u64 = 1;
    let mut high: u64 = 0;
    let mut unit: u64 = 0x10_0000_0000_0000;
    proof {
        power2::lemma2_to64();
        power2::lemma2_to64_rest();
    }
    while size / 2 >= power
        invariant
            1 <= power <= size <= 0x8000_0000,
            high <= 31,
            power == power2::pow2(high as nat),
            unit == power2::pow2((52 - high) as nat),
            power * unit == 0x10_0000_0000_0000,
        decreases size - power,
    {
        proof {
            power2::lemma_pow2_unfold((high + 1) as nat);
            power2::lemma_pow2_unfold((52 - high) as nat);
            if high == 31 {
                power2::lemma2_to64();
            }
            assert((2 * power) * (unit / 2) == 0x10_0000_0000_0000) by (nonlinear_arith)
                requires
                    power * unit == 0x10_0000_0000_0000,
                    unit % 2 == 0,
            ;
        }
        power = 2 * power;
        high = high + 1;
        unit = unit / 2;
    }
    proof {
        power2::lemma_pow2_unfold((high + 1) as nat);
        exponent_is(size as nat, high as nat);
        assert((size - power) * unit < power * unit) by (nonlinear_arith)
            requires
                0 <= size - power < power,
                unit > 0,
                power * unit == 0x10_0000_0000_0000,
        ;
        assert((size - power) * unit >= 0) by (nonlinear_arith)
            requires
                size >= power,
                unit > 0,
        ;
    }
    let sign: u64 = if value < 0 {
        0x8000_0000_0000_0000
    } else {
        0
    };
    sign + (1023 + high) * 0x10_0000_0000_0000 + (size - power) * unit
}

proof fn exponent_fits(value: nat)
    requires
        value > 0,
    ensures
        power2::pow2(exponent(value)) <= value < power2::pow2(exponent(value) + 1),
    decreases value,
{
    power2::lemma2_to64();
    if value >= 2 {
        exponent_fits(value / 2);
        let half = exponent(value / 2);
        power2::lemma_pow2_unfold(half + 1);
        power2::lemma_pow2_unfold(half + 2);
    }
}

proof fn fraction_fits(size: nat)
    requires
        0 < size <= 0x8000_0000,
    ensures
        exponent(size) <= 31,
        0 <= fraction(size) < 0x10_0000_0000_0000,
{
    let high = exponent(size);
    exponent_fits(size);
    power2::lemma2_to64();
    power2::lemma2_to64_rest();
    if high > 31 {
        if high > 32 {
            power2::lemma_pow2_strictly_increases(32, high);
        }
        assert(false);
    }
    let (power, unit) = (power2::pow2(high), power2::pow2((52 - high) as nat));
    power2::lemma_pow2_unfold(high + 1);
    power2::lemma_pow2_pos((52 - high) as nat);
    power2::lemma_pow2_adds(high, (52 - high) as nat);
    assert(power * unit == 0x10_0000_0000_0000);
    assert(0 <= (size - power) * unit < power * unit) by (nonlinear_arith)
        requires
            0 <= size - power < power,
            unit > 0,
    ;
}

/// Whole numbers are equal in double precision just where they are the same.
pub proof fn whole_doubles_differ(left: i32, right: i32)
    ensures
        0 <= double_of(left) <= u64::MAX,
        0 <= double_of(right) <= u64::MAX,
        equal_doubles(double_of(left) as u64, double_of(right) as u64) <==> left == right,
{
    let (one, other) = (magnitude(left), magnitude(right));
    if left != 0 {
        fraction_fits(one);
    }
    if right != 0 {
        fraction_fits(other);
    }
    if left != 0 && right != 0 && double_of(left) == double_of(right) {
        assert((left < 0) == (right < 0));
        assert(exponent(one) == exponent(other));
        let unit = power2::pow2((52 - exponent(one)) as nat);
        power2::lemma_pow2_pos((52 - exponent(one)) as nat);
        let power = power2::pow2(exponent(one));
        assert(one == other) by (nonlinear_arith)
            requires
                (one - power) * unit == (other - power) * unit,
                unit > 0,
        ;
    }
}

} // verus!
