//! From a trigger reading to a steering angle.
//!
//! A reading is a single-precision number, handled here by its bit pattern:
//! one sign bit, eight bits of biased exponent, twenty-three bits of fraction.
//! A finite reading with biased exponent `e >= 1` and fraction `f` has the
//! magnitude `(2^23 + f) * 2^(e - 150)`. Among readings that are not negative
//! and not NaN, a larger bit pattern is a larger number.
//!
//! The angle of a reading above the dead zone is the reading times 180, taken
//! as single-precision arithmetic takes it (the product is rounded to 24
//! significant bits, a tie going to the even neighbour) and then rounded to
//! the nearest whole number of degrees, a half rounding up.

use crate::angle::Angle;
use vstd::arithmetic::power2::{
    lemma2_to64, lemma_pow2_adds, lemma_pow2_pos, lemma_pow2_strictly_increases, lemma_pow2_unfold,
    pow2,
};
use vstd::prelude::*;

verus! {

/// The dead-zone threshold: the bit pattern of the single-precision number
/// nearest to 0.05. Readings up to and including it count as no input.
pub const DEAD_ZONE_BITS: u32 = 0x3D4C_CCCD;

/// The bit pattern of 1.0, the full deflection of the trigger.
pub const FULL_SCALE_BITS: u32 = 0x3F80_0000;

/// The bit pattern of positive infinity. Patterns above it are NaN or carry
/// the sign bit.
pub const INFINITY_BITS: u32 = 0x7F80_0000;

/// The reading with its sign dropped.
pub open spec fn magnitude_bits(bits: u32) -> int {
    bits as int % 0x8000_0000
}

/// Whether the sign bit of the reading is set.
pub open spec fn is_negative(bits: u32) -> bool {
    bits >= 0x8000_0000
}

/// Whether the reading is not a number.
pub open spec fn is_nan(bits: u32) -> bool {
    magnitude_bits(bits) > INFINITY_BITS
}

/// The biased exponent of the reading.
pub open spec fn biased_exponent(bits: u32) -> int {
    magnitude_bits(bits) / 0x80_0000
}

/// The significand of a finite reading, as a whole number of at most 24 bits:
/// the fraction, with the leading one put in front unless the reading is
/// subnormal.
pub open spec fn significand(bits: u32) -> int {
    if biased_exponent(bits) == 0 {
        bits as int % 0x80_0000
    } else {
        0x80_0000 + bits as int % 0x80_0000
    }
}

/// The magnitude of a finite reading as a whole number of units of `2^-149`,
/// the smallest magnitude that single precision has.
pub open spec fn scaled_magnitude(bits: u32) -> int {
    if biased_exponent(bits) == 0 {
        significand(bits)
    } else {
        significand(bits) * pow2((biased_exponent(bits) - 1) as nat)
    }
}

/// Whether the reading lies above the dead zone: it is positive, it is a
/// number, and it is greater than the threshold.
pub open spec fn above_dead_zone(bits: u32) -> bool {
    DEAD_ZONE_BITS < bits <= INFINITY_BITS
}

/// The reading times 180, exactly, in units of `2^(e - 148)`, where `e` is
/// the biased exponent: 180 is 45 times 4.
pub open spec fn exact_product(bits: u32) -> int {
    significand(bits) * 45
}

/// The distance between neighbouring single-precision numbers around a
/// product of `n` units, for `2^28 <= n < 2^30`: what is left of `n` when it
/// is cut to 24 significant bits is a multiple of this step.
pub open spec fn single_step(n: int) -> int {
    if n < 0x2000_0000 {
        32
    } else {
        64
    }
}

/// The multiple of `step` nearest to `n`. Where `n` lies half-way between
/// two of them, the even multiple is taken.
pub open spec fn nearest_multiple(n: int, step: int) -> int {
    let below = n / step;
    let rest = n % step;
    if 2 * rest < step || (2 * rest == step && below % 2 == 0) {
        below * step
    } else {
        (below + 1) * step
    }
}

/// The reading times 180 as a single-precision number, in the units of
/// `exact_product`.
pub open spec fn single_product(bits: u32) -> int {
    nearest_multiple(exact_product(bits), single_step(exact_product(bits)))
}

/// How many units of `exact_product` make one degree, for a reading with
/// biased exponent `exponent`.
pub open spec fn degree_weight(exponent: int) -> int {
    pow2((148 - exponent) as nat) as int
}

/// `n / unit` rounded to the nearest whole number, a half rounding up.
pub open spec fn nearest_whole(n: int, unit: int) -> int {
    (2 * n + unit) / (2 * unit)
}

/// The angle that a reading stands for.
///
/// A reading in the dead zone, a negative reading and one that is not a
/// number give the neutral angle. A reading of 1.0 or more gives full
/// deflection. Between the two, the angle is the reading times 180, rounded.
pub open spec fn mapped_angle(bits: u32) -> int {
    if !above_dead_zone(bits) {
        0
    } else if bits >= FULL_SCALE_BITS {
        180
    } else {
        nearest_whole(single_product(bits), degree_weight(biased_exponent(bits)))
    }
}

fn round_to_step(n: u64, step: u64) -> (m: u64)
    requires
        step == 32 || step == 64,
        n < 0x4000_0000,
    ensures
        m == nearest_multiple(n as int, step as int),
        m <= 0x4000_0000,
{
    let below = n / step;
    let rest = n % step;
    if 2 * rest < step || (2 * rest == step && below % 2 == 0) {
        below * step
    } else {
        (below + 1) * step
    }
}

fn weight_of_degree(exponent: u32) -> (weight: u64)
    requires
        122 <= exponent <= 126,
    ensures
        weight == degree_weight(exponent as int),
        0x40_0000 <= weight <= 0x400_0000,
{
    let mut weight: u64 = 0x40_0000;
    let mut e: u32 = 126;
    proof {
        lemma2_to64();
    }
    while e > exponent
        invariant
            exponent <= e <= 126,
            122 <= exponent,
            weight == pow2((148 - e) as nat),
        decreases e,
    {
        proof {
            lemma2_to64();
            lemma_pow2_unfold((149 - e) as nat);
            assert(e == 126 || e == 125 || e == 124 || e == 123);
        }
        weight = weight * 2;
        e = e - 1;
    }
    proof {
        lemma2_to64();
        assert(e == 126 || e == 125 || e == 124 || e == 123 || e == 122);
    }
    weight
}

/// Maps a trigger reading, given by its single-precision bit pattern, to the
/// steering angle.
pub fn angle_from_axis(bits: u32) -> (angle: Angle)
    ensures
        angle@ == mapped_angle(bits),
{
    if bits <= DEAD_ZONE_BITS || bits > INFINITY_BITS {
        return Angle::neutral();
    }
    if bits >= FULL_SCALE_BITS {
        return Angle::full();
    }
    let exponent: u32 = bits / 0x80_0000;
    let significand: u64 = 0x80_0000 + (bits % 0x80_0000) as u64;
    let exact: u64 = significand * 45;
    let step: u64 = if exact < 0x2000_0000 {
        32
    } else {
        64
    };
    let single: u64 = round_to_step(exact, step);
    let weight: u64 = weight_of_degree(exponent);
    let degrees: u64 = (2 * single + weight) / (2 * weight);
    proof {
        lemma_mapped_angle_range(bits);
    }
    Angle::clamped(degrees as i64)
}

/// Rounding to a multiple of the step moves a number by half a step at most,
/// and where it moves it by exactly half a step, it lands on an even multiple.
pub proof fn lemma_nearest_multiple(n: int, step: int)
    requires
        0 <= n,
        step == 32 || step == 64,
    ensures
        nearest_multiple(n, step) % step == 0,
        2 * (nearest_multiple(n, step) - n) <= step,
        2 * (n - nearest_multiple(n, step)) <= step,
        2 * (nearest_multiple(n, step) - n) == step || 2 * (n - nearest_multiple(n, step)) == step
            ==> (nearest_multiple(n, step) / step) % 2 == 0,
{
    if step == 32 {
        let below = n / 32;
        assert(nearest_multiple(n, 32) == below * 32 || nearest_multiple(n, 32) == (below + 1)
            * 32);
    } else {
        let below = n / 64;
        assert(nearest_multiple(n, 64) == below * 64 || nearest_multiple(n, 64) == (below + 1)
            * 64);
    }
}

/// The angle is the whole number of degrees nearest to the single-precision
/// product: it lies no more than half a degree above the product and less
/// than half a degree below it.
pub proof fn lemma_nearest_degree(bits: u32)
    requires
        above_dead_zone(bits),
        bits < FULL_SCALE_BITS,
    ensures
        ({
            let weight = degree_weight(biased_exponent(bits));
            &&& 2 * weight * mapped_angle(bits) <= 2 * single_product(bits) + weight
            &&& 2 * single_product(bits) + weight < 2 * weight * mapped_angle(bits) + 2 * weight
        }),
{
    lemma2_to64();
    let e = biased_exponent(bits);
    let s = single_product(bits);
    assert(e == 122 || e == 123 || e == 124 || e == 125 || e == 126);
    if e == 122 {
        assert(mapped_angle(bits) == (2 * s + 0x400_0000) / 0x800_0000);
    } else if e == 123 {
        assert(mapped_angle(bits) == (2 * s + 0x200_0000) / 0x400_0000);
    } else if e == 124 {
        assert(mapped_angle(bits) == (2 * s + 0x100_0000) / 0x200_0000);
    } else if e == 125 {
        assert(mapped_angle(bits) == (2 * s + 0x80_0000) / 0x100_0000);
    } else {
        assert(mapped_angle(bits) == (2 * s + 0x40_0000) / 0x80_0000);
    }
}

/// A reading above the dead zone and up to full deflection gives an angle
/// from 9 to 180 degrees: never the neutral angle.
pub proof fn lemma_mapped_angle_range(bits: u32)
    requires
        above_dead_zone(bits),
        bits <= FULL_SCALE_BITS,
    ensures
        9 <= mapped_angle(bits) <= 180,
{
    if bits < FULL_SCALE_BITS {
        lemma2_to64();
        let e = biased_exponent(bits);
        let n = exact_product(bits);
        let s = single_product(bits);
        lemma_nearest_multiple(n, single_step(n));
        assert(e == 122 || e == 123 || e == 124 || e == 125 || e == 126);
        assert(n - 32 <= s <= n + 32);
        assert(n < 754974720);
        if e == 122 {
            assert(n >= 603979830);
            assert(mapped_angle(bits) == (2 * s + 0x400_0000) / 0x800_0000);
        } else if e == 123 {
            assert(n >= 377487360);
            assert(mapped_angle(bits) == (2 * s + 0x200_0000) / 0x400_0000);
        } else if e == 124 {
            assert(n >= 377487360);
            assert(mapped_angle(bits) == (2 * s + 0x100_0000) / 0x200_0000);
        } else if e == 125 {
            assert(n >= 377487360);
            assert(mapped_angle(bits) == (2 * s + 0x80_0000) / 0x100_0000);
        } else {
            assert(n >= 377487360);
            assert(mapped_angle(bits) == (2 * s + 0x40_0000) / 0x80_0000);
        }
    }
}

/// A reading whose magnitude is at most the threshold gives the neutral
/// angle, whatever its sign. So does every negative reading, and every
/// reading that is not a number.
pub proof fn lemma_dead_zone_is_neutral(bits: u32)
    requires
        magnitude_bits(bits) <= DEAD_ZONE_BITS || is_negative(bits) || is_nan(bits),
    ensures
        mapped_angle(bits) == 0,
{
}

/// A reading above the threshold and up to 1.0 gives the reading times 180,
/// rounded: the product as single-precision arithmetic has it, to the nearest
/// whole number. That angle is at least 1 and at most 180.
pub proof fn lemma_live_reading_is_scaled(bits: u32)
    requires
        above_dead_zone(bits),
        bits <= FULL_SCALE_BITS,
    ensures
        mapped_angle(bits) == nearest_whole(
            single_product(bits),
            degree_weight(biased_exponent(bits)),
        ),
        1 <= mapped_angle(bits) <= 180,
{
    lemma_mapped_angle_range(bits);
    if bits == FULL_SCALE_BITS {
        lemma2_to64();
        assert(biased_exponent(bits) == 127);
        assert(exact_product(bits) == 0x1680_0000);
        assert(single_product(bits) == 0x1680_0000);
        assert(degree_weight(127) == 0x20_0000);
        assert((2 * 0x1680_0000 + 0x20_0000) / 0x40_0000 == 180int);
        assert(nearest_whole(0x1680_0000, 0x20_0000) == (2 * 0x1680_0000 + 0x20_0000) / 0x40_0000);
    }
}

/// Every reading gives an angle in the range, and a reading beyond full
/// deflection gives full deflection.
pub proof fn lemma_mapped_angle_bounded(bits: u32)
    ensures
        0 <= mapped_angle(bits) <= 180,
        FULL_SCALE_BITS <= bits <= INFINITY_BITS ==> mapped_angle(bits) == 180,
{
    if above_dead_zone(bits) && bits <= FULL_SCALE_BITS {
        lemma_mapped_angle_range(bits);
    }
}

/// Among readings that are not negative and not NaN, the one with the larger
/// bit pattern is the larger number. So a comparison of bit patterns with a
/// threshold is a comparison of the numbers.
pub proof fn lemma_larger_bits_larger_reading(a: u32, b: u32)
    requires
        a < b <= INFINITY_BITS,
    ensures
        scaled_magnitude(a) < scaled_magnitude(b),
{
    let ea = biased_exponent(a);
    let eb = biased_exponent(b);
    let sa = significand(a);
    let sb = significand(b);
    assert(0 <= ea <= eb <= 255);
    let pb = pow2((eb - 1) as nat) as int;
    lemma_pow2_pos((eb - 1) as nat);
    if eb == 0 {
        assert(sa < sb);
    } else if ea == eb {
        assert(sa < sb);
        assert(sa * pb < sb * pb) by (nonlinear_arith)
            requires
                sa < sb,
                pb > 0,
        ;
    } else if ea == 0 {
        assert(sa < 0x80_0000 <= sb);
        assert(sb <= sb * pb) by (nonlinear_arith)
            requires
                sb >= 0,
                pb >= 1,
        ;
    } else {
        let pa = pow2((ea - 1) as nat) as int;
        lemma_pow2_pos((ea - 1) as nat);
        lemma_pow2_unfold(ea as nat);
        assert(pow2(ea as nat) == 2 * pa);
        if ea < eb - 1 {
            lemma_pow2_strictly_increases(ea as nat, (eb - 1) as nat);
        }
        assert(2 * pa <= pb);
        assert(sa < 0x100_0000);
        assert(sb >= 0x80_0000);
        assert(sa * pa < 0x100_0000 * pa) by (nonlinear_arith)
            requires
                sa < 0x100_0000,
                pa > 0,
        ;
        assert(0x80_0000 * pb <= sb * pb) by (nonlinear_arith)
            requires
                0x80_0000 <= sb,
                pb > 0,
        ;
    }
}

/// What the named bit patterns are as numbers: the threshold of the dead
/// zone is the smallest single-precision number that is not below a
/// twentieth, and full deflection is one.
pub proof fn lemma_named_readings()
    ensures
        20 * scaled_magnitude(DEAD_ZONE_BITS) == pow2(149) + pow2(123),
        20 * scaled_magnitude((DEAD_ZONE_BITS - 1) as u32) < pow2(149),
        scaled_magnitude(FULL_SCALE_BITS) == pow2(149),
        scaled_magnitude(0) == 0,
{
    lemma2_to64();
    lemma_pow2_adds(28, 121);
    lemma_pow2_adds(2, 121);
    lemma_pow2_adds(23, 126);
    lemma_pow2_pos(121);
    let p = pow2(121) as int;
    assert(biased_exponent(DEAD_ZONE_BITS) == 122);
    assert(significand(DEAD_ZONE_BITS) == 13421773);
    assert(biased_exponent((DEAD_ZONE_BITS - 1) as u32) == 122);
    assert(significand((DEAD_ZONE_BITS - 1) as u32) == 13421772);
    assert(20 * (13421773 * p) == 0x1000_0000 * p + 4 * p) by (nonlinear_arith);
    assert(20 * (13421772 * p) < 0x1000_0000 * p) by (nonlinear_arith)
        requires
            p > 0,
    ;
    assert(biased_exponent(FULL_SCALE_BITS) == 127);
    assert(significand(FULL_SCALE_BITS) == 0x80_0000);
}

/// The angle of a reading above the dead zone and up to full deflection is
/// the reading times 180, to within half a degree and the little that
/// single precision loses on the product: with the reading and one degree
/// both in units of `2^-149`, twice the distance between the angle and the
/// reading times 180 is at most one degree and a 65536th.
pub proof fn lemma_angle_is_reading_times_180(bits: u32)
    requires
        above_dead_zone(bits),
        bits <= FULL_SCALE_BITS,
    ensures
        2 * (mapped_angle(bits) * pow2(149) - 180 * scaled_magnitude(bits)) <= pow2(149) + pow2(
            133,
        ),
        2 * (180 * scaled_magnitude(bits) - mapped_angle(bits) * pow2(149)) <= pow2(149) + pow2(
            133,
        ),
{
    let e = biased_exponent(bits);
    let n = exact_product(bits);
    let s = single_product(bits);
    let d = mapped_angle(bits);
    let w = degree_weight(e);
    let unit = pow2((e + 1) as nat) as int;
    let sig = significand(bits);
    let half = pow2((e - 1) as nat) as int;
    assert(122 <= e <= 127);
    lemma_live_reading_is_scaled(bits);
    lemma_nearest_multiple(n, single_step(n));
    lemma2_to64();
    lemma_pow2_pos((e + 1) as nat);
    lemma_pow2_adds((148 - e) as nat, (e + 1) as nat);
    lemma_pow2_adds(2, (e - 1) as nat);
    lemma_pow2_adds(6, (e + 1) as nat);
    lemma_pow2_pos(133);
    if e < 126 {
        lemma_pow2_strictly_increases((e + 7) as nat, 133);
    }
    assert(w * unit == pow2(149));
    assert(unit == 4 * half);
    assert(e < 127 ==> 64 * unit <= pow2(133));
    assert(scaled_magnitude(bits) == sig * half);
    assert(n * unit == 180 * (sig * half)) by (nonlinear_arith)
        requires
            n == sig * 45,
            unit == 4 * half,
    ;
    assert(2 * w * d <= 2 * s + w && 2 * s + w < 2 * w * d + 2 * w) by {
        if bits < FULL_SCALE_BITS {
            lemma_nearest_degree(bits);
        } else {
            assert(w == 0x20_0000);
            assert(s == 0x1680_0000);
            assert(d == 180);
        }
    }
    let slack: int = if e < 127 {
        64
    } else {
        0
    };
    assert(2 * (s - n) <= slack && 2 * (n - s) <= slack);
    assert(2 * (d * (w * unit) - n * unit) <= w * unit + slack * unit && 2 * (n * unit - d * (w
        * unit)) <= w * unit + slack * unit) by (nonlinear_arith)
        requires
            2 * w * d <= 2 * s + w,
            2 * s + w < 2 * w * d + 2 * w,
            2 * (s - n) <= slack,
            2 * (n - s) <= slack,
            unit > 0,
    ;
}

proof fn lemma_angle_by_exponent(bits: u32)
    requires
        above_dead_zone(bits),
        bits < FULL_SCALE_BITS,
    ensures
        biased_exponent(bits) == 122 ==> 9 <= mapped_angle(bits) <= 11,
        biased_exponent(bits) == 123 ==> 11 <= mapped_angle(bits) <= 23,
        biased_exponent(bits) == 124 ==> 23 <= mapped_angle(bits) <= 45,
        biased_exponent(bits) == 125 ==> 45 <= mapped_angle(bits) <= 90,
        biased_exponent(bits) == 126 ==> 90 <= mapped_angle(bits) <= 180,
        122 <= biased_exponent(bits) <= 126,
{
    lemma2_to64();
    let e = biased_exponent(bits);
    let n = exact_product(bits);
    let s = single_product(bits);
    lemma_nearest_multiple(n, single_step(n));
    lemma_mapped_angle_range(bits);
    assert(377487360 <= n <= 754974675);
    assert(s % 32 == 0);
    assert(377487360 <= s <= 754974720);
    if e == 122 {
        assert(mapped_angle(bits) == (2 * s + 0x400_0000) / 0x800_0000);
    } else if e == 123 {
        assert(mapped_angle(bits) == (2 * s + 0x200_0000) / 0x400_0000);
    } else if e == 124 {
        assert(mapped_angle(bits) == (2 * s + 0x100_0000) / 0x200_0000);
    } else if e == 125 {
        assert(mapped_angle(bits) == (2 * s + 0x80_0000) / 0x100_0000);
    } else {
        assert(e == 126);
        assert(mapped_angle(bits) == (2 * s + 0x40_0000) / 0x80_0000);
    }
}

proof fn lemma_single_product_monotone(a: u32, b: u32)
    requires
        above_dead_zone(a),
        a <= b < FULL_SCALE_BITS,
        biased_exponent(a) == biased_exponent(b),
    ensures
        single_product(a) <= single_product(b),
{
    let na = exact_product(a);
    let nb = exact_product(b);
    assert(significand(a) <= significand(b));
    assert(0 <= na <= nb);
    lemma_nearest_multiple(na, single_step(na));
    lemma_nearest_multiple(nb, single_step(nb));
    if nb < 0x2000_0000 {
        assert(na / 32 <= nb / 32);
        if na / 32 == nb / 32 {
            assert(na % 32 <= nb % 32);
        } else {
            assert((na / 32 + 1) * 32 <= nb / 32 * 32);
        }
    } else if na >= 0x2000_0000 {
        assert(na / 64 <= nb / 64);
        if na / 64 == nb / 64 {
            assert(na % 64 <= nb % 64);
        } else {
            assert((na / 64 + 1) * 64 <= nb / 64 * 64);
        }
    } else {
        assert(single_product(a) <= 0x2000_0000);
        assert(single_product(b) >= 0x2000_0000);
    }
}

/// The angle never decreases as the reading grows, over all readings that
/// are not negative and not NaN.
pub proof fn lemma_mapped_angle_monotone(a: u32, b: u32)
    requires
        a <= b <= INFINITY_BITS,
    ensures
        mapped_angle(a) <= mapped_angle(b),
{
    lemma_mapped_angle_bounded(a);
    lemma_mapped_angle_bounded(b);
    if above_dead_zone(a) && b < FULL_SCALE_BITS {
        lemma_angle_by_exponent(a);
        lemma_angle_by_exponent(b);
        let e = biased_exponent(a);
        assert(e <= biased_exponent(b));
        if e == biased_exponent(b) {
            lemma2_to64();
            lemma_single_product_monotone(a, b);
            let sa = single_product(a);
            let sb = single_product(b);
            if e == 122 {
                assert((2 * sa + 0x400_0000) / 0x800_0000 <= (2 * sb + 0x400_0000) / 0x800_0000);
            } else if e == 123 {
                assert((2 * sa + 0x200_0000) / 0x400_0000 <= (2 * sb + 0x200_0000) / 0x400_0000);
            } else if e == 124 {
                assert((2 * sa + 0x100_0000) / 0x200_0000 <= (2 * sb + 0x100_0000) / 0x200_0000);
            } else if e == 125 {
                assert((2 * sa + 0x80_0000) / 0x100_0000 <= (2 * sb + 0x80_0000) / 0x100_0000);
            } else {
                assert((2 * sa + 0x40_0000) / 0x80_0000 <= (2 * sb + 0x40_0000) / 0x80_0000);
            }
        }
    }
}

} // verus!
