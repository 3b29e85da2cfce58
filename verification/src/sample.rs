//! Samples and magnitudes, held as the bits of IEEE 754 binary floating point numbers.
//!
//! A number is read off its bits as a multiple of the smallest positive number of its format, so
//! that every number has an integer that stands for it.

use vstd::arithmetic::power2::{
    lemma2_to64, lemma2_to64_rest, lemma_pow2_adds, lemma_pow2_pos, lemma_pow2_strictly_increases,
    lemma_pow2_unfold, pow2,
};
use vstd::prelude::*;

verus! {

/// A double precision sample, by its bits.
pub type SampleFormat = u64;

/// The exponent and fraction fields of a double.
pub const MAGNITUDE_64: u64 = 0x7fff_ffff_ffff_ffff;

/// The magnitude of an infinite double. The larger ones belong to no number.
pub const INFINITY_64: u64 = 0x7ff0_0000_0000_0000;

/// The exponent and fraction fields of a single.
pub const MAGNITUDE_32: u32 = 0x7fff_ffff;

/// The magnitude of an infinite single. The larger ones belong to no number.
pub const INFINITY_32: u32 = 0x7f80_0000;

/// The magnitude field of a double.
pub open spec fn magnitude_64(bits: u64) -> u64 {
    bits & MAGNITUDE_64
}

/// The magnitude field of a single.
pub open spec fn magnitude_32(bits: u32) -> u32 {
    bits & MAGNITUDE_32
}

/// Whether the sign bit of a double is set.
pub open spec fn is_negative_64(bits: u64) -> bool {
    bits > MAGNITUDE_64
}

/// Whether the sign bit of a single is set.
pub open spec fn is_negative_32(bits: u32) -> bool {
    bits > MAGNITUDE_32
}

/// Whether the bits of a double belong to no number.
pub open spec fn is_nan_64(bits: u64) -> bool {
    magnitude_64(bits) > INFINITY_64
}

/// Whether the bits of a single belong to no number.
pub open spec fn is_nan_32(bits: u32) -> bool {
    magnitude_32(bits) > INFINITY_32
}

/// What a number with exponent field `exponent` and a fraction field of `width` bits that holds
/// `fraction` amounts to, in units of the smallest positive number of its format.
pub open spec fn units(exponent: nat, fraction: nat, width: nat) -> nat {
    if exponent == 0 {
        fraction
    } else {
        (pow2(width) + fraction) * pow2((exponent - 1) as nat)
    }
}

/// How many times the smallest positive double goes into the absolute value of this one. An
/// infinite one gets the count that is next after those of the finite doubles.
pub open spec fn units_64(bits: u64) -> nat {
    units(
        (magnitude_64(bits) / 0x0010_0000_0000_0000) as nat,
        (magnitude_64(bits) % 0x0010_0000_0000_0000) as nat,
        52,
    )
}

/// How many times the smallest positive single goes into the absolute value of this one.
pub open spec fn units_32(bits: u32) -> nat {
    units(
        (magnitude_32(bits) / 0x0080_0000) as nat,
        (magnitude_32(bits) % 0x0080_0000) as nat,
        23,
    )
}

/// The value of a double in units of the smallest positive one.
pub open spec fn value_64(bits: u64) -> int {
    if is_negative_64(bits) {
        -(units_64(bits) as int)
    } else {
        units_64(bits) as int
    }
}

/// The value of a single in units of the smallest positive one.
pub open spec fn value_32(bits: u32) -> int {
    if is_negative_32(bits) {
        -(units_32(bits) as int)
    } else {
        units_32(bits) as int
    }
}

/// Whether `a >= b` holds of two doubles: both are numbers, and the first is no smaller.
pub open spec fn at_least(a: SampleFormat, b: SampleFormat) -> bool {
    !is_nan_64(a) && !is_nan_64(b) && value_64(a) >= value_64(b)
}

/// A number with a larger exponent, or the same exponent and a larger fraction, is larger.
proof fn lemma_units_increase(e1: nat, f1: nat, e2: nat, f2: nat, width: nat)
    requires
        f1 < pow2(width),
        f2 < pow2(width),
        e1 < e2 || (e1 == e2 && f1 < f2),
    ensures
        units(e1, f1, width) < units(e2, f2, width),
{
    if e2 > 0 {
        let (w, p2) = (pow2(width), pow2((e2 - 1) as nat));
        lemma_pow2_pos((e2 - 1) as nat);
        if e1 == e2 {
            assert((w + f1) * p2 < (w + f2) * p2) by (nonlinear_arith)
                requires
                    f1 < f2,
                    p2 > 0,
            ;
        } else if e1 == 0 {
            assert(f1 < (w + f2) * p2) by (nonlinear_arith)
                requires
                    f1 < w,
                    p2 > 0,
            ;
        } else {
            let p1 = pow2((e1 - 1) as nat);
            lemma_pow2_pos((e1 - 1) as nat);
            lemma_pow2_unfold(e1);
            if e1 < e2 - 1 {
                lemma_pow2_strictly_increases(e1, (e2 - 1) as nat);
            }
            assert((w + f1) * p1 < (w + f2) * p2) by (nonlinear_arith)
                requires
                    f1 < w,
                    2 * p1 <= p2,
                    p1 > 0,
            ;
        }
    }
}

/// The magnitudes of doubles are ordered as the numbers that they stand for.
proof fn lemma_units_ordered(a: u64, b: u64)
    requires
        magnitude_64(a) < magnitude_64(b),
    ensures
        units_64(a) < units_64(b),
{
    lemma2_to64_rest();
    lemma_units_increase(
        (magnitude_64(a) / 0x0010_0000_0000_0000) as nat,
        (magnitude_64(a) % 0x0010_0000_0000_0000) as nat,
        (magnitude_64(b) / 0x0010_0000_0000_0000) as nat,
        (magnitude_64(b) % 0x0010_0000_0000_0000) as nat,
        52,
    );
}

/// The magnitudes of singles are ordered as the numbers that they stand for.
proof fn lemma_units_32_ordered(a: u32, b: u32)
    requires
        magnitude_32(a) < magnitude_32(b),
    ensures
        units_32(a) < units_32(b),
{
    lemma2_to64();
    lemma_units_increase(
        (magnitude_32(a) / 0x0080_0000) as nat,
        (magnitude_32(a) % 0x0080_0000) as nat,
        (magnitude_32(b) / 0x0080_0000) as nat,
        (magnitude_32(b) % 0x0080_0000) as nat,
        23,
    );
}

/// Doubles are ordered as their bits are, with the sign taken apart: nonnegative ones by magnitude,
/// negative ones the other way round, and the two zeros alike.
pub proof fn law_doubles_are_ordered_as_their_bits(a: SampleFormat, b: SampleFormat)
    ensures
        at_least(a, b) == {
            let (ma, mb) = (magnitude_64(a), magnitude_64(b));
            if ma > INFINITY_64 || mb > INFINITY_64 {
                false
            } else if is_negative_64(a) {
                if is_negative_64(b) {
                    ma <= mb
                } else {
                    ma == 0 && mb == 0
                }
            } else {
                is_negative_64(b) || ma >= mb
            }
        },
{
    if magnitude_64(a) < magnitude_64(b) {
        lemma_units_ordered(a, b);
    }
    if magnitude_64(b) < magnitude_64(a) {
        lemma_units_ordered(b, a);
    }
    lemma_units_of_zero(a);
    lemma_units_of_zero(b);
}

/// Whether `a >= b` holds of two doubles.
pub fn is_at_least(a: SampleFormat, b: SampleFormat) -> (r: bool)
    ensures
        r == at_least(a, b),
{
    proof {
        law_doubles_are_ordered_as_their_bits(a, b);
    }
    let (ma, mb) = (a & MAGNITUDE_64, b & MAGNITUDE_64);
    if ma > INFINITY_64 || mb > INFINITY_64 {
        false
    } else if a > MAGNITUDE_64 {
        if b > MAGNITUDE_64 {
            ma <= mb
        } else {
            ma == 0 && mb == 0
        }
    } else {
        b > MAGNITUDE_64 || ma >= mb
    }
}

/// Only the two zeros amount to nothing.
proof fn lemma_units_of_zero(a: u64)
    ensures
        units_64(a) == 0 <==> magnitude_64(a) == 0,
{
    if magnitude_64(a) > 0 {
        assert(0u64 & MAGNITUDE_64 == 0) by (bit_vector);
        lemma_units_ordered(0, a);
    }
}

/// The double without any bit set is zero.
pub proof fn lemma_value_of_zero()
    ensures
        value_64(0) == 0,
{
    assert(0u64 & MAGNITUDE_64 == 0) by (bit_vector);
    lemma_units_of_zero(0);
}

/// The number of times that the smallest positive double goes into one is two to this power.
pub const UNITS_PER_ONE_EXPONENT: u32 = 1074;

/// The integers up to this one are all doubles.
pub const MAX_EXACT: u64 = 0x0020_0000_0000_0000;

/// The product of a number and a power of two.
pub open spec fn scaled(n: nat, exponent: nat) -> nat {
    n * pow2(exponent)
}

/// Whether a number has no more significant bits than a double holds.
pub open spec fn is_exact(n: nat) -> bool {
    exists|significand: nat, exponent: nat|
        significand <= MAX_EXACT && n == #[trigger] scaled(significand, exponent)
}

/// A number that is small enough is exact, whatever power of two it is scaled by.
pub proof fn lemma_scaled_is_exact(n: nat, exponent: nat)
    requires
        n <= MAX_EXACT,
    ensures
        is_exact(n),
        is_exact(scaled(n, exponent)),
{
    lemma2_to64();
    assert(n == scaled(n, 0));
}

/// Whether a double equals the quotient of two numbers.
pub open spec fn is_quotient(bits: SampleFormat, dividend: nat, divisor: nat) -> bool {
    &&& magnitude_64(bits) < INFINITY_64
    &&& value_64(bits) * divisor == dividend * pow2(UNITS_PER_ONE_EXPONENT as nat)
}

/// The base 2 logarithm of the ratio between the smallest positive single and the smallest positive
/// double.
pub const UNIT_RATIO_EXPONENT: u32 = 925;

/// The exponent field of the double that equals the smallest single with a full fraction.
const SMALLEST_NORMAL_32: u64 = 897;

/// The sign bit and the magnitude of a double make up its bits.
proof fn lemma_split_64(bits: u64)
    ensures
        magnitude_64(bits) == if is_negative_64(bits) {
            bits - 0x8000_0000_0000_0000
        } else {
            bits as int
        },
{
    assert(bits <= 0x7fff_ffff_ffff_ffff ==> bits & 0x7fff_ffff_ffff_ffff == bits) by (bit_vector);
    assert(bits > 0x7fff_ffff_ffff_ffff ==> bits & 0x7fff_ffff_ffff_ffff == bits
        - 0x8000_0000_0000_0000) by (bit_vector);
}

/// The sign bit and the magnitude of a single make up its bits.
proof fn lemma_split_32(bits: u32)
    ensures
        magnitude_32(bits) == if is_negative_32(bits) {
            bits - 0x8000_0000
        } else {
            bits as int
        },
{
    assert(bits <= 0x7fff_ffff ==> bits & 0x7fff_ffff == bits) by (bit_vector);
    assert(bits > 0x7fff_ffff ==> bits & 0x7fff_ffff == bits - 0x8000_0000) by (bit_vector);
}

/// What a double with exponent field `exponent` amounts to, where its fraction holds all of
/// `significand` but the leading bit.
proof fn lemma_units_of_significand(exponent: nat, significand: nat)
    requires
        exponent > 0,
        0x0080_0000 <= significand < 0x0100_0000,
    ensures
        units(exponent, ((significand - 0x0080_0000) * 0x2000_0000) as nat, 52) == significand * pow2(
            exponent + 28,
        ),
{
    lemma2_to64();
    lemma2_to64_rest();
    lemma_pow2_adds(29, (exponent - 1) as nat);
    let p = pow2((exponent - 1) as nat);
    assert((significand * 0x2000_0000) * p == significand * (0x2000_0000 * p)) by (nonlinear_arith);
    assert(0x0010_0000_0000_0000 + (significand - 0x0080_0000) * 0x2000_0000 == significand
        * 0x2000_0000);
}

/// Whether a double equals a given single: they have the same sign, and are both infinite or of the
/// same absolute value. Bits that belong to no number go with any such bits of the same sign.
pub open spec fn is_widening(bits: u32, r: SampleFormat) -> bool {
    &&& is_negative_64(r) == is_negative_32(bits)
    &&& is_nan_64(r) == is_nan_32(bits)
    &&& magnitude_64(r) == INFINITY_64 <==> magnitude_32(bits) == INFINITY_32
    &&& magnitude_32(bits) < INFINITY_32 ==> units_64(r) == units_32(bits) * pow2(
        UNIT_RATIO_EXPONENT as nat,
    )
}

/// The double that equals a given single.
pub fn widen(bits: u32) -> (r: SampleFormat)
    ensures
        is_widening(bits, r),
{
    let magnitude: u32 = bits & MAGNITUDE_32;
    let sign: u64 = if bits > MAGNITUDE_32 {
        0x8000_0000_0000_0000
    } else {
        0
    };
    proof {
        lemma_split_32(bits);
    }
    let field: u64 = (magnitude / 0x0080_0000) as u64;
    let fraction: u64 = (magnitude % 0x0080_0000) as u64;
    if field == 0xff {
        let r: u64 = sign + INFINITY_64 + fraction * 0x2000_0000;
        proof {
            lemma_split_64(r);
        }
        r
    } else if magnitude == 0 {
        proof {
            lemma_split_64(sign);
            lemma_units_of_zero(sign);
            assert(units_32(bits) == 0);
        }
        sign
    } else {
        let mut exponent: u64 = if field == 0 {
            SMALLEST_NORMAL_32
        } else {
            field + (SMALLEST_NORMAL_32 - 1)
        };
        let mut significand: u64 = if field == 0 {
            fraction
        } else {
            fraction + 0x0080_0000
        };
        let ghost whole = significand * pow2((exponent + 28) as nat);
        proof {
            lemma2_to64();
            if field > 0 {
                lemma_pow2_adds((field - 1) as nat, 925);
                let (p, q) = (pow2((field - 1) as nat), pow2(925));
                assert(significand * (p * q) == (significand * p) * q) by (nonlinear_arith);
                assert(pow2((exponent + 28) as nat) == p * q);
            }
            assert(whole == units_32(bits) * pow2(925));
        }
        while significand < 0x0080_0000
            invariant
                0 < significand < 0x0100_0000,
                800 < exponent <= 1150,
                significand * pow2((exponent + 28) as nat) == whole,
                significand < 0x0080_0000 ==> exponent <= 897 && significand >= pow2(
                    (897 - exponent) as nat,
                ),
            decreases 0x0100_0000 - significand,
        {
            proof {
                lemma2_to64();
                let d = (897 - exponent) as nat;
                if d >= 24 {
                    if d > 24 {
                        lemma_pow2_strictly_increases(24, d);
                    }
                    assert(false);
                }
                lemma_pow2_unfold((exponent + 28) as nat);
                lemma_pow2_unfold(d + 1);
                let p = pow2((exponent + 27) as nat);
                assert(significand * (2 * p) == (significand * 2) * p) by (nonlinear_arith);
            }
            significand = significand * 2;
            exponent = exponent - 1;
        }
        let r: u64 = sign + exponent * 0x0010_0000_0000_0000 + (significand - 0x0080_0000)
            * 0x2000_0000;
        proof {
            lemma_split_64(r);
            lemma_units_of_significand(exponent as nat, significand as nat);
            assert(magnitude_64(r) / 0x0010_0000_0000_0000 == exponent);
            assert(magnitude_64(r) % 0x0010_0000_0000_0000 == (significand - 0x0080_0000) * 0x2000_0000);
            assert(units_64(r) == whole);
        }
        r
    }
}

/// A single that is a number equals just one double.
pub proof fn law_widening_is_unique(bits: u32, r1: SampleFormat, r2: SampleFormat)
    requires
        !is_nan_32(bits),
        is_widening(bits, r1),
        is_widening(bits, r2),
    ensures
        r1 == r2,
{
    if magnitude_64(r1) < magnitude_64(r2) {
        lemma_units_ordered(r1, r2);
    }
    if magnitude_64(r2) < magnitude_64(r1) {
        lemma_units_ordered(r2, r1);
    }
    lemma_split_64(r1);
    lemma_split_64(r2);
}

/// Singles and the doubles that equal them are ordered in the same way.
pub proof fn law_widening_keeps_order(a: u32, b: u32, wide_a: SampleFormat, wide_b: SampleFormat)
    requires
        !is_nan_32(a),
        !is_nan_32(b),
        is_widening(a, wide_a),
        is_widening(b, wide_b),
    ensures
        at_least(wide_a, wide_b) <==> value_32(a) >= value_32(b),
{
    lemma_magnitudes_ordered(a, b, wide_a, wide_b);
    lemma_magnitudes_ordered(b, a, wide_b, wide_a);
}

/// Of two singles and the doubles that equal them, the magnitudes are ordered in the same way.
proof fn lemma_magnitudes_ordered(a: u32, b: u32, wide_a: SampleFormat, wide_b: SampleFormat)
    requires
        !is_nan_32(a),
        !is_nan_32(b),
        is_widening(a, wide_a),
        is_widening(b, wide_b),
    ensures
        units_64(wide_a) <= units_64(wide_b) <==> units_32(a) <= units_32(b),
        units_64(wide_a) == 0 <==> units_32(a) == 0,
{
    let q = pow2(UNIT_RATIO_EXPONENT as nat);
    lemma_pow2_pos(UNIT_RATIO_EXPONENT as nat);
    let (ua, ub) = (units_32(a) as int, units_32(b) as int);
    assert(ua * q <= ub * q <==> ua <= ub) by (nonlinear_arith)
        requires
            q > 0,
    ;
    assert(ua * q == 0 <==> ua == 0) by (nonlinear_arith)
        requires
            q > 0,
    ;
    lemma_units_of_zero(wide_a);
    if magnitude_32(a) > 0 {
        assert(0u32 & MAGNITUDE_32 == 0) by (bit_vector);
        lemma_units_32_ordered(0, a);
    }
    if magnitude_32(a) < magnitude_32(b) {
        lemma_units_32_ordered(a, b);
    } else if magnitude_32(b) < magnitude_32(a) {
        lemma_units_32_ordered(b, a);
    }
    if magnitude_64(wide_a) < magnitude_64(wide_b) {
        lemma_units_ordered(wide_a, wide_b);
    } else if magnitude_64(wide_b) < magnitude_64(wide_a) {
        lemma_units_ordered(wide_b, wide_a);
    }
}

/// Numbers are ordered: of two, one is at least the other, and what is at least a second that is at
/// least a third is at least the third.
pub proof fn law_numbers_are_ordered(a: SampleFormat, b: SampleFormat, c: SampleFormat)
    requires
        !is_nan_64(a),
        !is_nan_64(b),
        !is_nan_64(c),
    ensures
        at_least(a, b) || at_least(b, a),
        at_least(a, b) && at_least(b, c) ==> at_least(a, c),
{
}


/// Comparison goes by what the bits say: of two numbers without a sign the one with the larger bits
/// is larger, of two with a sign the one with the smaller bits, one without a sign is never below
/// one with a sign, and only the two zeros are at least each other across signs. Bits past those of
/// infinity belong to no number, and compare with nothing.
pub proof fn law_comparison_goes_by_bits(a: SampleFormat, b: SampleFormat)
    ensures
        a % 0x8000_0000_0000_0000 > 0x7ff0_0000_0000_0000 || b % 0x8000_0000_0000_0000
            > 0x7ff0_0000_0000_0000 ==> !at_least(a, b) && !at_least(b, a),
        a <= 0x7ff0_0000_0000_0000 && b <= 0x7ff0_0000_0000_0000 ==> (at_least(a, b) <==> a >= b),
        0x8000_0000_0000_0000 <= a <= 0xfff0_0000_0000_0000 && 0x8000_0000_0000_0000 <= b
            <= 0xfff0_0000_0000_0000 ==> (at_least(a, b) <==> a <= b),
        a <= 0x7ff0_0000_0000_0000 && 0x8000_0000_0000_0000 <= b <= 0xfff0_0000_0000_0000 ==> {
            &&& at_least(a, b)
            &&& at_least(b, a) <==> a == 0 && b == 0x8000_0000_0000_0000
        },
{
    law_doubles_are_ordered_as_their_bits(a, b);
    law_doubles_are_ordered_as_their_bits(b, a);
    lemma_split_64(a);
    lemma_split_64(b);
}

/// The bits that belong to no number are those past infinity, with or without a sign.
pub proof fn law_no_number_past_infinity(single: u32, double: SampleFormat)
    ensures
        is_nan_32(single) <==> single % 0x8000_0000 > 0x7f80_0000,
        is_nan_64(double) <==> double % 0x8000_0000_0000_0000 > 0x7ff0_0000_0000_0000,
{
    lemma_split_32(single);
    lemma_split_64(double);
}

/// The double of a significand with its leading bit in place, and of a power of two.
proof fn lemma_widening_of(bits: u32, exponent: nat, significand: nat, r: SampleFormat)
    requires
        0 < exponent < 2047,
        0x0080_0000 <= significand < 0x0100_0000,
        magnitude_32(bits) < INFINITY_32,
        significand * pow2(exponent + 28) == units_32(bits) * pow2(925),
        r == (if bits >= 0x8000_0000 {
            0x8000_0000_0000_0000int
        } else {
            0
        }) + exponent * 0x0010_0000_0000_0000 + (significand - 0x0080_0000) * 0x2000_0000,
    ensures
        is_widening(bits, r),
{
    lemma_split_64(r);
    lemma_units_of_significand(exponent, significand);
    assert(magnitude_64(r) / 0x0010_0000_0000_0000 == exponent);
    assert(magnitude_64(r) % 0x0010_0000_0000_0000 == (significand - 0x0080_0000) * 0x2000_0000);
}

/// What widening does to the bits of a single. The sign stays. An exponent field moves up by 896,
/// and 29 zeros follow the fraction; a number too small for an exponent field gets one, that of its
/// leading bit. Zero stays zero, infinity infinity, and what is no number none.
pub proof fn law_widened_bits(bits: u32, r: SampleFormat, leading: nat)
    requires
        is_widening(bits, r),
    ensures
        ({
            let sign: int = if bits >= 0x8000_0000 {
                0x8000_0000_0000_0000
            } else {
                0
            };
            let m = (bits % 0x8000_0000) as int;
            &&& m == 0 ==> r == sign
            &&& 0x0080_0000 <= m < 0x7f80_0000 ==> r == sign + m * 0x2000_0000 + 896
                * 0x0010_0000_0000_0000
            &&& m == 0x7f80_0000 ==> r == sign + 0x7ff0_0000_0000_0000
            &&& m > 0x7f80_0000 ==> sign + 0x7ff0_0000_0000_0000 < r < sign + 0x8000_0000_0000_0000
            &&& 0 < m < 0x0080_0000 && leading < 23 && pow2(leading) <= m < pow2(leading + 1)
                ==> r == sign + (leading + 874) * 0x0010_0000_0000_0000 + (m - pow2(leading))
                * pow2((52 - leading) as nat)
        }),
{
    let sign: int = if bits >= 0x8000_0000 {
        0x8000_0000_0000_0000
    } else {
        0
    };
    let m = (bits % 0x8000_0000) as int;
    lemma_split_32(bits);
    lemma_split_64(r);
    lemma2_to64();
    assert(magnitude_32(bits) == m);
    if m == 0 {
        assert(units_32(bits) == 0);
        assert(0 * pow2(UNIT_RATIO_EXPONENT as nat) == 0);
        lemma_units_of_zero(r);
    } else if 0x0080_0000 <= m < 0x7f80_0000 {
        let field = (m / 0x0080_0000) as nat;
        let significand = (m % 0x0080_0000 + 0x0080_0000) as nat;
        let (p, q) = (pow2((field - 1) as nat), pow2(925));
        lemma_pow2_adds((field - 1) as nat, 925);
        assert(significand * (p * q) == (significand * p) * q) by (nonlinear_arith);
        let exact = sign + m * 0x2000_0000 + 896 * 0x0010_0000_0000_0000;
        lemma_widening_of(bits, field + 896, significand, exact as u64);
        law_widening_is_unique(bits, r, exact as u64);
    } else if 0 < m < 0x0080_0000 && leading < 23 && pow2(leading) <= m < pow2(leading + 1) {
        let shift = (23 - leading) as nat;
        let (l, t) = (pow2(leading) as int, pow2(shift) as int);
        lemma_pow2_adds(leading, shift);
        lemma_pow2_unfold(leading + 1);
        lemma_pow2_adds(shift, leading + 902);
        lemma_pow2_adds(shift, 29);
        assert(0x0080_0000 <= m * t < 0x0100_0000) by (nonlinear_arith)
            requires
                l <= m < 2 * l,
                l * t == 0x0080_0000,
                t > 0,
        ;
        let p = pow2(leading + 902);
        assert((m * t) * p == m * (t * p)) by (nonlinear_arith);
        assert((m * t - 0x0080_0000) * 0x2000_0000 == (m - l) * (t * 0x2000_0000))
            by (nonlinear_arith)
            requires
                l * t == 0x0080_0000,
        ;
        assert(pow2((52 - leading) as nat) == t * 0x2000_0000);
        assert(units_32(bits) == m);
        let exact = sign + (leading + 874) * 0x0010_0000_0000_0000 + (m * t - 0x0080_0000)
            * 0x2000_0000;
        lemma_widening_of(bits, leading + 874, (m * t) as nat, exact as u64);
        law_widening_is_unique(bits, r, exact as u64);
    }
}

/// Every single that is not zero and too small for an exponent field has a leading bit.
pub proof fn law_small_singles_have_a_leading_bit(m: nat)
    requires
        0 < m < 0x0080_0000,
    ensures
        exists|leading: nat| leading < 23 && #[trigger] pow2(leading) <= m < pow2(leading + 1),
{
    lemma2_to64();
    lemma_leading_bit(m, 23);
}

/// What is below a power of two, and not zero, lies between two smaller ones.
proof fn lemma_leading_bit(m: nat, bound: nat)
    requires
        0 < m < pow2(bound),
    ensures
        exists|leading: nat| leading < bound && #[trigger] pow2(leading) <= m < pow2(leading + 1),
    decreases bound,
{
    lemma2_to64();
    assert(bound > 0);
    let below = (bound - 1) as nat;
    if m < pow2(below) {
        lemma_leading_bit(m, below);
        let leading = choose|leading: nat|
            leading < below && #[trigger] pow2(leading) <= m < pow2(leading + 1);
        assert(leading < bound && pow2(leading) <= m < pow2(leading + 1));
    } else {
        assert(pow2(below) <= m < pow2(below + 1));
    }
}

} // verus!
