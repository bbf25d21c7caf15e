use vstd::prelude::*;
use vstd::arithmetic::power2::{
    lemma2_to64, lemma2_to64_rest, lemma_pow2_adds, lemma_pow2_pos, lemma_pow2_strictly_increases,
    pow2,
};

verus! {

/// Clears the sign bit of an IEEE-754 binary64 bit pattern.
pub const MAGNITUDE_MASK: u64 = 0x7FFF_FFFF_FFFF_FFFF;

/// The biased exponent field of a binary64 bit pattern.
pub open spec fn exponent_field(b: u64) -> nat {
    ((b >> 52u64) & 0x7FFu64) as nat
}

/// The stored fraction field of a binary64 bit pattern.
pub open spec fn fraction_field(b: u64) -> nat {
    (b & 0xF_FFFF_FFFF_FFFFu64) as nat
}

/// Whether the pattern encodes a finite number (not an infinity, not a NaN).
pub open spec fn is_finite_bits(b: u64) -> bool {
    exponent_field(b) < 0x7FF
}

/// The integer significand, with the implicit leading bit for normal numbers.
pub open spec fn significand(b: u64) -> nat {
    if exponent_field(b) == 0 {
        fraction_field(b)
    } else {
        fraction_field(b) + pow2(52)
    }
}

/// The power of two that scales the significand, counted from the smallest
/// subnormal step.
pub open spec fn scale(b: u64) -> nat {
    if exponent_field(b) == 0 {
        0
    } else {
        (exponent_field(b) - 1) as nat
    }
}

/// The absolute value of a finite pattern, in units of the smallest subnormal
/// (2 to the power -1074).
pub open spec fn magnitude(b: u64) -> nat {
    significand(b) * pow2(scale(b))
}

/// Whether `|value| < limit` holds for the number `value` encodes: a NaN or an
/// infinity is never below a finite limit.
pub open spec fn below(value: u64, limit: u64) -> bool {
    is_finite_bits(value) && magnitude(value) < magnitude(limit)
}

proof fn lemma_masked_order(a: u64, b: u64)
    by (bit_vector)
    ensures
        (a & MAGNITUDE_MASK) < (b & MAGNITUDE_MASK) <==> (((a >> 52u64) & 0x7FFu64) < ((b
            >> 52u64) & 0x7FFu64) || (((a >> 52u64) & 0x7FFu64) == ((b >> 52u64) & 0x7FFu64)
            && (a & 0xF_FFFF_FFFF_FFFFu64) < (b & 0xF_FFFF_FFFF_FFFFu64))),
        (a & MAGNITUDE_MASK) == (b & MAGNITUDE_MASK) <==> (((a >> 52u64) & 0x7FFu64) == ((b
            >> 52u64) & 0x7FFu64) && (a & 0xF_FFFF_FFFF_FFFFu64) == (b & 0xF_FFFF_FFFF_FFFFu64)),
        ((a >> 52u64) & 0x7FFu64) < 0x7FF <==> (a & MAGNITUDE_MASK) < 0x7FF0_0000_0000_0000u64,
        (a & 0xF_FFFF_FFFF_FFFFu64) < 0x10_0000_0000_0000u64,
{
}

/// The binary64 pattern nearest to 1e-12: below it the tangent of the tilt angle
/// counts as zero.
pub const TAN_EPSILON: u64 = 0x3D71_9799_812D_EA11;

/// The binary64 pattern nearest to 1e-12: below it the projected denominator
/// counts as zero and the geometry as singular.
pub const DENOMINATOR_EPSILON: u64 = 0x3D71_9799_812D_EA11;

proof fn lemma_magnitude_order(a: u64, b: u64)
    requires
        is_finite_bits(a),
        is_finite_bits(b),
        fraction_field(a) < pow2(52),
        fraction_field(b) < pow2(52),
    ensures
        exponent_field(a) < exponent_field(b) ==> magnitude(a) < magnitude(b),
        exponent_field(a) == exponent_field(b) && fraction_field(a) < fraction_field(b)
            ==> magnitude(a) < magnitude(b),
        exponent_field(a) == exponent_field(b) && fraction_field(a) == fraction_field(b)
            ==> magnitude(a) == magnitude(b),
{
    let sa = scale(a);
    let sb = scale(b);
    let p52 = pow2(52);
    let qa = pow2(sa);
    let qb = pow2(sb);
    lemma_pow2_pos(sa);
    lemma_pow2_pos(sb);
    lemma2_to64();
    if exponent_field(a) < exponent_field(b) {
        assert(significand(b) >= p52);
        if exponent_field(a) == 0 {
            assert(significand(a) < p52);
            assert(qb >= 1);
            assert(significand(b) * qb >= p52) by (nonlinear_arith)
                requires
                    significand(b) >= p52,
                    qb >= 1,
            ;
            assert(magnitude(a) == significand(a));
        } else {
            assert(sa + 1 <= sb);
            lemma_pow2_adds(sa, 1);
            assert(pow2(sa + 1) == 2 * qa);
            if sa + 1 < sb {
                lemma_pow2_strictly_increases(sa + 1, sb);
            }
            assert(2 * qa <= qb);
            assert(significand(a) < 2 * p52);
            assert(significand(a) * qa < p52 * qb) by (nonlinear_arith)
                requires
                    significand(a) < 2 * p52,
                    2 * qa <= qb,
                    qa > 0,
            ;
            assert(p52 * qb <= significand(b) * qb) by (nonlinear_arith)
                requires
                    significand(b) >= p52,
                    qb > 0,
            ;
        }
    }
    if exponent_field(a) == exponent_field(b) && fraction_field(a) < fraction_field(b) {
        assert(significand(a) < significand(b));
        assert(sa == sb);
        assert(significand(a) * qa < significand(b) * qa) by (nonlinear_arith)
            requires
                significand(a) < significand(b),
                qa > 0,
        ;
    }
}

/// Tells whether the number that `value` encodes has an absolute value strictly
/// below the finite number that `limit` encodes, working on the bit patterns
/// alone. A NaN or an infinity is never below the limit.
pub fn below_threshold(value: u64, limit: u64) -> (r: bool)
    requires
        is_finite_bits(limit),
    ensures
        r == below(value, limit),
{
    proof {
        lemma_masked_order(value, limit);
        lemma_masked_order(limit, value);
        lemma2_to64_rest();
        if is_finite_bits(value) {
            lemma_magnitude_order(value, limit);
            lemma_magnitude_order(limit, value);
        }
    }
    (value & MAGNITUDE_MASK) < (limit & MAGNITUDE_MASK)
}

/// Both thresholds hold the fields of the binary64 number nearest to 1e-12,
/// which is finite and strictly positive, so they meet the precondition of
/// `below_threshold` and zero is below each of them.
pub proof fn lemma_epsilons_valid()
    ensures
        exponent_field(TAN_EPSILON) == 0x3D7,
        fraction_field(TAN_EPSILON) == 0x1_9799_812D_EA11,
        exponent_field(DENOMINATOR_EPSILON) == 0x3D7,
        fraction_field(DENOMINATOR_EPSILON) == 0x1_9799_812D_EA11,
        is_finite_bits(TAN_EPSILON),
        is_finite_bits(DENOMINATOR_EPSILON),
        magnitude(TAN_EPSILON) > 0,
        magnitude(DENOMINATOR_EPSILON) > 0,
{
    assert(exponent_field(TAN_EPSILON) == 0x3D7) by (bit_vector);
    assert(exponent_field(DENOMINATOR_EPSILON) == 0x3D7) by (bit_vector);
    assert(fraction_field(TAN_EPSILON) == 0x1_9799_812D_EA11) by (bit_vector);
    assert(fraction_field(DENOMINATOR_EPSILON) == 0x1_9799_812D_EA11) by (bit_vector);
    lemma_pow2_pos(52);
    lemma_pow2_pos(scale(TAN_EPSILON));
    lemma_pow2_pos(scale(DENOMINATOR_EPSILON));
    let s = significand(TAN_EPSILON);
    let q = pow2(scale(TAN_EPSILON));
    assert(s * q > 0) by (nonlinear_arith)
        requires
            s > 0,
            q > 0,
    ;
}

} // verus!
