use vstd::prelude::*;

use crate::guard::{
    below, below_threshold, exponent_field, fraction_field, lemma_epsilons_valid, magnitude,
    DENOMINATOR_EPSILON, TAN_EPSILON,
};
use crate::kinematics::SPS_DETECTOR_WIRE_DIST_MM;

verus! {

/// The binary64 pattern of 0.0001: the default tilt angle, in degrees.
pub const DEFAULT_ALPHA_DEG: u64 = 0x3F1A_36E2_EB1C_432D;

/// The binary64 pattern of 1.0: the default height scale.
pub const DEFAULT_H: u64 = 0x3FF0_0000_0000_0000;

/// Tilt geometry of the detector relative to the nominal focal plane. Each field
/// holds the binary64 bit pattern of its number.
#[derive(Debug, Clone, Copy, PartialEq, Eq, Structural)]
pub struct FocalPlaneTilt {
    /// Tilt angle, in degrees.
    pub alpha_deg: u64,
    /// Dimensionless height scale, applied to `s`.
    pub h: u64,
    /// Reference length, in mm.
    pub s: u64,
}

impl Default for FocalPlaneTilt {
    /// A nearly untilted, unit-scaled geometry whose reference length is the
    /// detector's wire distance in mm.
    fn default() -> (r: Self)
        ensures
            r.alpha_deg == DEFAULT_ALPHA_DEG,
            r.h == DEFAULT_H,
            r.s == SPS_DETECTOR_WIRE_DIST_MM,
    {
        FocalPlaneTilt { alpha_deg: DEFAULT_ALPHA_DEG, h: DEFAULT_H, s: SPS_DETECTOR_WIRE_DIST_MM }
    }
}

/// The three ways a correction can go.
#[derive(Debug, Clone, Copy, PartialEq, Eq, Structural)]
pub enum Branch {
    /// The tilt is negligible: the untilted closed form is the result.
    Untilted,
    /// The projected denominator is negligible: no result exists.
    Singular,
    /// The general projection: numerator over denominator is the result.
    General,
}

/// The branch for the tangent of the tilt angle `tan_a` and the projected
/// denominator `denominator`, both given as binary64 bit patterns. A negligible
/// tangent decides before the denominator is looked at.
pub open spec fn branch_of(tan_a: u64, denominator: u64) -> Branch {
    if below(tan_a, TAN_EPSILON) {
        Branch::Untilted
    } else if below(denominator, DENOMINATOR_EPSILON) {
        Branch::Singular
    } else {
        Branch::General
    }
}

/// Whether a bit pattern encodes zero, of either sign.
pub open spec fn is_zero_bits(b: u64) -> bool {
    exponent_field(b) == 0 && fraction_field(b) == 0
}

/// Picks the branch of the correction from the bit patterns of the tangent of
/// the tilt angle and of the projected denominator.
pub fn select_branch(tan_a: u64, denominator: u64) -> (r: Branch)
    ensures
        r == branch_of(tan_a, denominator),
{
    proof {
        lemma_epsilons_valid();
    }
    if below_threshold(tan_a, TAN_EPSILON) {
        Branch::Untilted
    } else if below_threshold(denominator, DENOMINATOR_EPSILON) {
        Branch::Singular
    } else {
        Branch::General
    }
}

proof fn lemma_zero_magnitude(b: u64)
    requires
        is_zero_bits(b),
    ensures
        magnitude(b) == 0,
{
    assert(magnitude(b) == 0 * vstd::arithmetic::power2::pow2(0));
}

/// A tangent of exactly zero, of either sign, always takes the untilted branch,
/// whatever the denominator.
pub proof fn lemma_zero_tilt_is_untilted(tan_a: u64, denominator: u64)
    requires
        is_zero_bits(tan_a),
    ensures
        branch_of(tan_a, denominator) == Branch::Untilted,
{
    lemma_epsilons_valid();
    lemma_zero_magnitude(tan_a);
}

/// Past the untilted branch, a denominator that is exactly zero, of either sign,
/// is always reported singular.
pub proof fn lemma_zero_denominator_is_singular(tan_a: u64, denominator: u64)
    requires
        !below(tan_a, TAN_EPSILON),
        is_zero_bits(denominator),
    ensures
        branch_of(tan_a, denominator) == Branch::Singular,
{
    lemma_epsilons_valid();
    lemma_zero_magnitude(denominator);
}

} // verus!
