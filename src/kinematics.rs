use vstd::prelude::*;

verus! {

/// Distance between the anode wires of the focal-plane detector, in cm: the
/// binary64 pattern of 4.28625.
pub const SPS_DETECTOR_WIRE_DIST: u64 = 0x4011_251E_B851_EB85;

/// The same distance in mm: the binary64 pattern of the product of
/// `SPS_DETECTOR_WIRE_DIST` and 10, which is 42.8625.
pub const SPS_DETECTOR_WIRE_DIST_MM: u64 = 0x4045_6E66_6666_6666;

} // verus!
