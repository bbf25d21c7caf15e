//! The tilted focal-plane correction of a split-wire position-sensitive
//! detector, after Shapira et al. (1985): its parameters, held as binary64 bit
//! patterns, and the exact choice of branch from the tangent of the tilt angle
//! and the projected denominator.
pub mod guard;
pub mod kinematics;
pub mod tilt;

pub use guard::{below_threshold, DENOMINATOR_EPSILON, TAN_EPSILON};
pub use kinematics::{SPS_DETECTOR_WIRE_DIST, SPS_DETECTOR_WIRE_DIST_MM};
pub use tilt::{select_branch, Branch, FocalPlaneTilt, DEFAULT_ALPHA_DEG, DEFAULT_H};
