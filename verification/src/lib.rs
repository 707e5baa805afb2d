//! The rules of a set of 2D physics demos.
//!
//! Its core is the one-way platform: a platform that collides only with
//! bodies that stand on it. Each physics step, after contacts are generated
//! and before the solver runs, the filter in [`filter`] walks the contact
//! pairs of the step and discards those that belong to a body passing through
//! a platform, keeping per platform the set of bodies that are currently let
//! through. [`decision`] holds the rule for a single pair.

pub mod contact;
pub mod decision;
pub mod demo_state;
pub mod filter;
pub mod magnet;
pub mod platform;
pub mod policy;
