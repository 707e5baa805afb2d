//! The per-body setting that overrides how a body meets a one-way platform.

use vstd::prelude::*;

verus! {

/// How a body behaves when it touches a one-way platform.
#[derive(Copy, Clone, PartialEq, Eq, Debug, Structural)]
pub enum PassThroughOneWayPlatform {
    /// Passes through unless the contact normal is in line with the
    /// platform's local up axis, i.e. unless the body stands on top.
    ByNormal,
    /// Always passes through; set for a while to let an actor drop down
    /// through the platform it stands on.
    Always,
    /// Never passes through.
    Never,
}

impl Default for PassThroughOneWayPlatform {
    fn default() -> (policy: Self)
        ensures
            policy == PassThroughOneWayPlatform::ByNormal,
    {
        PassThroughOneWayPlatform::ByNormal
    }
}

/// The policy that applies to a body: its own, or `ByNormal` where the body
/// carries none.
pub open spec fn effective_policy(policy: Option<PassThroughOneWayPlatform>)
    -> PassThroughOneWayPlatform {
    match policy {
        Some(p) => p,
        None => PassThroughOneWayPlatform::ByNormal,
    }
}

/// The policy of an actor for the coming step: `Always` while the actor asks
/// to drop through, `ByNormal` otherwise. A body whose policy turns to
/// `Always` has to be woken by the caller, or it will not start falling.
pub fn pass_through_one_way_platform(drop_requested: bool) -> (policy: PassThroughOneWayPlatform)
    ensures
        policy == if drop_requested {
            PassThroughOneWayPlatform::Always
        } else {
            PassThroughOneWayPlatform::ByNormal
        },
{
    if drop_requested {
        PassThroughOneWayPlatform::Always
    } else {
        PassThroughOneWayPlatform::ByNormal
    }
}

} // verus!
