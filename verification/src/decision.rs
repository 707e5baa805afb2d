//! The decision the filter makes for one contact pair that involves a
//! one-way platform.

use crate::contact::{Contacts, RelevantNormal, ALIGNMENT_THRESHOLD};
use crate::platform::OneWayPlatform;
use crate::policy::{effective_policy, PassThroughOneWayPlatform};
use vstd::prelude::*;

verus! {

/// Whether a body passes through a platform this step, given
/// - `passing`: the body was in the platform's pass set before the step,
/// - `penetrating`: some contact point of the pair overlaps,
/// - `policy`: the body's policy,
/// - `aligned`: every manifold's normal on the platform's side points up.
///
/// A body that is passing keeps passing while it penetrates. Otherwise a
/// body passes if its policy is `Always`, or if its policy is `ByNormal`, it
/// is not on top of the platform and it already penetrates. A body that
/// passes is in the pass set after the step and its pair is discarded; a
/// body that does not is out of the pass set and its pair is kept.
pub open spec fn passes(
    passing: bool,
    penetrating: bool,
    policy: PassThroughOneWayPlatform,
    aligned: bool,
) -> bool {
    ||| passing && penetrating
    ||| policy == PassThroughOneWayPlatform::Always
    ||| policy == PassThroughOneWayPlatform::ByNormal && !aligned && penetrating
}

/// Whether the body `other` passes through a platform with pass set
/// `pass_set` this step, where `contacts` is their contact pair, `side` tells
/// which of its normals are the platform's, and `policy` is what `other`
/// carries.
pub open spec fn contact_passes(
    pass_set: Set<u64>,
    other: u64,
    policy: Option<PassThroughOneWayPlatform>,
    side: RelevantNormal,
    contacts: Contacts,
) -> bool {
    passes(
        pass_set.contains(other),
        contacts.spec_any_penetrating(),
        effective_policy(policy),
        contacts.spec_all_aligned(side),
    )
}

/// The pass set after the step in which `other` was found to pass or not.
pub open spec fn pass_set_after(pass_set: Set<u64>, other: u64, passing: bool) -> Set<u64> {
    if passing {
        pass_set.insert(other)
    } else {
        pass_set.remove(other)
    }
}

/// Decides one contact pair between `platform` and the body `other`:
/// returns whether the pair is kept for the solver, and brings the
/// platform's pass set up to date. Only `other` enters or leaves the pass
/// set.
pub fn resolve_contact(
    platform: &mut OneWayPlatform,
    other: u64,
    policy: Option<PassThroughOneWayPlatform>,
    side: RelevantNormal,
    contacts: &Contacts,
) -> (keep: bool)
    ensures
        keep == !contact_passes(old(platform)@, other, policy, side, *contacts),
        final(platform)@ == pass_set_after(old(platform)@, other, !keep),
{
    let penetrating = contacts.any_penetrating();
    if platform.contains(other) {
        if penetrating {
            // Still inside the platform: keep letting it through.
            assert(platform@.insert(other) =~= platform@);
            return false;
        }
        // It has left the platform: forget it.
        platform.remove(other);
    }
    assert(platform@ =~= old(platform)@.remove(other));
    let policy = match policy {
        Some(policy) => policy,
        None => PassThroughOneWayPlatform::ByNormal,
    };
    match policy {
        PassThroughOneWayPlatform::Never => true,
        PassThroughOneWayPlatform::Always => {
            platform.insert(other);
            assert(platform@ =~= old(platform)@.insert(other));
            false
        },
        PassThroughOneWayPlatform::ByNormal => {
            if contacts.all_aligned(side) {
                // The body is on top of the platform.
                true
            } else if penetrating {
                platform.insert(other);
                assert(platform@ =~= old(platform)@.insert(other));
                false
            } else {
                true
            }
        },
    }
}

/// A body whose policy is `Never` and that is not in the pass set is never
/// let through: its pair is kept and the pass set stays as it is, whatever
/// the normals and the penetration.
pub proof fn lemma_never_is_kept(
    pass_set: Set<u64>,
    other: u64,
    side: RelevantNormal,
    contacts: Contacts,
)
    requires
        !pass_set.contains(other),
    ensures
        !contact_passes(
            pass_set,
            other,
            Some(PassThroughOneWayPlatform::Never),
            side,
            contacts,
        ),
        pass_set_after(pass_set, other, false) == pass_set,
{
    assert(pass_set.remove(other) =~= pass_set);
}

/// A body whose policy is `Always` is let through on every contact, the
/// first one too: its pair is discarded and it is in the pass set
/// afterwards.
pub proof fn lemma_always_passes(
    pass_set: Set<u64>,
    other: u64,
    side: RelevantNormal,
    contacts: Contacts,
)
    ensures
        contact_passes(pass_set, other, Some(PassThroughOneWayPlatform::Always), side, contacts),
        pass_set_after(pass_set, other, true).contains(other),
{
}

/// A body in the pass set stays in it, and its pair is discarded, on every
/// step on which it still penetrates, whatever its policy has become. The
/// pass set does not change.
pub proof fn lemma_passing_body_keeps_passing(
    pass_set: Set<u64>,
    other: u64,
    policy: Option<PassThroughOneWayPlatform>,
    side: RelevantNormal,
    contacts: Contacts,
)
    requires
        pass_set.contains(other),
        contacts.spec_any_penetrating(),
    ensures
        contact_passes(pass_set, other, policy, side, contacts),
        pass_set_after(pass_set, other, true) == pass_set,
{
    assert(pass_set.insert(other) =~= pass_set);
}

/// On the first step on which a body no longer penetrates, it is out of the
/// pass set and its pair is kept, unless its policy is `Always` on that
/// step.
pub proof fn lemma_stale_entry_is_removed(
    pass_set: Set<u64>,
    other: u64,
    policy: Option<PassThroughOneWayPlatform>,
    side: RelevantNormal,
    contacts: Contacts,
)
    requires
        !contacts.spec_any_penetrating(),
        effective_policy(policy) != PassThroughOneWayPlatform::Always,
    ensures
        !contact_passes(pass_set, other, policy, side, contacts),
        !pass_set_after(pass_set, other, false).contains(other),
{
}

/// Under `ByNormal`, the default, the pair of a body on top of the platform
/// is kept even if some contact point penetrates: every normal on the
/// platform's side is longer than the epsilon and has an up component of at
/// least the threshold. This does not hold of a body that is in the pass set
/// and still penetrates: that one keeps passing.
pub proof fn lemma_aligned_is_kept(
    pass_set: Set<u64>,
    other: u64,
    policy: Option<PassThroughOneWayPlatform>,
    side: RelevantNormal,
    contacts: Contacts,
)
    requires
        effective_policy(policy) == PassThroughOneWayPlatform::ByNormal,
        contacts.spec_all_aligned(side),
        !(pass_set.contains(other) && contacts.spec_any_penetrating()),
    ensures
        !contact_passes(pass_set, other, policy, side, contacts),
        !pass_set_after(pass_set, other, false).contains(other),
{
}

/// Under `ByNormal`, a body that is not on top of the platform and does not
/// penetrate collides: a first approach from below is never let through.
pub proof fn lemma_unaligned_without_penetration_is_kept(
    pass_set: Set<u64>,
    other: u64,
    policy: Option<PassThroughOneWayPlatform>,
    side: RelevantNormal,
    contacts: Contacts,
)
    requires
        effective_policy(policy) == PassThroughOneWayPlatform::ByNormal,
        !contacts.spec_all_aligned(side),
        !contacts.spec_any_penetrating(),
    ensures
        !contact_passes(pass_set, other, policy, side, contacts),
        !pass_set_after(pass_set, other, false).contains(other),
{
}

/// Under `ByNormal`, a body that is not on top of the platform and
/// penetrates is let through: its pair is discarded and it enters the pass
/// set.
pub proof fn lemma_unaligned_with_penetration_passes(
    pass_set: Set<u64>,
    other: u64,
    policy: Option<PassThroughOneWayPlatform>,
    side: RelevantNormal,
    contacts: Contacts,
)
    requires
        effective_policy(policy) == PassThroughOneWayPlatform::ByNormal,
        !contacts.spec_all_aligned(side),
        contacts.spec_any_penetrating(),
    ensures
        contact_passes(pass_set, other, policy, side, contacts),
        pass_set_after(pass_set, other, true).contains(other),
{
}

/// What one step knows of the pair between a platform and a body: the policy
/// that the body carries on that step, the side of the platform in the pair,
/// and the contacts.
pub struct Step {
    pub policy: Option<PassThroughOneWayPlatform>,
    pub side: RelevantNormal,
    pub contacts: Contacts,
}

/// The pass set after consecutive steps, each of which decides the pair
/// between the platform and `other`.
pub open spec fn pass_set_after_steps(pass_set: Set<u64>, other: u64, steps: Seq<Step>) -> Set<u64>
    decreases steps.len(),
{
    if steps.len() == 0 {
        pass_set
    } else {
        let before = pass_set_after_steps(pass_set, other, steps.drop_last());
        let last = steps.last();
        pass_set_after(
            before,
            other,
            contact_passes(before, other, last.policy, last.side, last.contacts),
        )
    }
}

/// Whether the step at `index` lets the body pass, coming after the steps
/// before it.
pub open spec fn step_passes(pass_set: Set<u64>, other: u64, steps: Seq<Step>, index: int) -> bool {
    contact_passes(
        pass_set_after_steps(pass_set, other, steps.take(index)),
        other,
        steps[index].policy,
        steps[index].side,
        steps[index].contacts,
    )
}

/// A body whose policy is `Always` on its first contact is let through on
/// that step and on every following step on which it still penetrates: each
/// of these pairs is discarded and the body is in the pass set after each
/// step, whatever its policy is on the later steps and wherever the normals
/// point.
pub proof fn lemma_drop_through_lasts(pass_set: Set<u64>, other: u64, steps: Seq<Step>)
    requires
        steps.len() > 0,
        effective_policy(steps[0].policy) == PassThroughOneWayPlatform::Always,
        forall|i: int|
            1 <= i < steps.len() ==> (#[trigger] steps[i]).contacts.spec_any_penetrating(),
    ensures
        forall|i: int|
            0 <= i < steps.len() ==> #[trigger] step_passes(pass_set, other, steps, i)
                && pass_set_after_steps(pass_set, other, steps.take(i + 1)).contains(other),
    decreases steps.len(),
{
    let front = steps.drop_last();
    let last = steps.len() - 1;
    assert(steps.take(last + 1) =~= steps);
    assert(steps.take(last) =~= front);
    if last > 0 {
        assert(front[0] == steps[0]);
        assert forall|i: int| 1 <= i < front.len() implies (#[trigger] front[i])
            .contacts.spec_any_penetrating() by {
            assert(front[i] == steps[i]);
        }
        lemma_drop_through_lasts(pass_set, other, front);
        assert(step_passes(pass_set, other, front, last - 1));
        assert(front.take(last) =~= front);
        assert forall|i: int| 0 <= i < last implies #[trigger] step_passes(
            pass_set,
            other,
            steps,
            i,
        ) && pass_set_after_steps(pass_set, other, steps.take(i + 1)).contains(other) by {
            assert(step_passes(pass_set, other, front, i));
            assert(front.take(i) =~= steps.take(i));
            assert(front.take(i + 1) =~= steps.take(i + 1));
            assert(front[i] == steps[i]);
        }
    } else {
        assert(front =~= Seq::<Step>::empty());
    }
}

/// A normal whose y component is below the threshold is not aligned, and
/// neither is one of length zero: a pair with such a normal on the
/// platform's side is decided by penetration.
pub proof fn lemma_unaligned_normal(contacts: Contacts, side: RelevantNormal, i: int)
    requires
        0 <= i < contacts.manifolds@.len(),
        ({
            let normal = contacts.manifolds@[i].spec_relevant_normal(side);
            normal.y < ALIGNMENT_THRESHOLD || (normal.x == 0 && normal.y == 0)
        }),
    ensures
        !contacts.spec_all_aligned(side),
{
    assert(!contacts.manifolds@[i].spec_relevant_normal(side).aligned());
}

/// Deciding a pair a second time, from the pass set that the first decision
/// left, gives the same decision and leaves the pass set as it is.
pub proof fn lemma_decision_is_idempotent(
    pass_set: Set<u64>,
    other: u64,
    policy: Option<PassThroughOneWayPlatform>,
    side: RelevantNormal,
    contacts: Contacts,
)
    ensures
        ({
            let first = contact_passes(pass_set, other, policy, side, contacts);
            let after = pass_set_after(pass_set, other, first);
            &&& contact_passes(after, other, policy, side, contacts) == first
            &&& pass_set_after(after, other, first) == after
        }),
{
    let first = contact_passes(pass_set, other, policy, side, contacts);
    let after = pass_set_after(pass_set, other, first);
    assert(pass_set_after(after, other, first) =~= after);
}

/// A decision touches no entry of the pass set but that of the body it is
/// about.
pub proof fn lemma_decision_touches_only_other(
    pass_set: Set<u64>,
    other: u64,
    passing: bool,
    entity: u64,
)
    requires
        entity != other,
    ensures
        pass_set_after(pass_set, other, passing).contains(entity) == pass_set.contains(entity),
{
}

} // verus!
