//! The filter for one physics step: it walks the contact pairs of the step in
//! order, keeps the pass set of every platform up to date, and leaves in the
//! list only the pairs that the solver has to resolve.

use crate::contact::{Contacts, RelevantNormal};
use crate::decision::{
    contact_passes, lemma_decision_is_idempotent, pass_set_after, resolve_contact,
};
use crate::platform::OneWayPlatform;
use crate::policy::PassThroughOneWayPlatform;
use std::collections::HashMap;
use vstd::prelude::*;

verus! {

broadcast use vstd::std_specs::hash::group_hash_axioms;

/// The roles of the two entities of a contact pair that involves a platform.
#[derive(Copy, Clone, PartialEq, Eq, Debug, Structural)]
pub struct PlatformContact {
    /// The platform of the pair.
    pub platform: u64,
    /// The body that touches it.
    pub other: u64,
    /// Which normals of the pair's manifolds are the platform's.
    pub side: RelevantNormal,
}

/// The pass set of every platform, by the platform's identifier.
pub open spec fn pass_sets(platforms: Map<u64, OneWayPlatform>) -> Map<u64, Set<u64>> {
    Map::new(|entity: u64| platforms.dom().contains(entity), |entity: u64| platforms[entity]@)
}

/// The platform of a pair, with the other body and the platform's side. The
/// first entity is looked up first: where both are platforms, the first one
/// is the platform of the pair. `None` where neither is a platform.
pub open spec fn platform_contact(platforms: Set<u64>, contacts: Contacts) -> Option<
    PlatformContact,
> {
    if platforms.contains(contacts.entity1) {
        Some(
            PlatformContact {
                platform: contacts.entity1,
                other: contacts.entity2,
                side: RelevantNormal::Normal1,
            },
        )
    } else if platforms.contains(contacts.entity2) {
        Some(
            PlatformContact {
                platform: contacts.entity2,
                other: contacts.entity1,
                side: RelevantNormal::Normal2,
            },
        )
    } else {
        None
    }
}

/// The policy that `other` carries as a passer. A platform carries none, nor
/// does an entity that `policies` does not know.
pub open spec fn policy_of(
    platforms: Set<u64>,
    policies: Map<u64, PassThroughOneWayPlatform>,
    other: u64,
) -> Option<PassThroughOneWayPlatform> {
    if !platforms.contains(other) && policies.dom().contains(other) {
        Some(policies[other])
    } else {
        None
    }
}

/// Whether the filter discards `contacts`, where `sets` holds the pass sets
/// as they are when the pair's turn comes. A pair without a platform is
/// never discarded.
pub open spec fn discards(
    sets: Map<u64, Set<u64>>,
    policies: Map<u64, PassThroughOneWayPlatform>,
    contacts: Contacts,
) -> bool {
    match platform_contact(sets.dom(), contacts) {
        Some(pc) => contact_passes(
            sets[pc.platform],
            pc.other,
            policy_of(sets.dom(), policies, pc.other),
            pc.side,
            contacts,
        ),
        None => false,
    }
}

/// The pass sets after the filter has dealt with `contacts`. Only the pass
/// set of the pair's platform can change, and in it only the membership of
/// the other body.
pub open spec fn sets_after_pair(
    sets: Map<u64, Set<u64>>,
    policies: Map<u64, PassThroughOneWayPlatform>,
    contacts: Contacts,
) -> Map<u64, Set<u64>> {
    match platform_contact(sets.dom(), contacts) {
        Some(pc) => sets.insert(
            pc.platform,
            pass_set_after(sets[pc.platform], pc.other, discards(sets, policies, contacts)),
        ),
        None => sets,
    }
}

/// The pass sets after the filter has dealt with every pair of `collisions`,
/// first to last.
pub open spec fn sets_after(
    sets: Map<u64, Set<u64>>,
    policies: Map<u64, PassThroughOneWayPlatform>,
    collisions: Seq<Contacts>,
) -> Map<u64, Set<u64>>
    decreases collisions.len(),
{
    if collisions.len() == 0 {
        sets
    } else {
        sets_after_pair(
            sets_after(sets, policies, collisions.drop_last()),
            policies,
            collisions.last(),
        )
    }
}

/// The pairs of `collisions` that the filter keeps, in their order.
pub open spec fn kept(
    sets: Map<u64, Set<u64>>,
    policies: Map<u64, PassThroughOneWayPlatform>,
    collisions: Seq<Contacts>,
) -> Seq<Contacts>
    decreases collisions.len(),
{
    if collisions.len() == 0 {
        Seq::empty()
    } else {
        let before = kept(sets, policies, collisions.drop_last());
        if discards(
            sets_after(sets, policies, collisions.drop_last()),
            policies,
            collisions.last(),
        ) {
            before
        } else {
            before.push(collisions.last())
        }
    }
}

/// Finds the platform of a pair among `platforms`.
pub fn find_platform(platforms: &HashMap<u64, OneWayPlatform>, contacts: &Contacts) -> (found:
    Option<PlatformContact>)
    ensures
        found == platform_contact(platforms@.dom(), *contacts),
{
    if platforms.contains_key(&contacts.entity1) {
        Some(
            PlatformContact {
                platform: contacts.entity1,
                other: contacts.entity2,
                side: RelevantNormal::Normal1,
            },
        )
    } else if platforms.contains_key(&contacts.entity2) {
        Some(
            PlatformContact {
                platform: contacts.entity2,
                other: contacts.entity1,
                side: RelevantNormal::Normal2,
            },
        )
    } else {
        None
    }
}

/// Looks up the policy that `other` carries as a passer.
pub fn find_policy(
    platforms: &HashMap<u64, OneWayPlatform>,
    passers: &HashMap<u64, PassThroughOneWayPlatform>,
    other: u64,
) -> (policy: Option<PassThroughOneWayPlatform>)
    ensures
        policy == policy_of(platforms@.dom(), passers@, other),
{
    if platforms.contains_key(&other) {
        None
    } else {
        match passers.get(&other) {
            Some(policy) => Some(*policy),
            None => None,
        }
    }
}

/// Filters the contact pairs of one step. `platforms` holds every one-way
/// platform by its identifier, `passers` the policy of every body that
/// carries one. Afterwards `collisions` holds, in their order, the pairs that
/// the solver has to resolve, and the pass sets are those the walk through
/// the pairs leaves. No platform is added or removed.
pub fn one_way_platform(
    platforms: &mut HashMap<u64, OneWayPlatform>,
    passers: &HashMap<u64, PassThroughOneWayPlatform>,
    collisions: &mut Vec<Contacts>,
)
    ensures
        final(collisions)@ == kept(pass_sets(old(platforms)@), passers@, old(collisions)@),
        pass_sets(final(platforms)@) == sets_after(
            pass_sets(old(platforms)@),
            passers@,
            old(collisions)@,
        ),
        final(platforms)@.dom() == old(platforms)@.dom(),
{
    let ghost all = old(collisions)@;
    let ghost sets = pass_sets(old(platforms)@);
    let ghost mut done: int = 0;
    let mut next: usize = 0;
    while next < collisions.len()
        invariant
            0 <= next <= collisions@.len(),
            0 <= done <= all.len(),
            all.len() - done == collisions@.len() - next,
            collisions@.subrange(0, next as int) == kept(sets, passers@, all.take(done)),
            collisions@.skip(next as int) == all.skip(done),
            pass_sets(platforms@) == sets_after(sets, passers@, all.take(done)),
            platforms@.dom() == old(platforms)@.dom(),
        decreases collisions@.len() - next,
    {
        let ghost before = pass_sets(platforms@);
        let ghost pair = collisions@[next as int];
        let ghost rest = collisions@;
        proof {
            assert(pair == all.skip(done)[0]);
            assert(all.take(done + 1).drop_last() == all.take(done));
            assert(all.take(done + 1).last() == pair);
            assert(before.dom() == platforms@.dom());
        }
        let keep = match find_platform(platforms, &collisions[next]) {
            Some(pc) => {
                let policy = find_policy(platforms, passers, pc.other);
                match platforms.remove(&pc.platform) {
                    Some(mut platform) => {
                        let keep = resolve_contact(
                            &mut platform,
                            pc.other,
                            policy,
                            pc.side,
                            &collisions[next],
                        );
                        platforms.insert(pc.platform, platform);
                        keep
                    },
                    None => true,
                }
            },
            None => true,
        };
        proof {
            assert(keep == !discards(before, passers@, pair));
            assert(pass_sets(platforms@) =~= sets_after_pair(before, passers@, pair));
            assert(platforms@.dom() =~= old(platforms)@.dom());
        }
        if keep {
            proof {
                assert(collisions@.subrange(0, next + 1) == collisions@.subrange(
                    0,
                    next as int,
                ).push(pair));
                assert(collisions@.skip(next + 1) =~= collisions@.skip(next as int).skip(1));
                assert(all.skip(done + 1) =~= all.skip(done).skip(1));
            }
            next += 1;
        } else {
            collisions.remove(next);
            proof {
                assert(collisions@.subrange(0, next as int) == rest.subrange(0, next as int));
                assert(collisions@.skip(next as int) =~= rest.skip(next as int).skip(1));
                assert(all.skip(done + 1) =~= all.skip(done).skip(1));
            }
        }
        proof {
            done = done + 1;
        }
    }
    proof {
        assert(all.take(done) == all);
        assert(collisions@.subrange(0, next as int) == collisions@);
    }
}

/// Whether `contacts` is a pair between the platform `platform` and the
/// other body `other`.
pub open spec fn is_between(
    platforms: Set<u64>,
    contacts: Contacts,
    platform: u64,
    other: u64,
) -> bool {
    match platform_contact(platforms, contacts) {
        Some(pc) => pc.platform == platform && pc.other == other,
        None => false,
    }
}

/// No two pairs of `collisions` are between the same platform and the same
/// other body.
pub open spec fn each_pair_once(platforms: Set<u64>, collisions: Seq<Contacts>) -> bool {
    forall|i: int, j: int, platform: u64, other: u64|
        0 <= i < j < collisions.len() && #[trigger] is_between(
            platforms,
            collisions[i],
            platform,
            other,
        ) ==> !#[trigger] is_between(platforms, collisions[j], platform, other)
}

/// For a step with a single pair, the list-level functions are those of the
/// pair.
pub proof fn lemma_single_pair(
    sets: Map<u64, Set<u64>>,
    policies: Map<u64, PassThroughOneWayPlatform>,
    contacts: Contacts,
)
    ensures
        sets_after(sets, policies, seq![contacts]) == sets_after_pair(sets, policies, contacts),
        kept(sets, policies, seq![contacts]) == if discards(sets, policies, contacts) {
            Seq::<Contacts>::empty()
        } else {
            seq![contacts]
        },
{
    let list = seq![contacts];
    assert(list.drop_last() =~= Seq::<Contacts>::empty());
    assert(list.last() == contacts);
    assert(sets_after(sets, policies, list.drop_last()) == sets);
    assert(kept(sets, policies, list.drop_last()) =~= Seq::<Contacts>::empty());
    assert(Seq::<Contacts>::empty().push(contacts) =~= list);
}

/// A pair without a platform is kept and changes no pass set.
pub proof fn lemma_other_pairs_are_kept(
    sets: Map<u64, Set<u64>>,
    policies: Map<u64, PassThroughOneWayPlatform>,
    contacts: Contacts,
)
    requires
        !sets.dom().contains(contacts.entity1),
        !sets.dom().contains(contacts.entity2),
    ensures
        !discards(sets, policies, contacts),
        sets_after_pair(sets, policies, contacts) == sets,
{
}

/// A pair is discarded exactly when the other body is in the pass set of the
/// pair's platform afterwards; and a pair changes no pass set but that of
/// its platform, and there only the entry of the other body.
pub proof fn lemma_pair_changes_one_entry(
    sets: Map<u64, Set<u64>>,
    policies: Map<u64, PassThroughOneWayPlatform>,
    contacts: Contacts,
    platform: u64,
    other: u64,
)
    requires
        sets.dom().contains(platform),
    ensures
        sets_after_pair(sets, policies, contacts)[platform].contains(other) == if is_between(
            sets.dom(),
            contacts,
            platform,
            other,
        ) {
            discards(sets, policies, contacts)
        } else {
            sets[platform].contains(other)
        },
{
}

/// Dealing with a pair adds no platform and removes none.
pub proof fn lemma_pair_keeps_platforms(
    sets: Map<u64, Set<u64>>,
    policies: Map<u64, PassThroughOneWayPlatform>,
    contacts: Contacts,
)
    ensures
        sets_after_pair(sets, policies, contacts).dom() == sets.dom(),
{
    assert(sets_after_pair(sets, policies, contacts).dom() =~= sets.dom());
}

/// The filter adds no platform and removes none.
pub proof fn lemma_filter_keeps_platforms(
    sets: Map<u64, Set<u64>>,
    policies: Map<u64, PassThroughOneWayPlatform>,
    collisions: Seq<Contacts>,
)
    ensures
        sets_after(sets, policies, collisions).dom() == sets.dom(),
    decreases collisions.len(),
{
    if collisions.len() > 0 {
        lemma_filter_keeps_platforms(sets, policies, collisions.drop_last());
        lemma_pair_keeps_platforms(
            sets_after(sets, policies, collisions.drop_last()),
            policies,
            collisions.last(),
        );
    }
}

/// The filter changes the pass set of a platform only for the bodies that
/// the step's pairs bring into contact with it: of any other body the pass
/// set says after the step what it said before.
pub proof fn lemma_filter_touches_only_contacts(
    sets: Map<u64, Set<u64>>,
    policies: Map<u64, PassThroughOneWayPlatform>,
    collisions: Seq<Contacts>,
    platform: u64,
    other: u64,
)
    requires
        sets.dom().contains(platform),
        forall|i: int|
            0 <= i < collisions.len() ==> !is_between(
                sets.dom(),
                #[trigger] collisions[i],
                platform,
                other,
            ),
    ensures
        sets_after(sets, policies, collisions)[platform].contains(other)
            == sets[platform].contains(other),
    decreases collisions.len(),
{
    if collisions.len() > 0 {
        let front = collisions.drop_last();
        assert forall|i: int| 0 <= i < front.len() implies !is_between(
            sets.dom(),
            #[trigger] front[i],
            platform,
            other,
        ) by {
            assert(front[i] == collisions[i]);
        }
        lemma_filter_touches_only_contacts(sets, policies, front, platform, other);
        lemma_filter_keeps_platforms(sets, policies, front);
        lemma_pair_changes_one_entry(
            sets_after(sets, policies, front),
            policies,
            collisions.last(),
            platform,
            other,
        );
    }
}

/// A body that the filter lets into a pass set is in contact with the
/// platform this step: some pair of the list is between the two.
pub proof fn lemma_entries_come_from_contacts(
    sets: Map<u64, Set<u64>>,
    policies: Map<u64, PassThroughOneWayPlatform>,
    collisions: Seq<Contacts>,
    platform: u64,
    other: u64,
)
    requires
        sets.dom().contains(platform),
        !sets[platform].contains(other),
        sets_after(sets, policies, collisions)[platform].contains(other),
    ensures
        exists|i: int|
            0 <= i < collisions.len() && is_between(
                sets.dom(),
                #[trigger] collisions[i],
                platform,
                other,
            ),
{
    if forall|i: int|
        0 <= i < collisions.len() ==> !is_between(
            sets.dom(),
            #[trigger] collisions[i],
            platform,
            other,
        ) {
        lemma_filter_touches_only_contacts(sets, policies, collisions, platform, other);
    }
}

/// Once the filter has dealt with a pair, the pass set of the pair's platform
/// tells whether the pair was discarded, and goes on telling so to the end
/// of a step in which each pair occurs once.
proof fn lemma_decision_is_remembered(
    sets: Map<u64, Set<u64>>,
    policies: Map<u64, PassThroughOneWayPlatform>,
    collisions: Seq<Contacts>,
    turn: int,
    later: int,
)
    requires
        each_pair_once(sets.dom(), collisions),
        0 <= turn < later <= collisions.len(),
        platform_contact(sets.dom(), collisions[turn]).is_some(),
    ensures
        ({
            let pc = platform_contact(sets.dom(), collisions[turn]).unwrap();
            sets_after(sets, policies, collisions.take(later))[pc.platform].contains(pc.other)
                == discards(
                sets_after(sets, policies, collisions.take(turn)),
                policies,
                collisions[turn],
            )
        }),
    decreases later - turn,
{
    let pc = platform_contact(sets.dom(), collisions[turn]).unwrap();
    let front = collisions.take(later - 1);
    assert(collisions.take(later).drop_last() =~= front);
    assert(collisions.take(later).last() == collisions[later - 1]);
    lemma_filter_keeps_platforms(sets, policies, front);
    assert(is_between(sets.dom(), collisions[turn], pc.platform, pc.other));
    lemma_pair_changes_one_entry(
        sets_after(sets, policies, front),
        policies,
        collisions[later - 1],
        pc.platform,
        pc.other,
    );
    if later - 1 > turn {
        lemma_decision_is_remembered(sets, policies, collisions, turn, later - 1);
    }
}

/// A second run over the same pairs, from the pass sets that the first run
/// left, changes no pass set and keeps the pairs that the first run kept.
proof fn lemma_second_run(
    sets: Map<u64, Set<u64>>,
    policies: Map<u64, PassThroughOneWayPlatform>,
    collisions: Seq<Contacts>,
    turn: int,
)
    requires
        each_pair_once(sets.dom(), collisions),
        0 <= turn <= collisions.len(),
    ensures
        ({
            let settled = sets_after(sets, policies, collisions);
            &&& sets_after(settled, policies, collisions.take(turn)) == settled
            &&& kept(settled, policies, collisions.take(turn)) == kept(
                sets,
                policies,
                collisions.take(turn),
            )
        }),
    decreases turn,
{
    let settled = sets_after(sets, policies, collisions);
    if turn > 0 {
        let front = collisions.take(turn - 1);
        let pair = collisions[turn - 1];
        assert(collisions.take(turn).drop_last() =~= front);
        assert(collisions.take(turn).last() == pair);
        lemma_second_run(sets, policies, collisions, turn - 1);
        lemma_filter_keeps_platforms(sets, policies, collisions);
        lemma_filter_keeps_platforms(sets, policies, front);
        assert(collisions.take(collisions.len() as int) =~= collisions);
        if platform_contact(sets.dom(), pair).is_some() {
            let pc = platform_contact(sets.dom(), pair).unwrap();
            lemma_decision_is_remembered(
                sets,
                policies,
                collisions,
                turn - 1,
                collisions.len() as int,
            );
            let at_turn = sets_after(sets, policies, front);
            let policy = policy_of(sets.dom(), policies, pc.other);
            lemma_decision_is_idempotent(at_turn[pc.platform], pc.other, policy, pc.side, pair);
            let first = discards(at_turn, policies, pair);
            assert(discards(settled, policies, pair) == first);
            assert(pass_set_after(settled[pc.platform], pc.other, first)
                =~= settled[pc.platform]);
            assert(sets_after_pair(settled, policies, pair) =~= settled);
        }
    }
}

/// Running the filter a second time on the same list of pairs, from the pass
/// sets that the first run left, keeps the same pairs and changes no pass
/// set, provided that no two pairs of the list are between the same platform
/// and the same other body.
pub proof fn lemma_filter_is_idempotent(
    sets: Map<u64, Set<u64>>,
    policies: Map<u64, PassThroughOneWayPlatform>,
    collisions: Seq<Contacts>,
)
    requires
        each_pair_once(sets.dom(), collisions),
    ensures
        ({
            let settled = sets_after(sets, policies, collisions);
            &&& kept(settled, policies, collisions) == kept(sets, policies, collisions)
            &&& sets_after(settled, policies, collisions) == settled
        }),
{
    lemma_second_run(sets, policies, collisions, collisions.len() as int);
    assert(collisions.take(collisions.len() as int) =~= collisions);
}

} // verus!
