//! A one-way platform and the set of bodies it currently lets through.

use bevy::utils::HashSet;
use vstd::prelude::*;

verus! {

/// The hash set of entity identifiers behind a platform's pass set: the
/// `HashSet` of bevy's `utils`, a hashbrown set with a fixed hasher. Nothing
/// is proved of that set. What it holds is known only by the name
/// `pass_set_contents`, and what its methods do only by the contracts of the
/// functions below, each of which makes one call and is taken on trust.
#[verifier::external_body]
#[derive(PartialEq, Eq, Debug)]
pub struct PassSet {
    entities: HashSet<u64>,
}

/// The identifiers that a pass set holds.
pub uninterp spec fn pass_set_contents(set: PassSet) -> Set<u64>;

/// `HashSet::default` of bevy's `utils`: a set that holds nothing.
#[verifier::external_body]
fn pass_set_new() -> (set: PassSet)
    ensures
        pass_set_contents(set) == Set::<u64>::empty(),
{
    PassSet { entities: HashSet::default() }
}

/// `HashSet::contains`: whether the set holds `entity`.
#[verifier::external_body]
fn pass_set_contains(set: &PassSet, entity: u64) -> (found: bool)
    ensures
        found == pass_set_contents(*set).contains(entity),
{
    set.entities.contains(&entity)
}

/// `HashSet::insert`: afterwards the set holds `entity` besides what it held;
/// the result tells whether `entity` was new to it.
#[verifier::external_body]
fn pass_set_insert(set: &mut PassSet, entity: u64) -> (fresh: bool)
    ensures
        pass_set_contents(*final(set)) == pass_set_contents(*old(set)).insert(entity),
        fresh == !pass_set_contents(*old(set)).contains(entity),
{
    set.entities.insert(entity)
}

/// `HashSet::remove`: afterwards the set holds what it held but `entity`; the
/// result tells whether it held `entity`.
#[verifier::external_body]
fn pass_set_remove(set: &mut PassSet, entity: u64) -> (found: bool)
    ensures
        pass_set_contents(*final(set)) == pass_set_contents(*old(set)).remove(entity),
        found == pass_set_contents(*old(set)).contains(entity),
{
    set.entities.remove(&entity)
}

/// `HashSet::clone`: a set with the same contents.
#[verifier::external_body]
fn pass_set_clone(set: &PassSet) -> (copy: PassSet)
    ensures
        pass_set_contents(copy) == pass_set_contents(*set),
{
    PassSet { entities: set.entities.clone() }
}

/// A platform that collides only with bodies standing on it. It records the
/// bodies that are passing through it: its pass set.
#[derive(PartialEq, Eq, Debug)]
pub struct OneWayPlatform {
    passing: PassSet,
}

impl View for OneWayPlatform {
    type V = Set<u64>;

    /// The pass set: the identifiers of the bodies currently let through.
    closed spec fn view(&self) -> Set<u64> {
        pass_set_contents(self.passing)
    }
}

impl Default for OneWayPlatform {
    /// A platform that lets nothing through yet.
    fn default() -> (platform: Self)
        ensures
            platform@ == Set::<u64>::empty(),
    {
        OneWayPlatform { passing: pass_set_new() }
    }
}

impl Clone for OneWayPlatform {
    fn clone(&self) -> (copy: Self)
        ensures
            copy@ == self@,
    {
        OneWayPlatform { passing: pass_set_clone(&self.passing) }
    }
}

impl OneWayPlatform {
    /// Whether `entity` is currently let through.
    pub fn contains(&self, entity: u64) -> (found: bool)
        ensures
            found == self@.contains(entity),
    {
        pass_set_contains(&self.passing, entity)
    }

    /// Lets `entity` through from now on. Returns whether it was not let
    /// through before.
    pub fn insert(&mut self, entity: u64) -> (fresh: bool)
        ensures
            final(self)@ == old(self)@.insert(entity),
            fresh == !old(self)@.contains(entity),
    {
        pass_set_insert(&mut self.passing, entity)
    }

    /// Stops letting `entity` through. Returns whether it was let through
    /// before.
    pub fn remove(&mut self, entity: u64) -> (found: bool)
        ensures
            final(self)@ == old(self)@.remove(entity),
            found == old(self)@.contains(entity),
    {
        pass_set_remove(&mut self.passing, entity)
    }
}

} // verus!
