//! The contact data of one physics step, as the filter reads it.
//!
//! Lengths are whole numbers of a fixed small unit, so that every comparison
//! the filter makes is exact. A caller that measures in another way rounds a
//! penetration up and the y component of a normal down: then a penetration is
//! positive in units exactly when it is positive, and a normal reaches the
//! alignment threshold in units exactly when it does so as measured.
//! Entities are known by their 64-bit identifiers.

use vstd::prelude::*;

verus! {

/// Number of units that make a length of one.
pub const UNITS_PER_ONE: i64 = 8_388_608;

/// A normal has a direction only if it is longer than this many units.
pub const NORMAL_EPSILON: i64 = 1;

/// Least dot product with the up axis, in units, of a normal that counts as
/// pointing up: one half, which lets a contact lean up to sixty degrees from
/// straight up.
pub const ALIGNMENT_THRESHOLD: i64 = 4_194_304;

/// A vector in the local frame of a body, in units.
#[derive(Copy, Clone, PartialEq, Eq, Debug, Structural)]
pub struct Vector {
    pub x: i32,
    pub y: i32,
}

/// The up axis of a body's local frame: the vector of length one, that is of
/// `UNITS_PER_ONE` units, along +Y. A normal of a manifold is given in the
/// frame of its body, so on a rotated platform it is still this axis that
/// tells what is on top.
pub open spec fn up_axis() -> Vector {
    Vector { x: 0, y: 8_388_608 }
}

impl Vector {
    /// The dot product, in square units.
    pub open spec fn dot(self, other: Vector) -> int {
        self.x * other.x + self.y * other.y
    }

    /// The square of the length, in square units.
    pub open spec fn length_squared(self) -> int {
        self.dot(self)
    }

    /// A normal is aligned with the up axis if it is longer than the epsilon
    /// and its dot product with the up axis is at least the threshold. A
    /// normal of length zero is never aligned.
    pub open spec fn aligned(self) -> bool {
        &&& self.length_squared() > NORMAL_EPSILON * NORMAL_EPSILON
        &&& self.dot(up_axis()) >= ALIGNMENT_THRESHOLD * UNITS_PER_ONE
    }

    /// Whether this normal is aligned with the up axis of its frame.
    pub fn is_aligned(&self) -> (aligned: bool)
        ensures
            aligned == self.aligned(),
    {
        let x: i64 = self.x as i64;
        let y: i64 = self.y as i64;
        assert(0 <= x * x <= 0x4000_0000_0000_0000) by (nonlinear_arith)
            requires
                -0x8000_0000 <= x <= 0x7fff_ffff,
        ;
        assert(0 <= y * y <= 0x4000_0000_0000_0000) by (nonlinear_arith)
            requires
                -0x8000_0000 <= y <= 0x7fff_ffff,
        ;
        let xx: u64 = (x * x) as u64;
        let yy: u64 = (y * y) as u64;
        let length_squared: u64 = xx + yy;
        let epsilon_squared: u64 = (NORMAL_EPSILON * NORMAL_EPSILON) as u64;
        // The up axis has no x component, so only y counts in the dot product.
        let along_up: i64 = y * UNITS_PER_ONE;
        length_squared > epsilon_squared && along_up >= ALIGNMENT_THRESHOLD * UNITS_PER_ONE
    }
}

/// The up axis has length one and no component but y.
pub proof fn lemma_up_axis_is_unit()
    ensures
        up_axis().x == 0,
        up_axis().y == UNITS_PER_ONE,
        up_axis().length_squared() == UNITS_PER_ONE * UNITS_PER_ONE,
{
}

/// The up axis is +Y and the threshold lies far above the epsilon, so a
/// normal is aligned exactly when its y component reaches the threshold.
pub proof fn lemma_aligned_by_up_component(normal: Vector)
    ensures
        normal.aligned() <==> normal.y >= ALIGNMENT_THRESHOLD,
{
    let x = normal.x as int;
    let y = normal.y as int;
    assert(x * x >= 0) by (nonlinear_arith);
    if y >= ALIGNMENT_THRESHOLD {
        assert(y * y > 1) by (nonlinear_arith)
            requires
                y >= 2,
        ;
    }
}

/// One contact point of a manifold.
#[derive(Copy, Clone, PartialEq, Eq, Debug, Structural)]
pub struct ContactData {
    /// Signed overlap at this point, in units; positive where the shapes
    /// overlap.
    pub penetration: i64,
}

impl ContactData {
    /// The shapes overlap at this point.
    pub open spec fn penetrating(self) -> bool {
        self.penetration > 0
    }
}

/// Which of the two normals of a manifold belongs to the platform.
#[derive(Copy, Clone, PartialEq, Eq, Debug, Structural)]
pub enum RelevantNormal {
    /// The platform is the first entity of the pair.
    Normal1,
    /// The platform is the second entity of the pair.
    Normal2,
}

/// How two shapes touch: one normal per body, each in that body's own frame,
/// and the contact points.
#[derive(Clone, PartialEq, Eq, Debug)]
pub struct ContactManifold {
    pub normal1: Vector,
    pub normal2: Vector,
    pub contacts: Vec<ContactData>,
}

impl ContactManifold {
    /// Some contact point of the manifold is penetrating.
    pub open spec fn spec_any_penetrating(self) -> bool {
        exists|j: int|
            0 <= j < self.contacts@.len() && (#[trigger] self.contacts@[j]).penetrating()
    }

    /// The normal on the platform's side.
    pub open spec fn spec_relevant_normal(self, side: RelevantNormal) -> Vector {
        match side {
            RelevantNormal::Normal1 => self.normal1,
            RelevantNormal::Normal2 => self.normal2,
        }
    }

    /// Whether some contact point of the manifold is penetrating.
    pub fn any_penetrating(&self) -> (found: bool)
        ensures
            found == self.spec_any_penetrating(),
    {
        let mut j: usize = 0;
        while j < self.contacts.len()
            invariant
                j <= self.contacts@.len(),
                forall|k: int| 0 <= k < j ==> !(#[trigger] self.contacts@[k]).penetrating(),
            decreases self.contacts@.len() - j,
        {
            if self.contacts[j].penetration > 0 {
                return true;
            }
            j += 1;
        }
        false
    }

    /// The normal on the platform's side.
    pub fn relevant_normal(&self, side: RelevantNormal) -> (normal: Vector)
        ensures
            normal == self.spec_relevant_normal(side),
    {
        match side {
            RelevantNormal::Normal1 => self.normal1,
            RelevantNormal::Normal2 => self.normal2,
        }
    }
}

/// All contacts between two entities in one step.
#[derive(Clone, PartialEq, Eq, Debug)]
pub struct Contacts {
    pub entity1: u64,
    pub entity2: u64,
    pub manifolds: Vec<ContactManifold>,
}

impl Contacts {
    /// Some contact point of some manifold of the pair is penetrating.
    pub open spec fn spec_any_penetrating(self) -> bool {
        exists|i: int|
            0 <= i < self.manifolds@.len() && (#[trigger] self.manifolds@[i]).spec_any_penetrating()
    }

    /// Every manifold's normal on the platform's side is aligned with the
    /// platform's up axis. This holds of a pair without manifolds.
    pub open spec fn spec_all_aligned(self, side: RelevantNormal) -> bool {
        forall|i: int|
            0 <= i < self.manifolds@.len() ==> (#[trigger] self.manifolds@[i]).spec_relevant_normal(
                side,
            ).aligned()
    }

    /// Whether some contact point of the pair is penetrating.
    pub fn any_penetrating(&self) -> (found: bool)
        ensures
            found == self.spec_any_penetrating(),
    {
        let mut i: usize = 0;
        while i < self.manifolds.len()
            invariant
                i <= self.manifolds@.len(),
                forall|k: int| 0 <= k < i ==> !(#[trigger] self.manifolds@[k]).spec_any_penetrating(),
            decreases self.manifolds@.len() - i,
        {
            if self.manifolds[i].any_penetrating() {
                return true;
            }
            i += 1;
        }
        false
    }

    /// Whether every manifold's normal on the platform's side is aligned
    /// with the platform's up axis.
    pub fn all_aligned(&self, side: RelevantNormal) -> (aligned: bool)
        ensures
            aligned == self.spec_all_aligned(side),
    {
        let mut i: usize = 0;
        while i < self.manifolds.len()
            invariant
                i <= self.manifolds@.len(),
                forall|k: int|
                    0 <= k < i ==> (#[trigger] self.manifolds@[k]).spec_relevant_normal(
                        side,
                    ).aligned(),
            decreases self.manifolds@.len() - i,
        {
            if !self.manifolds[i].relevant_normal(side).is_aligned() {
                return false;
            }
            i += 1;
        }
        true
    }
}

} // verus!
