//! The demos on show and the order in which they follow each other.

use vstd::prelude::*;

verus! {

/// The demo that is on show.
#[derive(Copy, Clone, PartialEq, Eq, Debug, Hash, Structural)]
pub enum DemoState {
    Home,
    Colliders,
    ConveyorBelt,
    Magnet,
    Destructible,
}

impl Default for DemoState {
    fn default() -> (state: Self)
        ensures
            state == DemoState::Home,
    {
        DemoState::Home
    }
}

impl DemoState {
    /// The demo that follows this one; after the last comes the first.
    pub open spec fn spec_next(self) -> DemoState {
        match self {
            DemoState::Home => DemoState::Colliders,
            DemoState::Colliders => DemoState::ConveyorBelt,
            DemoState::ConveyorBelt => DemoState::Magnet,
            DemoState::Magnet => DemoState::Destructible,
            DemoState::Destructible => DemoState::Home,
        }
    }

    /// The demo reached from this one in `steps` steps.
    pub open spec fn spec_after(self, steps: nat) -> DemoState
        decreases steps,
    {
        if steps == 0 {
            self
        } else {
            self.spec_after((steps - 1) as nat).spec_next()
        }
    }

    /// The demo that follows this one.
    pub fn next(self) -> (next: DemoState)
        ensures
            next == self.spec_next(),
    {
        match self {
            DemoState::Home => DemoState::Colliders,
            DemoState::Colliders => DemoState::ConveyorBelt,
            DemoState::ConveyorBelt => DemoState::Magnet,
            DemoState::Magnet => DemoState::Destructible,
            DemoState::Destructible => DemoState::Home,
        }
    }
}

/// The demo to change to, given the demo on show and the number of requests
/// for a change that came in since the last update. Any number of requests
/// moves on by one demo; without a request nothing changes.
pub fn handle_edit_demo_state(current: DemoState, requests: usize) -> (next: Option<DemoState>)
    ensures
        next == if requests > 0 {
            Some(current.spec_next())
        } else {
            None
        },
{
    if requests > 0 {
        Some(current.next())
    } else {
        None
    }
}

/// The demos follow each other in a round of five: five steps lead back to
/// where they began, and fewer do not.
pub proof fn lemma_demos_go_round(state: DemoState)
    ensures
        state.spec_after(5) == state,
        forall|steps: nat| 0 < steps < 5 ==> #[trigger] state.spec_after(steps) != state,
{
    reveal_with_fuel(DemoState::spec_after, 6);
}

} // verus!
