//! The polarity of a magnet.

use vstd::prelude::*;

verus! {

/// The polarity of a magnet's charge.
#[derive(Copy, Clone, PartialEq, Eq, Debug, Structural)]
pub enum MagnetPolarity {
    Positive,
    Negative,
    Neutral,
}

impl MagnetPolarity {
    /// The factor by which the polarity scales the magnet's absolute charge.
    pub open spec fn spec_coefficient(self) -> int {
        match self {
            MagnetPolarity::Positive => 1,
            MagnetPolarity::Negative => -1,
            MagnetPolarity::Neutral => 0,
        }
    }

    /// The polarity an oscillating magnet takes after this one.
    pub open spec fn spec_next(self) -> MagnetPolarity {
        match self {
            MagnetPolarity::Positive => MagnetPolarity::Negative,
            MagnetPolarity::Negative => MagnetPolarity::Neutral,
            MagnetPolarity::Neutral => MagnetPolarity::Positive,
        }
    }

    /// The factor by which the polarity scales the magnet's absolute charge:
    /// charges of equal sign repel, of opposite sign attract, and a neutral
    /// magnet exerts no force.
    pub fn coefficient(self) -> (factor: i8)
        ensures
            factor == self.spec_coefficient(),
    {
        match self {
            MagnetPolarity::Positive => 1,
            MagnetPolarity::Negative => -1,
            MagnetPolarity::Neutral => 0,
        }
    }

    /// The polarity an oscillating magnet takes after this one.
    pub fn next(self) -> (next: MagnetPolarity)
        ensures
            next == self.spec_next(),
    {
        match self {
            MagnetPolarity::Positive => MagnetPolarity::Negative,
            MagnetPolarity::Negative => MagnetPolarity::Neutral,
            MagnetPolarity::Neutral => MagnetPolarity::Positive,
        }
    }
}

/// The polarity of an oscillating magnet after an update: the next one when
/// its timer has just run out, the same one otherwise.
pub fn toggle_oscillating_magnets(polarity: MagnetPolarity, timer_finished: bool) -> (after:
    MagnetPolarity)
    ensures
        after == if timer_finished {
            polarity.spec_next()
        } else {
            polarity
        },
{
    if timer_finished {
        polarity.next()
    } else {
        polarity
    }
}

/// An oscillating magnet comes back to its polarity after three changes, and
/// not before.
pub proof fn lemma_polarity_goes_round(polarity: MagnetPolarity)
    ensures
        polarity.spec_next().spec_next().spec_next() == polarity,
        polarity.spec_next() != polarity,
        polarity.spec_next().spec_next() != polarity,
{
}

} // verus!
