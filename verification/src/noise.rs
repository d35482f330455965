//! Ordinal severity of a decoded packet, used by the verbosity filter.

use vstd::prelude::*;

verus! {

/// Severity of a packet, from most interesting (`Zero`) to pure noise
/// (`Maximum`).  The total order is `Zero < One < Two < AlmostMaximum <
/// Maximum`, numerically `0..=4`.
#[derive(Debug, Clone, Copy, PartialEq, Eq, Structural)]
pub enum ArwahNoiseLevel {
    Zero,
    One,
    Two,
    AlmostMaximum,
    Maximum,
}

impl ArwahNoiseLevel {
    /// Numeric rank of the level, `0..=4`.
    pub open spec fn spec_into_u8(self) -> u8 {
        match self {
            ArwahNoiseLevel::Zero => 0,
            ArwahNoiseLevel::One => 1,
            ArwahNoiseLevel::Two => 2,
            ArwahNoiseLevel::AlmostMaximum => 3,
            ArwahNoiseLevel::Maximum => 4,
        }
    }

    #[verifier::when_used_as_spec(spec_into_u8)]
    pub fn arwah_into_u8(self) -> (r: u8)
        ensures
            r == self.spec_into_u8(),
    {
        match self {
            ArwahNoiseLevel::Zero => 0,
            ArwahNoiseLevel::One => 1,
            ArwahNoiseLevel::Two => 2,
            ArwahNoiseLevel::AlmostMaximum => 3,
            ArwahNoiseLevel::Maximum => 4,
        }
    }
}

} // verus!
