//! Where a measured value lies relative to a target corridor.
use vstd::prelude::*;

verus! {

/// Inside the corridor, or below or above it.
#[derive(Debug, Clone, Copy, PartialEq, Eq, Structural)]
pub enum CorridorDirection {
    Inside,
    TooLow,
    TooHigh,
}

impl CorridorDirection {
    pub open spec fn spec_token(self) -> Seq<char> {
        match self {
            CorridorDirection::Inside => "inside"@,
            CorridorDirection::TooLow => "too_low"@,
            CorridorDirection::TooHigh => "too_high"@,
        }
    }

    /// The word that drift vectors record for the direction.
    pub fn token(self) -> (out: &'static str)
        ensures
            out@ == self.spec_token(),
    {
        match self {
            CorridorDirection::Inside => "inside",
            CorridorDirection::TooLow => "too_low",
            CorridorDirection::TooHigh => "too_high",
        }
    }
}

} // verus!
