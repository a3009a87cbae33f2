//! Goal threshold configuration: the direction in which a metric improves.

use vstd::prelude::*;

verus! {

/// Valid directions for goal thresholds.
#[derive(Debug, Clone, Copy, PartialEq, Eq, Structural)]
pub enum Direction {
    /// Lower values are better (e.g., merge time, failure rate).
    LowerIsBetter,
    /// Higher values are better (e.g., community %, retention).
    HigherIsBetter,
}

impl Direction {
    /// The storage spelling of the direction.
    pub open spec fn spec_str(self) -> Seq<char> {
        match self {
            Direction::LowerIsBetter => "lower_is_better"@,
            Direction::HigherIsBetter => "higher_is_better"@,
        }
    }

    /// The spelling under which the direction is persisted.
    pub fn as_str(&self) -> (r: &'static str)
        ensures
            r@ == self.spec_str(),
    {
        match self {
            Direction::LowerIsBetter => "lower_is_better",
            Direction::HigherIsBetter => "higher_is_better",
        }
    }
}

} // verus!
