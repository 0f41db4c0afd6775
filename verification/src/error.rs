//! The error of the extractor.

use vstd::prelude::*;

verus! {

/// An alignment could not be turned into exon blocks.
#[derive(Clone, Copy, Debug, PartialEq, Eq)]
pub enum ExtractError {
    /// A block coordinate lies beyond the largest coordinate that a block can hold.
    CoordinateOverflow,
}

impl ExtractError {
    /// What the error says in words.
    pub open spec fn description(self) -> Seq<char> {
        match self {
            ExtractError::CoordinateOverflow => "exon block coordinate exceeds the 32-bit range"@,
        }
    }

    /// What the error says in words.
    pub fn message(&self) -> (text: String)
        ensures
            text@ == self.description(),
    {
        match self {
            ExtractError::CoordinateOverflow => String::from_str(
                "exon block coordinate exceeds the 32-bit range",
            ),
        }
    }
}

} // verus!
