use vstd::prelude::*;

verus! {

/// How hard the computer opponent plays.
#[derive(Debug, Clone, Copy, PartialEq, Eq, Structural)]
pub enum Difficulty {
    Easy,
    Medium,
    Hard,
}

/// The search depth of each difficulty: 1, 2 and 3 plies.
pub open spec fn depth_of(d: Difficulty) -> u8 {
    match d {
        Difficulty::Easy => 1,
        Difficulty::Medium => 2,
        Difficulty::Hard => 3,
    }
}

impl Difficulty {
    /// The number of plies the opponent looks ahead.
    pub fn search_depth(&self) -> (d: u8)
        ensures
            d == depth_of(*self),
    {
        match self {
            Difficulty::Easy => 1,
            Difficulty::Medium => 2,
            Difficulty::Hard => 3,
        }
    }
}

} // verus!
