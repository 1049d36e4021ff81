use vstd::prelude::*;
use super::piece::Player;

verus! {

/// Where a game stands.
#[derive(Debug, Clone, Copy, PartialEq, Eq, Structural)]
pub enum GameStatus {
    Ongoing,
    Check { player: Player },
    Checkmate { winner: Player },
    Stalemate,
    Victory { winner: Player },
}

} // verus!
