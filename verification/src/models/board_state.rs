use vstd::prelude::*;
use super::position::Position;
use super::piece::{Piece, Player};
use super::piece_map::PieceMap;

verus! {

/// One move as it was played: where from, where to, which piece, what it
/// met on the target square, and when (seconds since the Unix epoch).
#[derive(Debug, Clone, Copy, PartialEq, Eq, Structural)]
pub struct Move {
    pub from: Position,
    pub to: Position,
    pub piece: Piece,
    pub captured_piece: Option<Piece>,
    pub timestamp: u64,
}

/// The full state of a board: the pieces, whose turn it is, and the moves so far.
#[derive(Debug)]
pub struct BoardState {
    pub pieces: PieceMap,
    pub current_player: Player,
    pub move_history: Vec<Move>,
}

impl BoardState {
    /// An empty board with Red to move and no history.
    pub fn new() -> (b: Self)
        ensures
            b.pieces.wf(),
            b.pieces@ == Map::<Position, Piece>::empty(),
            b.current_player == Player::Red,
            b.move_history@ == Seq::<Move>::empty(),
    {
        Self { pieces: PieceMap::new(), current_player: Player::Red, move_history: Vec::new() }
    }

    /// A copy of this state.
    pub fn duplicate(&self) -> (c: Self)
        ensures
            c.pieces.wf() == self.pieces.wf(),
            c.pieces@ == self.pieces@,
            c.pieces.seq() == self.pieces.seq(),
            c.current_player == self.current_player,
            c.move_history@ == self.move_history@,
    {
        let mut h: Vec<Move> = Vec::new();
        let mut i: usize = 0;
        while i < self.move_history.len()
            invariant
                i <= self.move_history@.len(),
                h@ == self.move_history@.subrange(0, i as int),
            decreases self.move_history@.len() - i,
        {
            h.push(self.move_history[i]);
            i = i + 1;
            assert(h@ =~= self.move_history@.subrange(0, i as int));
        }
        assert(self.move_history@.subrange(0, i as int) =~= self.move_history@);
        BoardState {
            pieces: self.pieces.duplicate(),
            current_player: self.current_player,
            move_history: h,
        }
    }
}

impl Clone for BoardState {
    fn clone(&self) -> (c: Self)
        ensures
            c.pieces.wf() == self.pieces.wf(),
            c.pieces@ == self.pieces@,
            c.pieces.seq() == self.pieces.seq(),
            c.current_player == self.current_player,
            c.move_history@ == self.move_history@,
    {
        self.duplicate()
    }
}

impl Default for BoardState {
    fn default() -> (b: Self)
        ensures
            b.pieces.wf(),
            b.pieces@ == Map::<Position, Piece>::empty(),
            b.current_player == Player::Red,
            b.move_history@ == Seq::<Move>::empty(),
    {
        Self::new()
    }
}

} // verus!
