use vstd::prelude::*;
use super::board_state::BoardState;
use super::game_status::GameStatus;
use super::piece::Piece;

verus! {

/// The outcome of a move request.
#[derive(Debug)]
pub struct MoveResult {
    pub success: bool,
    pub new_board_state: BoardState,
    pub game_status: GameStatus,
    pub captured_piece: Option<Piece>,
}

impl MoveResult {
    pub fn new(
        success: bool,
        new_board_state: BoardState,
        game_status: GameStatus,
        captured_piece: Option<Piece>,
    ) -> (r: Self)
        ensures
            r.success == success,
            r.new_board_state == new_board_state,
            r.game_status == game_status,
            r.captured_piece == captured_piece,
    {
        Self { success, new_board_state, game_status, captured_piece }
    }
}

} // verus!
