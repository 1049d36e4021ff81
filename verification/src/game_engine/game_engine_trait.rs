use vstd::prelude::*;
use crate::models::position::Position;
use crate::models::piece::{Piece, Player, opponent_of};
use crate::models::board_state::BoardState;
use crate::models::game_status::GameStatus;
use super::game_error::GameResult;

verus! {

/// A game as the opponent engine looks at it: the board entries in walk order,
/// the side to move, and the recorded status.
pub type Standing = (Seq<(Position, Piece)>, Player, GameStatus);

/// What the two games have in common, as the opponent engine sees them.
pub trait GameEngine: Sized {
    /// The engine's state is in order.
    spec fn wf(&self) -> bool;

    /// The board, the side to move and the history.
    spec fn board(&self) -> BoardState;

    /// The piece on `from` may legally go to `to` now.
    spec fn legal(&self, from: Position, to: Position) -> bool;

    /// The length of the list of legal destinations of the piece on `from`.
    spec fn moves_len(&self, from: Position) -> nat;

    /// The game has ended.
    spec fn over(&self) -> bool;

    /// The winner, once there is one.
    spec fn winner(&self) -> Option<Player>;

    /// The recorded status.
    spec fn status(&self) -> GameStatus;

    /// The standing of the game: its board entries, side to move and status.
    spec fn standing(&self) -> Standing;

    /// In a game with standing `s`, the piece on `from` may legally go to `to`.
    spec fn rule_legal(s: Standing, from: Position, to: Position) -> bool;

    /// A game with standing `s` has ended.
    spec fn rule_over(s: Standing) -> bool;

    /// The winner of a game with standing `s`.
    spec fn rule_winner(s: Standing) -> Option<Player>;

    /// The length of the list of legal destinations of the piece on `from`.
    spec fn rule_moves_len(s: Standing, from: Position) -> nat;

    /// The standing after the piece on `from` goes to `to`.
    spec fn rule_after(s: Standing, from: Position, to: Position) -> Standing;

    /// The rules on standings say what the game's own spec functions say.
    proof fn lemma_rules(&self)
        requires
            self.wf(),
        ensures
            forall|f: Position, t: Position|
                #[trigger] self.legal(f, t) == Self::rule_legal(self.standing(), f, t),
            forall|f: Position| #[trigger]
                self.moves_len(f) == Self::rule_moves_len(self.standing(), f),
            self.over() == Self::rule_over(self.standing()),
            self.winner() == Self::rule_winner(self.standing()),
            self.standing() == (self.board().pieces.seq(), self.board().current_player, self.status()),
    ;

    /// A legal move is one of a piece of the side to move.
    proof fn lemma_legal_piece(&self, from: Position, to: Position)
        requires
            self.wf(),
            self.legal(from, to),
        ensures
            self.board().pieces@.contains_key(from),
            self.board().pieces@[from].player == self.board().current_player,
    ;

    /// A game in order has a board in order with at most 90 pieces on it.
    proof fn lemma_board_bounded(&self)
        requires
            self.wf(),
        ensures
            self.board().pieces.wf(),
            self.board().pieces.seq().len() <= 90,
    ;

    /// A game set up for its first move.
    fn new_game() -> (g: Self)
        ensures
            g.wf(),
    ;

    /// The board state.
    fn get_board_state(&self) -> (b: &BoardState)
        ensures
            *b == self.board(),
    ;

    /// The legal destinations of the piece on `position`.
    fn get_legal_moves(&self, position: Position) -> (v: Vec<Position>)
        requires
            self.wf(),
        ensures
            forall|to: Position| v@.contains(to) <==> self.legal(position, to),
            v@.len() <= 240,
            v@.len() == self.moves_len(position),
    ;

    /// Plays a move when it is legal; otherwise leaves the game as it was.
    fn make_move(&mut self, from: Position, to: Position) -> (r: GameResult<()>)
        requires
            old(self).wf(),
        ensures
            final(self).wf(),
            r is Ok <==> old(self).legal(from, to),
            r is Err ==> *final(self) == *old(self),
            r is Ok ==> final(self).board().current_player == opponent_of(
                old(self).board().current_player,
            ),
            r is Ok ==> final(self).board().move_history@.len() == old(self).board().move_history@.len() + 1,
            r is Ok ==> final(self).standing() == Self::rule_after(old(self).standing(), from, to),
    ;

    /// Whether the game has ended.
    fn is_game_over(&self) -> (b: bool)
        requires
            self.wf(),
        ensures
            b == self.over(),
    ;

    /// The winner, if the game has one.
    fn get_winner(&self) -> (w: Option<Player>)
        requires
            self.wf(),
        ensures
            w == self.winner(),
    ;

    /// Takes the last move back; fails when no move has been played.
    fn undo_move(&mut self) -> (r: GameResult<()>)
        requires
            old(self).wf(),
        ensures
            final(self).wf(),
            r is Ok <==> old(self).board().move_history@.len() > 0,
            r is Err ==> *final(self) == *old(self),
            r is Ok ==> final(self).board().current_player == opponent_of(
                old(self).board().current_player,
            ),
            r is Ok ==> final(self).board().move_history@ == old(self).board().move_history@.drop_last(),
    ;

    /// The recorded status.
    fn get_game_status(&self) -> (s: GameStatus)
        ensures
            s == self.status(),
    ;

    /// A copy of the game, the same in everything the rules look at.
    fn duplicate(&self) -> (c: Self)
        requires
            self.wf(),
        ensures
            c.wf(),
            c.board().pieces@ == self.board().pieces@,
            c.board().pieces.seq() == self.board().pieces.seq(),
            c.board().current_player == self.board().current_player,
            c.board().move_history@ == self.board().move_history@,
            c.status() == self.status(),
            forall|f: Position, t: Position| c.legal(f, t) == self.legal(f, t),
            c.over() == self.over(),
            c.winner() == self.winner(),
            c.standing() == self.standing(),
    ;
}

} // verus!
