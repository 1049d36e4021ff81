use vstd::prelude::*;

verus! {

/// One of the two sides.
#[derive(Debug, Clone, Copy, PartialEq, Eq, Structural)]
pub enum Player {
    Red,
    Black,
}

/// The other side.
pub open spec fn opponent_of(p: Player) -> Player {
    match p {
        Player::Red => Player::Black,
        Player::Black => Player::Red,
    }
}

impl Player {
    /// The opponent of this player.
    pub fn opponent(&self) -> (o: Player)
        ensures
            o == opponent_of(*self),
    {
        match self {
            Player::Red => Player::Black,
            Player::Black => Player::Red,
        }
    }
}

/// The kinds of Xiangqi pieces.
#[derive(Debug, Clone, Copy, PartialEq, Eq, Structural)]
pub enum XiangqiPiece {
    General,
    Advisor,
    Elephant,
    Horse,
    Chariot,
    Cannon,
    Soldier,
}

/// The kinds of Junqi pieces.
#[derive(Debug, Clone, Copy, PartialEq, Eq, Structural)]
pub enum JunqiPiece {
    Flag,
    Landmine,
    Bomb,
    Commander,
    General,
    Major,
    Colonel,
    Captain,
    Battalion,
    Company,
    Platoon,
    Engineer,
}

/// The kind of a piece, of either game.
#[derive(Debug, Clone, Copy, PartialEq, Eq, Structural)]
pub enum PieceType {
    Xiangqi(XiangqiPiece),
    Junqi(JunqiPiece),
}

/// A piece: its kind and its owner.
#[derive(Debug, Clone, Copy, PartialEq, Eq, Structural)]
pub struct Piece {
    pub piece_type: PieceType,
    pub player: Player,
}

impl Piece {
    pub fn new(piece_type: PieceType, player: Player) -> (p: Self)
        ensures
            p.piece_type == piece_type,
            p.player == player,
    {
        Self { piece_type, player }
    }
}

} // verus!
