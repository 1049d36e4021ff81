use vstd::prelude::*;
use crate::models::position::{Position, on_junqi_board};
use crate::models::piece::{Piece, Player, PieceType, JunqiPiece, opponent_of};
use crate::models::board_state::Move;
use crate::models::game_status::GameStatus;
use super::xiangqi_rules::{can_land, dist};

verus! {

/// The result of one piece attacking another.
#[derive(Debug, Clone, Copy, PartialEq, Eq, Structural)]
pub enum BattleResult {
    AttackerWins,
    DefenderWins,
    BothDie,
}

/// The rank of a Junqi piece in battle; the flag, landmines and bombs rank 0.
pub open spec fn rank_of(p: JunqiPiece) -> u8 {
    match p {
        JunqiPiece::Commander => 9,
        JunqiPiece::General => 8,
        JunqiPiece::Major => 7,
        JunqiPiece::Colonel => 6,
        JunqiPiece::Captain => 5,
        JunqiPiece::Battalion => 4,
        JunqiPiece::Company => 3,
        JunqiPiece::Platoon => 2,
        JunqiPiece::Engineer => 1,
        JunqiPiece::Flag => 0,
        JunqiPiece::Landmine => 0,
        JunqiPiece::Bomb => 0,
    }
}

/// The battle rules: a bomb takes both; a landmine stops all but an engineer;
/// the flag falls to anyone; otherwise the higher rank wins and equal ranks both die.
pub open spec fn battle(a: JunqiPiece, d: JunqiPiece) -> BattleResult {
    if a == JunqiPiece::Bomb || d == JunqiPiece::Bomb {
        BattleResult::BothDie
    } else if d == JunqiPiece::Landmine {
        if a == JunqiPiece::Engineer {
            BattleResult::AttackerWins
        } else {
            BattleResult::DefenderWins
        }
    } else if d == JunqiPiece::Flag {
        BattleResult::AttackerWins
    } else if rank_of(a) > rank_of(d) {
        BattleResult::AttackerWins
    } else if rank_of(a) < rank_of(d) {
        BattleResult::DefenderWins
    } else {
        BattleResult::BothDie
    }
}

/// The kind of a Junqi piece (meaningful only for Junqi pieces).
pub open spec fn junqi_kind(p: Piece) -> JunqiPiece {
    match p.piece_type {
        PieceType::Junqi(k) => k,
        PieceType::Xiangqi(_) => JunqiPiece::Flag,
    }
}

/// The piece is a Junqi piece.
pub open spec fn is_junqi(p: Piece) -> bool {
    p.piece_type is Junqi
}

/// The camps: Red's at (10,1), (10,3), (11,0), (11,2), (11,4); Black's at
/// (0,0), (0,2), (0,4), (1,1), (1,3).
pub open spec fn is_camp(p: Position) -> bool {
    ||| (p.row == 10 && (p.col == 1 || p.col == 3))
    ||| (p.row == 11 && (p.col == 0 || p.col == 2 || p.col == 4))
    ||| (p.row == 0 && (p.col == 0 || p.col == 2 || p.col == 4))
    ||| (p.row == 1 && (p.col == 1 || p.col == 3))
}

/// The railway: every square of the board but the camps.
pub open spec fn is_railway(p: Position) -> bool {
    on_junqi_board(p) && !is_camp(p)
}

/// Two squares side by side along a row or a column.
pub open spec fn adjacent(a: Position, b: Position) -> bool {
    dist(a.row, b.row) + dist(a.col, b.col) == 1
}

/// A one-step move onto the board.
pub open spec fn basic_step(m: Map<Position, Piece>, from: Position, to: Position, player: Player) -> bool {
    adjacent(from, to) && on_junqi_board(to) && can_land(m, to, player)
}

/// `ps` leads from `from` over free railway squares, one step at a time.
pub open spec fn rail_path(m: Map<Position, Piece>, from: Position, ps: Seq<Position>) -> bool {
    &&& ps.len() >= 1
    &&& ps[0] == from
    &&& forall|i: int|
        1 <= i < ps.len() ==> is_railway(#[trigger] ps[i]) && !m.contains_key(ps[i]) && adjacent(
            ps[i - 1],
            ps[i],
        )
}

/// `to` can be reached by an engineer of `player` from `from` along the railway:
/// it is a railway square it may land on, next to a square reached over free railway.
pub open spec fn rail_dest(m: Map<Position, Piece>, from: Position, to: Position, player: Player) -> bool {
    &&& is_railway(to)
    &&& can_land(m, to, player)
    &&& to != from
    &&& exists|ps: Seq<Position>| #[trigger] rail_path(m, from, ps) && adjacent(ps.last(), to)
}

/// The legal destinations of the piece on `from` when `current` is to move.
pub open spec fn junqi_legal(m: Map<Position, Piece>, current: Player, from: Position, to: Position) -> bool {
    &&& m.contains_key(from)
    &&& m[from].player == current
    &&& is_junqi(m[from])
    &&& junqi_kind(m[from]) != JunqiPiece::Flag
    &&& junqi_kind(m[from]) != JunqiPiece::Landmine
    &&& if junqi_kind(m[from]) == JunqiPiece::Engineer && is_railway(from) {
        rail_dest(m, from, to, current)
    } else {
        basic_step(m, from, to, current)
    }
}

/// The flag of `player` is no longer on the board.
pub open spec fn flag_captured(m: Map<Position, Piece>, player: Player) -> bool {
    !exists|p: Position|
        #![trigger m.contains_key(p)]
        m.contains_key(p) && m[p].player == player && m[p].piece_type == PieceType::Junqi(
            JunqiPiece::Flag,
        )
}

/// The winner: the side whose opponent lost its flag (Black first, if both did).
pub open spec fn junqi_winner(m: Map<Position, Piece>) -> Option<Player> {
    if flag_captured(m, Player::Red) {
        Some(Player::Black)
    } else if flag_captured(m, Player::Black) {
        Some(Player::Red)
    } else {
        None
    }
}

/// The board after the piece on `from` attacks or moves to `to`.
pub open spec fn junqi_after(m: Map<Position, Piece>, from: Position, to: Position) -> Map<Position, Piece> {
    let p = m[from];
    if m.contains_key(to) {
        match battle(junqi_kind(p), junqi_kind(m[to])) {
            BattleResult::AttackerWins => m.remove(to).remove(from).insert(to, p),
            BattleResult::DefenderWins => m.remove(from),
            BattleResult::BothDie => m.remove(from).remove(to),
        }
    } else {
        m.remove(from).insert(to, p)
    }
}

/// The piece recorded as captured: whatever stood on the target square, in
/// every battle.
pub open spec fn junqi_captured(m: Map<Position, Piece>, from: Position, to: Position) -> Option<Piece> {
    if m.contains_key(to) {
        Some(m[to])
    } else {
        None
    }
}

/// The board before `mv` was played, as a take-back restores it.
pub open spec fn junqi_undo_board(m: Map<Position, Piece>, mv: Move) -> Map<Position, Piece> {
    match mv.captured_piece {
        Some(c) => if m.contains_key(mv.to) {
            if m[mv.to] == mv.piece {
                m.remove(mv.to).insert(mv.from, mv.piece).insert(mv.to, c)
            } else {
                m.insert(mv.from, mv.piece)
            }
        } else {
            m.insert(mv.from, mv.piece).insert(mv.to, c)
        },
        None => m.remove(mv.to).insert(mv.from, mv.piece),
    }
}

/// Every piece is a Junqi piece on the Junqi board.
pub open spec fn junqi_board_ok(m: Map<Position, Piece>) -> bool {
    forall|p: Position| #[trigger] m.contains_key(p) ==> on_junqi_board(p) && is_junqi(m[p])
}

/// Taking back the moves of `h`, last first, passes only through boards in order.
pub open spec fn junqi_history_ok(m: Map<Position, Piece>, h: Seq<Move>) -> bool
    decreases h.len(),
{
    if h.len() == 0 {
        true
    } else {
        junqi_board_ok(junqi_undo_board(m, h.last())) && junqi_history_ok(
            junqi_undo_board(m, h.last()),
            h.drop_last(),
        )
    }
}

} // verus!
