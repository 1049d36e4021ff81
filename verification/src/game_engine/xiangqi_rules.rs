use vstd::prelude::*;
use crate::models::position::{Position, on_xiangqi_board};
use crate::models::piece::{Piece, Player, PieceType, XiangqiPiece, opponent_of};
use crate::models::game_status::GameStatus;

verus! {

/// `p` is free, or held by a piece of the other side.
pub open spec fn can_land(m: Map<Position, Piece>, p: Position, player: Player) -> bool {
    !m.contains_key(p) || m[p].player != player
}

/// Distance between two coordinates.
pub open spec fn dist(a: u8, b: u8) -> int {
    if a >= b {
        a - b
    } else {
        b - a
    }
}

/// `x` lies strictly between `a` and `b`.
pub open spec fn strictly_between(x: int, a: int, b: int) -> bool {
    (a < x && x < b) || (b < x && x < a)
}

/// `p` is one of the squares strictly between `from` and `to` on their common row or column.
pub open spec fn between_sq(from: Position, to: Position, p: Position) -> bool {
    ||| (from.row == to.row && p.row == from.row && strictly_between(
        p.col as int,
        from.col as int,
        to.col as int,
    ))
    ||| (from.col == to.col && p.col == from.col && strictly_between(
        p.row as int,
        from.row as int,
        to.row as int,
    ))
}

/// No piece stands strictly between `from` and `to`.
pub open spec fn path_clear(m: Map<Position, Piece>, from: Position, to: Position) -> bool {
    forall|p: Position| #[trigger] between_sq(from, to, p) ==> !m.contains_key(p)
}

/// Exactly one piece stands strictly between `from` and `to`.
pub open spec fn one_screen(m: Map<Position, Piece>, from: Position, to: Position) -> bool {
    exists|s: Position|
        #![trigger between_sq(from, to, s)]
        between_sq(from, to, s) && m.contains_key(s) && forall|p: Position|
            #[trigger] between_sq(from, to, p) && m.contains_key(p) ==> p == s
}

/// Same row or same column.
pub open spec fn straight(from: Position, to: Position) -> bool {
    from.row == to.row || from.col == to.col
}

/// The palace of `player`: columns 3 to 5, Red's rows 7 to 9, Black's rows 0 to 2.
pub open spec fn in_palace(p: Position, player: Player) -> bool {
    3 <= p.col <= 5 && match player {
        Player::Red => 7 <= p.row <= 9,
        Player::Black => p.row <= 2,
    }
}

/// `player`'s side of the river: Red rows 5 to 9, Black rows 0 to 4.
pub open spec fn own_side(p: Position, player: Player) -> bool {
    match player {
        Player::Red => p.row >= 5,
        Player::Black => p.row <= 4,
    }
}

/// A soldier of `player` on `p` has crossed the river.
pub open spec fn crossed_river(p: Position, player: Player) -> bool {
    match player {
        Player::Red => p.row <= 4,
        Player::Black => p.row >= 5,
    }
}

/// The square between the two ends of an elephant's move.
pub open spec fn elephant_eye(from: Position, to: Position) -> Position {
    Position { row: ((from.row + to.row) / 2) as u8, col: ((from.col + to.col) / 2) as u8 }
}

/// The square next to the horse, in the direction of the long leg of its move.
pub open spec fn horse_leg(from: Position, to: Position) -> Position {
    if dist(from.row, to.row) == 2 {
        Position {
            row: (if to.row > from.row {
                from.row + 1
            } else {
                from.row - 1
            }) as u8,
            col: from.col,
        }
    } else {
        Position {
            row: from.row,
            col: (if to.col > from.col {
                from.col + 1
            } else {
                from.col - 1
            }) as u8,
        }
    }
}

/// General: one step along a line, inside its palace.
pub open spec fn general_step(m: Map<Position, Piece>, from: Position, to: Position, player: Player) -> bool {
    dist(from.row, to.row) + dist(from.col, to.col) == 1 && in_palace(to, player) && can_land(m, to, player)
}

/// Advisor: one diagonal step, inside its palace.
pub open spec fn advisor_step(m: Map<Position, Piece>, from: Position, to: Position, player: Player) -> bool {
    dist(from.row, to.row) == 1 && dist(from.col, to.col) == 1 && in_palace(to, player) && can_land(m, to, player)
}

/// Elephant: two diagonal steps on its own side, the eye empty.
pub open spec fn elephant_step(m: Map<Position, Piece>, from: Position, to: Position, player: Player) -> bool {
    &&& dist(from.row, to.row) == 2
    &&& dist(from.col, to.col) == 2
    &&& on_xiangqi_board(to)
    &&& own_side(to, player)
    &&& !m.contains_key(elephant_eye(from, to))
    &&& can_land(m, to, player)
}

/// The two shapes of a horse's move.
pub open spec fn horse_shape(from: Position, to: Position) -> bool {
    (dist(from.row, to.row) == 2 && dist(from.col, to.col) == 1) || (dist(from.row, to.row) == 1
        && dist(from.col, to.col) == 2)
}

/// Horse: the L-shaped jump, the leg empty.
pub open spec fn horse_step(m: Map<Position, Piece>, from: Position, to: Position, player: Player) -> bool {
    &&& horse_shape(from, to)
    &&& on_xiangqi_board(to)
    &&& !m.contains_key(horse_leg(from, to))
    &&& can_land(m, to, player)
}

/// Chariot: any distance along a line, nothing in between.
pub open spec fn chariot_step(m: Map<Position, Piece>, from: Position, to: Position, player: Player) -> bool {
    &&& on_xiangqi_board(to)
    &&& straight(from, to)
    &&& to != from
    &&& path_clear(m, from, to)
    &&& can_land(m, to, player)
}

/// Cannon: moves like a chariot onto a free square, captures by jumping exactly one piece.
pub open spec fn cannon_step(m: Map<Position, Piece>, from: Position, to: Position, player: Player) -> bool {
    &&& on_xiangqi_board(to)
    &&& straight(from, to)
    &&& to != from
    &&& if m.contains_key(to) {
        m[to].player != player && one_screen(m, from, to)
    } else {
        path_clear(m, from, to)
    }
}

/// Soldier: one step forward; after crossing the river also one step sideways.
pub open spec fn soldier_step(m: Map<Position, Piece>, from: Position, to: Position, player: Player) -> bool {
    &&& can_land(m, to, player)
    &&& {
        ||| (to.col == from.col && match player {
            Player::Red => to.row + 1 == from.row,
            Player::Black => to.row == from.row + 1 && to.row < 10,
        })
        ||| (crossed_river(from, player) && to.row == from.row && dist(from.col, to.col) == 1
            && to.col < 9)
    }
}

/// The move of the piece kind `k`, by its own pattern, before any look at the generals.
pub open spec fn kind_step(
    m: Map<Position, Piece>,
    k: XiangqiPiece,
    from: Position,
    to: Position,
    player: Player,
) -> bool {
    match k {
        XiangqiPiece::General => general_step(m, from, to, player),
        XiangqiPiece::Advisor => advisor_step(m, from, to, player),
        XiangqiPiece::Elephant => elephant_step(m, from, to, player),
        XiangqiPiece::Horse => horse_step(m, from, to, player),
        XiangqiPiece::Chariot => chariot_step(m, from, to, player),
        XiangqiPiece::Cannon => cannon_step(m, from, to, player),
        XiangqiPiece::Soldier => soldier_step(m, from, to, player),
    }
}

/// The piece on `from` may go to `to` by its own pattern.
pub open spec fn pseudo_move(m: Map<Position, Piece>, from: Position, to: Position) -> bool {
    m.contains_key(from) && match m[from].piece_type {
        PieceType::Xiangqi(k) => kind_step(m, k, from, to, m[from].player),
        PieceType::Junqi(_) => false,
    }
}

/// `piece`, standing on `from`, could move to `to` (used to decide attacks).
pub open spec fn attacks(m: Map<Position, Piece>, piece: Piece, from: Position, to: Position) -> bool {
    let pl = piece.player;
    &&& on_xiangqi_board(to)
    &&& can_land(m, to, pl)
    &&& match piece.piece_type {
        PieceType::Xiangqi(XiangqiPiece::General) => in_palace(to, pl) && dist(from.row, to.row)
            + dist(from.col, to.col) == 1,
        PieceType::Xiangqi(XiangqiPiece::Advisor) => in_palace(to, pl) && dist(from.row, to.row)
            == 1 && dist(from.col, to.col) == 1,
        PieceType::Xiangqi(XiangqiPiece::Elephant) => own_side(to, pl) && dist(from.row, to.row)
            == 2 && dist(from.col, to.col) == 2 && !m.contains_key(elephant_eye(from, to)),
        PieceType::Xiangqi(XiangqiPiece::Horse) => horse_shape(from, to) && !m.contains_key(
            horse_leg(from, to),
        ),
        PieceType::Xiangqi(XiangqiPiece::Chariot) => straight(from, to) && path_clear(m, from, to),
        PieceType::Xiangqi(XiangqiPiece::Cannon) => straight(from, to) && if m.contains_key(to) {
            one_screen(m, from, to)
        } else {
            path_clear(m, from, to)
        },
        PieceType::Xiangqi(XiangqiPiece::Soldier) => dist(from.row, to.row) + dist(from.col, to.col)
            == 1 && match pl {
            Player::Red => to.row <= from.row && (to.row == from.row ==> crossed_river(from, pl)),
            Player::Black => to.row >= from.row && (to.row == from.row ==> crossed_river(from, pl)),
        },
        PieceType::Junqi(_) => false,
    }
}

/// `pc` is the general of `player`.
pub open spec fn is_general(pc: Piece, player: Player) -> bool {
    pc.piece_type == PieceType::Xiangqi(XiangqiPiece::General) && pc.player == player
}

/// The board after the piece on `from` (if any) moves to `to`.
pub open spec fn after_move(m: Map<Position, Piece>, from: Position, to: Position) -> Map<Position, Piece> {
    if m.contains_key(from) {
        m.remove(from).insert(to, m[from])
    } else {
        m
    }
}

/// The two generals stand on one column with nothing between them.
pub open spec fn generals_face(m: Map<Position, Piece>) -> bool {
    exists|r: Position, b: Position|
        #![trigger m.contains_key(r), m.contains_key(b)]
        m.contains_key(r) && is_general(m[r], Player::Red) && m.contains_key(b) && is_general(
            m[b],
            Player::Black,
        ) && r.col == b.col && path_clear(m, r, b)
}

/// Some piece of the other side attacks the general of `player`.
pub open spec fn in_check(m: Map<Position, Piece>, player: Player) -> bool {
    exists|g: Position, q: Position|
        #![trigger m.contains_key(g), m.contains_key(q)]
        m.contains_key(g) && is_general(m[g], player) && m.contains_key(q) && m[q].player
            == opponent_of(player) && attacks(m, m[q], q, g)
}

/// Moving from `from` to `to` leaves the generals apart and `player` out of check.
pub open spec fn safe_after(m: Map<Position, Piece>, from: Position, to: Position, player: Player) -> bool {
    !generals_face(after_move(m, from, to)) && !in_check(after_move(m, from, to), player)
}

/// `to` is a legal destination for the piece on `from` when `current` is to move.
pub open spec fn legal_move(m: Map<Position, Piece>, current: Player, from: Position, to: Position) -> bool {
    &&& m.contains_key(from)
    &&& m[from].player == current
    &&& pseudo_move(m, from, to)
    &&& safe_after(m, from, to, current)
}

/// `player` has no legal move at all.
pub open spec fn no_legal_moves(m: Map<Position, Piece>, player: Player) -> bool {
    forall|q: Position, to: Position|
        #![trigger pseudo_move(m, q, to)]
        m.contains_key(q) && m[q].player == player && pseudo_move(m, q, to) ==> !safe_after(
            m,
            q,
            to,
            player,
        )
}

/// Each side has at most one general.
pub open spec fn one_general_each(m: Map<Position, Piece>) -> bool {
    forall|p: Position, q: Position, pl: Player|
        #![trigger m.contains_key(p), m.contains_key(q), is_general(m[p], pl), is_general(m[q], pl)]
        m.contains_key(p) && m.contains_key(q) && is_general(m[p], pl) && is_general(m[q], pl)
            ==> p == q
}

/// Every piece stands on the board, and each side has at most one general.
pub open spec fn board_ok(m: Map<Position, Piece>) -> bool {
    &&& forall|p: Position| #[trigger] m.contains_key(p) ==> on_xiangqi_board(p)
    &&& one_general_each(m)
}

/// The status of a Xiangqi game with `current` to move.
pub open spec fn xiangqi_status(m: Map<Position, Piece>, current: Player) -> GameStatus {
    if in_check(m, current) {
        if no_legal_moves(m, current) {
            GameStatus::Checkmate { winner: opponent_of(current) }
        } else {
            GameStatus::Check { player: current }
        }
    } else if no_legal_moves(m, current) {
        GameStatus::Stalemate
    } else {
        GameStatus::Ongoing
    }
}

/// A move onto the board keeps the board in order.
pub proof fn lemma_after_move_ok(m: Map<Position, Piece>, from: Position, to: Position)
    requires
        board_ok(m),
        on_xiangqi_board(to),
    ensures
        board_ok(after_move(m, from, to)),
{
    let a = after_move(m, from, to);
    if m.contains_key(from) {
        assert forall|p: Position, q: Position, pl: Player|
            a.contains_key(p) && a.contains_key(q) && is_general(a[p], pl) && is_general(a[q], pl)
            implies p == q by {
            let pp = if p == to { from } else { p };
            let qq = if q == to { from } else { q };
            assert(m.contains_key(pp) && is_general(m[pp], pl));
            assert(m.contains_key(qq) && is_general(m[qq], pl));
        }
    }
}

} // verus!
