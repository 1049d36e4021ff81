use vstd::prelude::*;
use crate::models::position::{Position, on_junqi_board, lemma_distinct_squares_bounded, lemma_list_len};
use crate::models::piece::{Piece, Player, PieceType, JunqiPiece, opponent_of};
use crate::models::piece_map::PieceMap;
use crate::models::board_state::{BoardState, Move};
use crate::models::game_status::GameStatus;
use crate::text::{decimal, push_decimal, text};
use crate::clock::unix_time_secs;
use super::game_error::{GameError, GameResult};
use super::game_engine_trait::{GameEngine, Standing};
use crate::models::piece_map::{map_of, seq_insert, seq_remove};
use super::xiangqi_rules::can_land;
use super::xiangqi_moves::can_move_to;
use super::xiangqi_engine::at;
use super::junqi_rules::{
    BattleResult, rank_of, battle, junqi_kind, is_junqi, is_railway, adjacent, basic_step,
    rail_dest, junqi_legal, flag_captured, junqi_winner, junqi_after, junqi_captured,
    junqi_undo_board, junqi_board_ok, junqi_history_ok,
};
use super::junqi_moves::{rail_moves, railway_exec, rail_count, in_search_order};

verus! {

/// Rows of the Junqi board.
pub const JUNQI_ROWS: u8 = 12;

/// Columns of the Junqi board.
pub const JUNQI_COLS: u8 = 5;

/// Red's camps: two on row 10 and three on row 11.
pub const RED_CAMP_POSITIONS: [(u8, u8); 5] = [(10, 1), (10, 3), (11, 0), (11, 2), (11, 4)];

/// Black's camps: three on row 0 and two on row 1.
pub const BLACK_CAMP_POSITIONS: [(u8, u8); 5] = [(0, 0), (0, 2), (0, 4), (1, 1), (1, 3)];

/// The number of railway squares in row `r`: the five squares less the camps on it.
pub open spec fn rails_in_row(r: int) -> int {
    if r == 0 || r == 11 {
        2
    } else if r == 1 || r == 10 {
        3
    } else {
        5
    }
}

/// The number of railway squares in the rows before row `r`.
pub open spec fn rails_before_row(r: int) -> int
    decreases r,
{
    if r <= 0 {
        0
    } else {
        rails_before_row(r - 1) + rails_in_row(r - 1)
    }
}

/// The number of railway squares in row `r` before column `c`.
pub open spec fn rails_before_col(r: int, c: int) -> int
    decreases c,
{
    if c <= 0 {
        0
    } else {
        rails_before_col(r, c - 1) + if is_railway(Position { row: r as u8, col: (c - 1) as u8 }) {
            1int
        } else {
            0int
        }
    }
}

/// The railway squares, row by row, each as (row, column).
pub fn railway_positions() -> (v: Vec<(u8, u8)>)
    ensures
        forall|r: u8, c: u8| #[trigger] v@.contains((r, c)) <==> is_railway(Position { row: r, col: c }),
        v@.no_duplicates(),
        v@.len() == 50,
{
    let mut v: Vec<(u8, u8)> = Vec::new();
    let mut row: u8 = 0;
    while row < JUNQI_ROWS
        invariant
            row <= 12,
            v@.len() == rails_before_row(row as int),
            v@.no_duplicates(),
            forall|k: int| 0 <= k < v@.len() ==> (#[trigger] v@[k]).0 < row && is_railway(
                Position { row: v@[k].0, col: v@[k].1 },
            ),
            forall|r: u8, c: u8| r < row && is_railway(Position { row: r, col: c }) ==> #[trigger] v@.contains((r, c)),
        decreases 12 - row,
    {
        let mut col: u8 = 0;
        let ghost v0 = v@;
        while col < JUNQI_COLS
            invariant
                row < 12,
                col <= 5,
                v@.len() == rails_before_row(row as int) + rails_before_col(row as int, col as int),
                v@.no_duplicates(),
                v0.len() == rails_before_row(row as int),
                v0.len() <= v@.len(),
                v@.subrange(0, v0.len() as int) == v0,
                forall|k: int| 0 <= k < v0.len() ==> (#[trigger] v0[k]).0 < row,
                forall|k: int| 0 <= k < v@.len() ==> is_railway(Position { row: (#[trigger] v@[k]).0, col: v@[k].1 }),
                forall|k: int| v0.len() <= k < v@.len() ==> (#[trigger] v@[k]).0 == row && v@[k].1 < col,
                forall|r: u8, c: u8| r < row && is_railway(Position { row: r, col: c }) ==> #[trigger] v@.contains((r, c)),
                forall|c: u8| c < col && is_railway(Position { row: row, col: c }) ==> #[trigger] v@.contains((row, c)),
            decreases 5 - col,
        {
            let ghost before = v@;
            if railway_exec(Position::new(row, col)) {
                proof {
                    assert forall|k: int| 0 <= k < before.len() implies before[k] != (row, col) by {
                        if k < v0.len() {
                            assert(before.subrange(0, v0.len() as int)[k] == before[k]);
                        }
                    }
                }
                v.push((row, col));
                proof {
                    assert forall|x: (u8, u8)| before.contains(x) implies v@.contains(x) by {
                        let k = choose|k: int| 0 <= k < before.len() && before[k] == x;
                        assert(v@[k] == x);
                    }
                    assert(v@[before.len() as int] == (row, col));
                    assert(v@.subrange(0, v0.len() as int) =~= v0);
                }
            }
            proof {
                assert forall|r: u8, c: u8| (r < row || (r == row && c <= col)) && is_railway(
                    Position { row: r, col: c },
                ) implies #[trigger] v@.contains((r, c)) by {
                    if r < row || c < col {
                        assert(before.contains((r, c)));
                        let k = choose|k: int| 0 <= k < before.len() && before[k] == (r, c);
                        assert(v@[k] == (r, c));
                    } else {
                        assert(v@[v@.len() - 1] == (r, c));
                    }
                }
            }
            col = col + 1;
        }
        proof {
            assert forall|k: int| 0 <= k < v@.len() implies (#[trigger] v@[k]).0 < row + 1 by {
                if k < v0.len() {
                    assert(v@.subrange(0, v0.len() as int)[k] == v@[k]);
                }
            }
            reveal_with_fuel(rails_before_col, 6);
            assert(rails_before_col(row as int, 5) == rails_in_row(row as int));
        }
        row = row + 1;
    }
    proof {
        reveal_with_fuel(rails_before_row, 13);
    }
    v
}

/// The Junqi piece of kind `k` owned by `pl`.
pub open spec fn jq(k: JunqiPiece, pl: Player) -> Piece {
    Piece { piece_type: PieceType::Junqi(k), player: pl }
}

/// The opening layout: 25 pieces a side, Black on rows 0 to 4, Red on rows 7 to 11.
pub open spec fn junqi_opening() -> Map<Position, Piece> {
    let b = Player::Black;
    let r = Player::Red;
    Map::<Position, Piece>::empty()
        .insert(at(0, 0), jq(JunqiPiece::Landmine, b))
        .insert(at(0, 1), jq(JunqiPiece::Flag, b))
        .insert(at(0, 2), jq(JunqiPiece::Landmine, b))
        .insert(at(0, 3), jq(JunqiPiece::Bomb, b))
        .insert(at(0, 4), jq(JunqiPiece::Landmine, b))
        .insert(at(1, 0), jq(JunqiPiece::Commander, b))
        .insert(at(1, 1), jq(JunqiPiece::General, b))
        .insert(at(1, 2), jq(JunqiPiece::Major, b))
        .insert(at(1, 3), jq(JunqiPiece::Colonel, b))
        .insert(at(1, 4), jq(JunqiPiece::Captain, b))
        .insert(at(2, 0), jq(JunqiPiece::Battalion, b))
        .insert(at(2, 1), jq(JunqiPiece::Company, b))
        .insert(at(2, 2), jq(JunqiPiece::Platoon, b))
        .insert(at(2, 3), jq(JunqiPiece::Engineer, b))
        .insert(at(2, 4), jq(JunqiPiece::Engineer, b))
        .insert(at(3, 0), jq(JunqiPiece::Engineer, b))
        .insert(at(3, 1), jq(JunqiPiece::Bomb, b))
        .insert(at(3, 2), jq(JunqiPiece::Colonel, b))
        .insert(at(3, 3), jq(JunqiPiece::Captain, b))
        .insert(at(3, 4), jq(JunqiPiece::Battalion, b))
        .insert(at(4, 0), jq(JunqiPiece::Company, b))
        .insert(at(4, 1), jq(JunqiPiece::Platoon, b))
        .insert(at(4, 2), jq(JunqiPiece::Major, b))
        .insert(at(4, 3), jq(JunqiPiece::General, b))
        .insert(at(4, 4), jq(JunqiPiece::Company, b))
        .insert(at(7, 0), jq(JunqiPiece::Company, r))
        .insert(at(7, 1), jq(JunqiPiece::Platoon, r))
        .insert(at(7, 2), jq(JunqiPiece::Major, r))
        .insert(at(7, 3), jq(JunqiPiece::General, r))
        .insert(at(7, 4), jq(JunqiPiece::Company, r))
        .insert(at(8, 0), jq(JunqiPiece::Battalion, r))
        .insert(at(8, 1), jq(JunqiPiece::Captain, r))
        .insert(at(8, 2), jq(JunqiPiece::Colonel, r))
        .insert(at(8, 3), jq(JunqiPiece::Bomb, r))
        .insert(at(8, 4), jq(JunqiPiece::Engineer, r))
        .insert(at(9, 0), jq(JunqiPiece::Engineer, r))
        .insert(at(9, 1), jq(JunqiPiece::Engineer, r))
        .insert(at(9, 2), jq(JunqiPiece::Platoon, r))
        .insert(at(9, 3), jq(JunqiPiece::Company, r))
        .insert(at(9, 4), jq(JunqiPiece::Battalion, r))
        .insert(at(10, 0), jq(JunqiPiece::Captain, r))
        .insert(at(10, 1), jq(JunqiPiece::Colonel, r))
        .insert(at(10, 2), jq(JunqiPiece::Major, r))
        .insert(at(10, 3), jq(JunqiPiece::General, r))
        .insert(at(10, 4), jq(JunqiPiece::Commander, r))
        .insert(at(11, 0), jq(JunqiPiece::Landmine, r))
        .insert(at(11, 1), jq(JunqiPiece::Bomb, r))
        .insert(at(11, 2), jq(JunqiPiece::Flag, r))
        .insert(at(11, 3), jq(JunqiPiece::Landmine, r))
        .insert(at(11, 4), jq(JunqiPiece::Landmine, r))
}

/// The record of the move from `from` to `to` on board `m`, at time `t`.
pub open spec fn junqi_record(m: Map<Position, Piece>, from: Position, to: Position, t: u64) -> Move {
    Move { from, to, piece: m[from], captured_piece: junqi_captured(m, from, to), timestamp: t }
}

/// The message for a move from an empty square.
pub open spec fn no_start_piece_message(p: Position) -> Seq<char> {
    "起始位置 ("@ + decimal(p.row as nat) + ", "@ + decimal(p.col as nat) + ") 没有棋子"@
}

/// The status a game reaches: a victory once a flag is gone, else `otherwise`.
pub open spec fn junqi_status(m: Map<Position, Piece>, otherwise: GameStatus) -> GameStatus {
    match junqi_winner(m) {
        Some(w) => GameStatus::Victory { winner: w },
        None => otherwise,
    }
}

/// Taking back a move restores the board it was played on.
pub proof fn lemma_junqi_undo_after(m: Map<Position, Piece>, from: Position, to: Position, t: u64)
    requires
        m.contains_key(from),
        from != to,
        m.contains_key(to) ==> m[to].player != m[from].player,
    ensures
        junqi_undo_board(junqi_after(m, from, to), junqi_record(m, from, to, t)) == m,
{
    let a = junqi_after(m, from, to);
    let mv = junqi_record(m, from, to, t);
    assert(junqi_undo_board(a, mv) =~= m);
}

/// A legal move lands on the board, leaves its square, and meets no piece of its own side.
pub proof fn lemma_junqi_legal_shape(m: Map<Position, Piece>, cur: Player, from: Position, to: Position)
    requires
        junqi_legal(m, cur, from, to),
    ensures
        on_junqi_board(to),
        from != to,
        m.contains_key(to) ==> m[to].player != m[from].player,
{
}

/// The board entries after the piece on `from` attacks or moves to `to`, in
/// the order in which the pieces are taken off and put on.
pub open spec fn junqi_after_entries(s: Seq<(Position, Piece)>, from: Position, to: Position) -> Seq<(Position, Piece)> {
    let m = map_of(s);
    let p = m[from];
    if m.contains_key(to) {
        match battle(junqi_kind(p), junqi_kind(m[to])) {
            BattleResult::AttackerWins => seq_insert(seq_remove(seq_remove(s, to), from), to, p),
            BattleResult::DefenderWins => seq_remove(s, from),
            BattleResult::BothDie => seq_remove(seq_remove(s, from), to),
        }
    } else {
        seq_insert(seq_remove(s, from), to, p)
    }
}

/// The standing after the piece on `from` attacks or moves to `to` in a Junqi game.
pub open spec fn junqi_after_standing(s: Standing, from: Position, to: Position) -> Standing {
    let s1 = junqi_after_entries(s.0, from, to);
    (s1, opponent_of(s.1), junqi_status(map_of(s1), s.2))
}

/// A Junqi game: the board and the recorded status.
#[derive(Debug)]
pub struct JunqiEngine {
    pub board_state: BoardState,
    pub game_status: GameStatus,
}

/// The rank of a Junqi piece in battle; the flag, landmines and bombs rank 0.
pub fn piece_rank(piece: &JunqiPiece) -> (r: u8)
    ensures
        r == rank_of(*piece),
{
    match piece {
        JunqiPiece::Commander => 9,
        JunqiPiece::General => 8,
        JunqiPiece::Major => 7,
        JunqiPiece::Colonel => 6,
        JunqiPiece::Captain => 5,
        JunqiPiece::Battalion => 4,
        JunqiPiece::Company => 3,
        JunqiPiece::Platoon => 2,
        JunqiPiece::Engineer => 1,
        JunqiPiece::Flag => 0,
        JunqiPiece::Landmine => 0,
        JunqiPiece::Bomb => 0,
    }
}

/// The battle between two Junqi pieces.
pub fn battle_exec(attacker: JunqiPiece, defender: JunqiPiece) -> (b: BattleResult)
    ensures
        b == battle(attacker, defender),
{
    if attacker == JunqiPiece::Bomb || defender == JunqiPiece::Bomb {
        return BattleResult::BothDie;
    }
    if defender == JunqiPiece::Landmine {
        if attacker == JunqiPiece::Engineer {
            return BattleResult::AttackerWins;
        }
        return BattleResult::DefenderWins;
    }
    if defender == JunqiPiece::Flag {
        return BattleResult::AttackerWins;
    }
    let ar = piece_rank(&attacker);
    let dr = piece_rank(&defender);
    if ar > dr {
        BattleResult::AttackerWins
    } else if ar < dr {
        BattleResult::DefenderWins
    } else {
        BattleResult::BothDie
    }
}

/// `seq![p]` when `b` holds, the empty list otherwise.
pub open spec fn one_if(b: bool, p: Position) -> Seq<Position> {
    if b {
        seq![p]
    } else {
        Seq::empty()
    }
}

/// The one-step destinations from `from` in the order they are tried: right,
/// left, down, up; each if it is on the board and `player` may land there.
pub open spec fn basic_list(m: Map<Position, Piece>, from: Position, player: Player) -> Seq<Position> {
    let r = Position { row: from.row, col: (from.col + 1) as u8 };
    let l = Position { row: from.row, col: (from.col - 1) as u8 };
    let d = Position { row: (from.row + 1) as u8, col: from.col };
    let u = Position { row: (from.row - 1) as u8, col: from.col };
    one_if(from.col + 1 < 5 && can_land(m, r, player), r) + one_if(
        from.col >= 1 && can_land(m, l, player),
        l,
    ) + one_if(from.row + 1 < 12 && can_land(m, d, player), d) + one_if(
        from.row >= 1 && can_land(m, u, player),
        u,
    )
}

/// The piece on `from` moves by single steps: a movable Junqi piece of the
/// side to move that is not an engineer on the railway.
pub open spec fn steps_only(m: Map<Position, Piece>, current: Player, from: Position) -> bool {
    &&& m.contains_key(from)
    &&& m[from].player == current
    &&& is_junqi(m[from])
    &&& junqi_kind(m[from]) != JunqiPiece::Flag
    &&& junqi_kind(m[from]) != JunqiPiece::Landmine
    &&& !(junqi_kind(m[from]) == JunqiPiece::Engineer && is_railway(from))
}

/// One-step destinations from `from` onto the board.
#[verifier::spinoff_prover]
#[verifier::rlimit(50)]
pub fn basic_moves(m: &PieceMap, from: Position, player: Player) -> (v: Vec<Position>)
    requires
        m.wf(),
        on_junqi_board(from),
    ensures
        forall|to: Position| v@.contains(to) <==> basic_step(m@, from, to, player),
        v@.no_duplicates(),
        v@.len() <= 4,
        v@ == basic_list(m@, from, player),
{
    let mut v: Vec<Position> = Vec::new();
    if from.col + 1 < 5 {
        let to = Position::new(from.row, from.col + 1);
        if can_move_to(m, to, player) {
            v.push(to);
        }
    }
    let ghost v1 = v@;
    if from.col >= 1 {
        let to = Position::new(from.row, from.col - 1);
        if can_move_to(m, to, player) {
            v.push(to);
        }
    }
    let ghost v2 = v@;
    if from.row + 1 < 12 {
        let to = Position::new(from.row + 1, from.col);
        if can_move_to(m, to, player) {
            v.push(to);
        }
    }
    let ghost v3 = v@;
    if from.row >= 1 {
        let to = Position::new(from.row - 1, from.col);
        if can_move_to(m, to, player) {
            v.push(to);
        }
    }
    proof {
        let r = Position { row: from.row, col: (from.col + 1) as u8 };
        let l = Position { row: from.row, col: (from.col - 1) as u8 };
        let d = Position { row: (from.row + 1) as u8, col: from.col };
        let u = Position { row: (from.row - 1) as u8, col: from.col };
        assert(v1 =~= one_if(from.col + 1 < 5 && can_land(m@, r, player), r));
        assert(v2 =~= v1 + one_if(from.col >= 1 && can_land(m@, l, player), l));
        assert(v3 =~= v2 + one_if(from.row + 1 < 12 && can_land(m@, d, player), d));
        assert(v@ =~= v3 + one_if(from.row >= 1 && can_land(m@, u, player), u));
        assert forall|to: Position| v@.contains(to) implies basic_step(m@, from, to, player) by {
            let i = choose|i: int| 0 <= i < v@.len() && v@[i] == to;
            if i < v1.len() {
            } else if i < v2.len() {
            } else if i < v3.len() {
            } else {
            }
        }
        assert forall|to: Position| basic_step(m@, from, to, player) implies v@.contains(to) by {
            if to.row == from.row && to.col == from.col + 1 {
                assert(v1[0] == to);
                assert(v@[0] == to);
            } else if to.row == from.row && to.col + 1 == from.col {
                assert(v2[v1.len() as int] == to);
                assert(v@[v1.len() as int] == to);
            } else if to.row == from.row + 1 && to.col == from.col {
                assert(v3[v2.len() as int] == to);
                assert(v@[v2.len() as int] == to);
            } else {
                assert(v@[v3.len() as int] == to);
            }
        }
    }
    v
}

/// The length of the list of legal destinations of the piece on `from`: for
/// an engineer of the side to move on the railway, the railway search count;
/// otherwise each legal destination once.
pub open spec fn junqi_moves_len(m: Map<Position, Piece>, current: Player, from: Position) -> nat {
    if m.contains_key(from) && m[from].player == current && m[from].piece_type == PieceType::Junqi(
        JunqiPiece::Engineer,
    ) && is_railway(from) {
        rail_count(m, from, current)
    } else {
        Set::new(|t: Position| junqi_legal(m, current, from, t)).len()
    }
}

/// The legal destinations of the piece on `position` with `current` to move.
pub fn junqi_moves_from(m: &PieceMap, current: Player, position: Position) -> (v: Vec<Position>)
    requires
        m.wf(),
        junqi_board_ok(m@),
    ensures
        forall|to: Position| v@.contains(to) <==> junqi_legal(m@, current, position, to),
        v@.len() <= 240,
        v@.len() == junqi_moves_len(m@, current, position),
        steps_only(m@, current, position) ==> v@ == basic_list(m@, position, current),
        m@.contains_key(position) && m@[position] == (Piece {
            piece_type: PieceType::Junqi(JunqiPiece::Engineer),
            player: current,
        }) && is_railway(position) ==> in_search_order(m@, position, current, v@),
{
    let v = junqi_move_list(m, current, position);
    proof {
        let mm = m@;
        if !(mm.contains_key(position) && mm[position].player == current && mm[position].piece_type
            == PieceType::Junqi(JunqiPiece::Engineer) && is_railway(position)) {
            lemma_list_len(v@, Set::new(|t: Position| junqi_legal(mm, current, position, t)));
        }
    }
    v
}

/// The legal destinations of the piece on `position`, by the kind of piece.
fn junqi_move_list(m: &PieceMap, current: Player, position: Position) -> (v: Vec<Position>)
    requires
        m.wf(),
        junqi_board_ok(m@),
    ensures
        forall|to: Position| v@.contains(to) <==> junqi_legal(m@, current, position, to),
        v@.len() <= 240,
        m@.contains_key(position) && m@[position].player == current && m@[position].piece_type
            == PieceType::Junqi(JunqiPiece::Engineer) && is_railway(position) ==> v@.len()
            == rail_count(m@, position, current),
        !(m@.contains_key(position) && m@[position].player == current && m@[position].piece_type
            == PieceType::Junqi(JunqiPiece::Engineer) && is_railway(position)) ==> v@.no_duplicates(),
        steps_only(m@, current, position) ==> v@ == basic_list(m@, position, current),
        m@.contains_key(position) && m@[position] == (Piece {
            piece_type: PieceType::Junqi(JunqiPiece::Engineer),
            player: current,
        }) && is_railway(position) ==> in_search_order(m@, position, current, v@),
{
    let piece = match m.get(&position) {
        Some(p) => *p,
        None => return Vec::new(),
    };
    if piece.player != current {
        return Vec::new();
    }
    match piece.piece_type {
        PieceType::Junqi(k) => {
            match k {
                JunqiPiece::Flag => return Vec::new(),
                JunqiPiece::Landmine => return Vec::new(),
                _ => {},
            }
            match k {
                JunqiPiece::Engineer => {
                    if railway_exec(position) {
                        rail_moves(m, position, piece.player)
                    } else {
                        basic_moves(m, position, piece.player)
                    }
                },
                _ => basic_moves(m, position, piece.player),
            }
        },
        PieceType::Xiangqi(_) => Vec::new(),
    }
}

/// Whether the flag of `player` is gone from the board.
pub fn flag_captured_exec(m: &PieceMap, player: Player) -> (b: bool)
    requires
        m.wf(),
    ensures
        b == flag_captured(m@, player),
{
    proof {
        m.lemma_seq();
    }
    let n = m.len();
    let mut i: usize = 0;
    while i < n
        invariant
            m.wf(),
            n == m.seq().len(),
            i <= n,
            forall|j: int| 0 <= j < i ==> !(#[trigger] m.seq()[j].1.player == player && m.seq()[j].1.piece_type == PieceType::Junqi(JunqiPiece::Flag)),
        decreases n - i,
    {
        let (pos, pc) = m.entry_at(i);
        if pc.player == player {
            match pc.piece_type {
                PieceType::Junqi(JunqiPiece::Flag) => {
                    proof {
                        m.lemma_seq();
                        assert(m@.contains_key(pos));
                    }
                    return false;
                },
                _ => {},
            }
        }
        i = i + 1;
    }
    proof {
        m.lemma_seq();
        assert forall|p: Position| #[trigger] m@.contains_key(p) implies !(m@[p].player == player && m@[p].piece_type == PieceType::Junqi(JunqiPiece::Flag)) by {
            let j = choose|j: int| 0 <= j < m.seq().len() && m.seq()[j].0 == p;
            assert(m@.contains_key(m.seq()[j].0));
        }
    }
    true
}

fn winner_exec(m: &PieceMap) -> (w: Option<Player>)
    requires
        m.wf(),
    ensures
        w == junqi_winner(m@),
{
    if flag_captured_exec(m, Player::Red) {
        return Some(Player::Black);
    }
    if flag_captured_exec(m, Player::Black) {
        return Some(Player::Red);
    }
    None
}

/// An engineer stands on railway square `from`, and `to` is a railway square
/// it reaches over free railway squares (where it may land), or `from` itself.
pub open spec fn railway_reach(m: Map<Position, Piece>, from: Position, to: Position) -> bool {
    &&& m.contains_key(from)
    &&& m[from].piece_type == PieceType::Junqi(JunqiPiece::Engineer)
    &&& is_railway(from)
    &&& is_railway(to)
    &&& (to == from || rail_dest(m, from, to, m[from].player))
}

impl JunqiEngine {
    /// The state is in order: a well-formed board of Junqi pieces on the
    /// Junqi board, and a history that can be taken back.
    pub open spec fn jwf(&self) -> bool {
        &&& self.board_state.pieces.wf()
        &&& junqi_board_ok(self.board_state.pieces@)
        &&& junqi_history_ok(self.board_state.pieces@, self.board_state.move_history@)
    }

    /// The recorded status is the one the board gives: the victory of the
    /// winner once a flag is gone, ongoing while both flags stand. A new game
    /// starts so, and every move and take-back keeps it so.
    pub open spec fn status_in_line(&self) -> bool {
        self.game_status == junqi_status(self.board_state.pieces@, GameStatus::Ongoing)
    }

    /// An engine over a given board, its status `Ongoing`.
    pub fn from_state(board_state: BoardState) -> (e: Self)
        ensures
            e.board_state == board_state,
            e.game_status == GameStatus::Ongoing,
    {
        Self { board_state, game_status: GameStatus::Ongoing }
    }

    /// The rank of a piece in battle.
    pub fn get_piece_rank(piece: &JunqiPiece) -> (r: u8)
        ensures
            r == rank_of(*piece),
    {
        piece_rank(piece)
    }

    /// The outcome of `attacker` attacking `defender`.
    pub fn resolve_battle(&self, attacker: &Piece, defender: &Piece) -> (b: BattleResult)
        requires
            is_junqi(*attacker),
            is_junqi(*defender),
        ensures
            b == battle(junqi_kind(*attacker), junqi_kind(*defender)),
    {
        let a = match attacker.piece_type {
            PieceType::Junqi(p) => p,
            PieceType::Xiangqi(_) => JunqiPiece::Flag,
        };
        let d = match defender.piece_type {
            PieceType::Junqi(p) => p,
            PieceType::Xiangqi(_) => JunqiPiece::Flag,
        };
        battle_exec(a, d)
    }

    /// Whether the flag of `player` is gone from the board.
    pub fn is_flag_captured(&self, player: Player) -> (b: bool)
        requires
            self.board_state.pieces.wf(),
        ensures
            b == flag_captured(self.board_state.pieces@, player),
    {
        flag_captured_exec(&self.board_state.pieces, player)
    }

    /// Whether the engineer on `from` can run along the railway to `to`.
    pub fn can_move_on_railway(&self, from: Position, to: Position) -> (b: bool)
        requires
            self.board_state.pieces.wf(),
        ensures
            b == railway_reach(self.board_state.pieces@, from, to),
    {
        let m = &self.board_state.pieces;
        let piece = match m.get(&from) {
            Some(p) => *p,
            None => return false,
        };
        match piece.piece_type {
            PieceType::Junqi(JunqiPiece::Engineer) => {},
            _ => return false,
        }
        if !railway_exec(from) || !railway_exec(to) {
            return false;
        }
        if from == to {
            return true;
        }
        let reach = rail_moves(m, from, piece.player);
        let mut found = false;
        let mut i: usize = 0;
        while i < reach.len()
            invariant
                i <= reach@.len(),
                found == (exists|j: int| 0 <= j < i && reach@[j] == to),
            decreases reach@.len() - i,
        {
            if reach[i] == to {
                found = true;
            }
            i = i + 1;
        }
        proof {
            if reach@.contains(to) {
                let j = choose|j: int| 0 <= j < reach@.len() && reach@[j] == to;
                assert(exists|j: int| 0 <= j < i && reach@[j] == to);
            }
            if found {
                let j = choose|j: int| 0 <= j < i && reach@[j] == to;
                assert(reach@.contains(to));
            }
        }
        found
    }

    fn place(m: &mut PieceMap, r: u8, c: u8, k: JunqiPiece, pl: Player)
        requires
            old(m).wf(),
        ensures
            final(m).wf(),
            final(m)@ == old(m)@.insert(at(r, c), jq(k, pl)),
    {
        m.insert(Position::new(r, c), Piece::new(PieceType::Junqi(k), pl));
    }
}

impl GameEngine for JunqiEngine {
    open spec fn wf(&self) -> bool {
        self.jwf()
    }

    open spec fn board(&self) -> BoardState {
        self.board_state
    }

    open spec fn legal(&self, from: Position, to: Position) -> bool {
        junqi_legal(self.board_state.pieces@, self.board_state.current_player, from, to)
    }

    open spec fn moves_len(&self, from: Position) -> nat {
        junqi_moves_len(self.board_state.pieces@, self.board_state.current_player, from)
    }

    open spec fn over(&self) -> bool {
        flag_captured(self.board_state.pieces@, Player::Red) || flag_captured(
            self.board_state.pieces@,
            Player::Black,
        )
    }

    open spec fn winner(&self) -> Option<Player> {
        junqi_winner(self.board_state.pieces@)
    }

    open spec fn status(&self) -> GameStatus {
        self.game_status
    }

    open spec fn standing(&self) -> Standing {
        (self.board_state.pieces.seq(), self.board_state.current_player, self.game_status)
    }

    open spec fn rule_legal(s: Standing, from: Position, to: Position) -> bool {
        junqi_legal(map_of(s.0), s.1, from, to)
    }

    open spec fn rule_over(s: Standing) -> bool {
        flag_captured(map_of(s.0), Player::Red) || flag_captured(map_of(s.0), Player::Black)
    }

    open spec fn rule_winner(s: Standing) -> Option<Player> {
        junqi_winner(map_of(s.0))
    }

    open spec fn rule_moves_len(s: Standing, from: Position) -> nat {
        junqi_moves_len(map_of(s.0), s.1, from)
    }

    open spec fn rule_after(s: Standing, from: Position, to: Position) -> Standing {
        junqi_after_standing(s, from, to)
    }

    proof fn lemma_rules(&self) {
        self.board_state.pieces.lemma_seq();
    }

    proof fn lemma_legal_piece(&self, from: Position, to: Position) {
    }

    proof fn lemma_board_bounded(&self) {
        let m = &self.board_state.pieces;
        m.lemma_seq();
        let ks = m.seq().map_values(|e: (Position, Piece)| e.0);
        assert forall|i: int| 0 <= i < ks.len() implies (#[trigger] ks[i]).row < 12 && ks[i].col < 5 by {
            assert(m@.contains_key(m.seq()[i].0));
        }
        lemma_distinct_squares_bounded(ks, 12, 5);
    }

    fn new_game() -> (g: Self)
        ensures
            g.board_state.pieces@ == junqi_opening(),
            g.board_state.current_player == Player::Red,
            g.board_state.move_history@.len() == 0,
            g.game_status == GameStatus::Ongoing,
            g.status_in_line(),
    {
        let mut m = PieceMap::new();
        let b = Player::Black;
        let r = Player::Red;
        Self::place(&mut m, 0, 0, JunqiPiece::Landmine, b);
        Self::place(&mut m, 0, 1, JunqiPiece::Flag, b);
        Self::place(&mut m, 0, 2, JunqiPiece::Landmine, b);
        Self::place(&mut m, 0, 3, JunqiPiece::Bomb, b);
        Self::place(&mut m, 0, 4, JunqiPiece::Landmine, b);
        Self::place(&mut m, 1, 0, JunqiPiece::Commander, b);
        Self::place(&mut m, 1, 1, JunqiPiece::General, b);
        Self::place(&mut m, 1, 2, JunqiPiece::Major, b);
        Self::place(&mut m, 1, 3, JunqiPiece::Colonel, b);
        Self::place(&mut m, 1, 4, JunqiPiece::Captain, b);
        Self::place(&mut m, 2, 0, JunqiPiece::Battalion, b);
        Self::place(&mut m, 2, 1, JunqiPiece::Company, b);
        Self::place(&mut m, 2, 2, JunqiPiece::Platoon, b);
        Self::place(&mut m, 2, 3, JunqiPiece::Engineer, b);
        Self::place(&mut m, 2, 4, JunqiPiece::Engineer, b);
        Self::place(&mut m, 3, 0, JunqiPiece::Engineer, b);
        Self::place(&mut m, 3, 1, JunqiPiece::Bomb, b);
        Self::place(&mut m, 3, 2, JunqiPiece::Colonel, b);
        Self::place(&mut m, 3, 3, JunqiPiece::Captain, b);
        Self::place(&mut m, 3, 4, JunqiPiece::Battalion, b);
        Self::place(&mut m, 4, 0, JunqiPiece::Company, b);
        Self::place(&mut m, 4, 1, JunqiPiece::Platoon, b);
        Self::place(&mut m, 4, 2, JunqiPiece::Major, b);
        Self::place(&mut m, 4, 3, JunqiPiece::General, b);
        Self::place(&mut m, 4, 4, JunqiPiece::Company, b);
        Self::place(&mut m, 7, 0, JunqiPiece::Company, r);
        Self::place(&mut m, 7, 1, JunqiPiece::Platoon, r);
        Self::place(&mut m, 7, 2, JunqiPiece::Major, r);
        Self::place(&mut m, 7, 3, JunqiPiece::General, r);
        Self::place(&mut m, 7, 4, JunqiPiece::Company, r);
        Self::place(&mut m, 8, 0, JunqiPiece::Battalion, r);
        Self::place(&mut m, 8, 1, JunqiPiece::Captain, r);
        Self::place(&mut m, 8, 2, JunqiPiece::Colonel, r);
        Self::place(&mut m, 8, 3, JunqiPiece::Bomb, r);
        Self::place(&mut m, 8, 4, JunqiPiece::Engineer, r);
        Self::place(&mut m, 9, 0, JunqiPiece::Engineer, r);
        Self::place(&mut m, 9, 1, JunqiPiece::Engineer, r);
        Self::place(&mut m, 9, 2, JunqiPiece::Platoon, r);
        Self::place(&mut m, 9, 3, JunqiPiece::Company, r);
        Self::place(&mut m, 9, 4, JunqiPiece::Battalion, r);
        Self::place(&mut m, 10, 0, JunqiPiece::Captain, r);
        Self::place(&mut m, 10, 1, JunqiPiece::Colonel, r);
        Self::place(&mut m, 10, 2, JunqiPiece::Major, r);
        Self::place(&mut m, 10, 3, JunqiPiece::General, r);
        Self::place(&mut m, 10, 4, JunqiPiece::Commander, r);
        Self::place(&mut m, 11, 0, JunqiPiece::Landmine, r);
        Self::place(&mut m, 11, 1, JunqiPiece::Bomb, r);
        Self::place(&mut m, 11, 2, JunqiPiece::Flag, r);
        Self::place(&mut m, 11, 3, JunqiPiece::Landmine, r);
        Self::place(&mut m, 11, 4, JunqiPiece::Landmine, r);
        let g = JunqiEngine {
            board_state: BoardState { pieces: m, current_player: Player::Red, move_history: Vec::new() },
            game_status: GameStatus::Ongoing,
        };
        proof {
            let o = junqi_opening();
            assert(g.board_state.pieces@ == o);
            assert forall|p: Position| #[trigger] o.contains_key(p) implies on_junqi_board(p) && is_junqi(o[p]) by {}
            crate::laws::law_junqi_opening_status();
        }
        g
    }

    fn get_board_state(&self) -> (b: &BoardState) {
        &self.board_state
    }

    fn get_legal_moves(&self, position: Position) -> (v: Vec<Position>)
        ensures
            steps_only(self.board_state.pieces@, self.board_state.current_player, position) ==> v@
                == basic_list(self.board_state.pieces@, position, self.board_state.current_player),
            self.board_state.pieces@.contains_key(position) && self.board_state.pieces@[position] == (Piece {
                piece_type: PieceType::Junqi(JunqiPiece::Engineer),
                player: self.board_state.current_player,
            }) && is_railway(position) ==> in_search_order(
                self.board_state.pieces@,
                position,
                self.board_state.current_player,
                v@,
            ),
    {
        junqi_moves_from(&self.board_state.pieces, self.board_state.current_player, position)
    }

    fn make_move(&mut self, from: Position, to: Position) -> (r: GameResult<()>)
        ensures
            !old(self).board_state.pieces@.contains_key(from) ==> (r matches Err(
                GameError::InvalidInput { message },
            ) && message@ == no_start_piece_message(from)),
            old(self).board_state.pieces@.contains_key(from) && old(self).board_state.pieces@[from].player
                != old(self).board_state.current_player ==> (r matches Err(
                GameError::IllegalMove { from: f, to: t, reason },
            ) && f == from && t == to && reason@ == "不能移动对手的棋子"@),
            old(self).board_state.pieces@.contains_key(from) && old(self).board_state.pieces@[from].player
                == old(self).board_state.current_player && !old(self).legal(from, to) ==> (r matches Err(
                GameError::IllegalMove { from: f, to: t, reason },
            ) && f == from && t == to && reason@ == "该移动不在合法移动列表中"@),
            r is Ok ==> {
                let m0 = old(self).board_state.pieces@;
                let m1 = final(self).board_state.pieces@;
                let h1 = final(self).board_state.move_history@;
                &&& m1 == junqi_after(m0, from, to)
                &&& h1.drop_last() == old(self).board_state.move_history@
                &&& h1.last() == junqi_record(m0, from, to, h1.last().timestamp)
                &&& final(self).game_status == junqi_status(m1, old(self).game_status)
            },
            old(self).status_in_line() ==> final(self).status_in_line(),
    {
        let piece = match self.board_state.pieces.get(&from) {
            None => {
                let mut message = text("起始位置 (");
                push_decimal(&mut message, from.row);
                message.append(", ");
                push_decimal(&mut message, from.col);
                message.append(") 没有棋子");
                return Err(GameError::InvalidInput { message });
            },
            Some(p) => *p,
        };
        if piece.player != self.board_state.current_player {
            return Err(GameError::IllegalMove { from, to, reason: text("不能移动对手的棋子") });
        }
        let legal = junqi_moves_from(&self.board_state.pieces, self.board_state.current_player, from);
        let mut found = false;
        let mut i: usize = 0;
        while i < legal.len()
            invariant
                i <= legal@.len(),
                found == (exists|j: int| 0 <= j < i && legal@[j] == to),
            decreases legal@.len() - i,
        {
            if legal[i] == to {
                found = true;
            }
            i = i + 1;
        }
        if !found {
            proof {
                if junqi_legal(self.board_state.pieces@, self.board_state.current_player, from, to) {
                    assert(legal@.contains(to));
                    let j = choose|j: int| 0 <= j < legal@.len() && legal@[j] == to;
                    assert(exists|j: int| 0 <= j < i && legal@[j] == to);
                }
            }
            return Err(GameError::IllegalMove { from, to, reason: text("该移动不在合法移动列表中") });
        }
        let ghost m0 = self.board_state.pieces@;
        let ghost h0 = self.board_state.move_history@;
        proof {
            assert(legal@.contains(to));
            lemma_junqi_legal_shape(m0, self.board_state.current_player, from, to);
        }
        let target = match self.board_state.pieces.get(&to) {
            Some(t) => Some(*t),
            None => None,
        };
        let captured_piece = match target {
            Some(target_piece) => {
                let a = match piece.piece_type {
                    PieceType::Junqi(p) => p,
                    PieceType::Xiangqi(_) => JunqiPiece::Flag,
                };
                let d = match target_piece.piece_type {
                    PieceType::Junqi(p) => p,
                    PieceType::Xiangqi(_) => JunqiPiece::Flag,
                };
                match battle_exec(a, d) {
                    BattleResult::AttackerWins => {
                        self.board_state.pieces.remove(&to);
                        self.board_state.pieces.remove(&from);
                        self.board_state.pieces.insert(to, piece);
                        Some(target_piece)
                    },
                    BattleResult::DefenderWins => {
                        self.board_state.pieces.remove(&from);
                        Some(target_piece)
                    },
                    BattleResult::BothDie => {
                        self.board_state.pieces.remove(&from);
                        self.board_state.pieces.remove(&to);
                        Some(target_piece)
                    },
                }
            },
            None => {
                self.board_state.pieces.remove(&from);
                self.board_state.pieces.insert(to, piece);
                None
            },
        };
        let timestamp = unix_time_secs();
        let record = Move { from, to, piece, captured_piece, timestamp };
        self.board_state.move_history.push(record);
        self.board_state.current_player = self.board_state.current_player.opponent();
        proof {
            assert(self.board_state.pieces@ =~= junqi_after(m0, from, to));
            assert(record == junqi_record(m0, from, to, timestamp));
            lemma_junqi_undo_after(m0, from, to, timestamp);
            assert(self.board_state.move_history@.drop_last() =~= h0);
            assert(self.board_state.move_history@.last() == record);
            assert(junqi_board_ok(self.board_state.pieces@));
            assert(junqi_history_ok(self.board_state.pieces@, self.board_state.move_history@));
        }
        match winner_exec(&self.board_state.pieces) {
            Some(w) => {
                self.game_status = GameStatus::Victory { winner: w };
            },
            None => {},
        }
        proof {
            old(self).board_state.pieces.lemma_seq();
            self.board_state.pieces.lemma_seq();
            if old(self).status_in_line() {
                crate::laws::law_junqi_status_kept_by_move(m0, old(self).board_state.current_player, from, to);
            }
        }
        Ok(())
    }

    fn is_game_over(&self) -> (b: bool) {
        flag_captured_exec(&self.board_state.pieces, Player::Red) || flag_captured_exec(
            &self.board_state.pieces,
            Player::Black,
        )
    }

    fn get_winner(&self) -> (w: Option<Player>) {
        winner_exec(&self.board_state.pieces)
    }

    fn undo_move(&mut self) -> (r: GameResult<()>)
        ensures
            r matches Err(e) ==> (e matches GameError::InvalidState { message } && message@
                == "没有可以悔棋的移动"@),
            r is Ok ==> {
                let m1 = final(self).board_state.pieces@;
                &&& m1 == junqi_undo_board(
                    old(self).board_state.pieces@,
                    old(self).board_state.move_history@.last(),
                )
                &&& final(self).game_status == junqi_status(m1, GameStatus::Ongoing)
            },
            r is Ok ==> final(self).status_in_line(),
            old(self).status_in_line() ==> final(self).status_in_line(),
    {
        if self.board_state.move_history.len() == 0 {
            return Err(GameError::InvalidState { message: text("没有可以悔棋的移动") });
        }
        let ghost m0 = self.board_state.pieces@;
        let ghost h0 = self.board_state.move_history@;
        let last = match self.board_state.move_history.pop() {
            Some(mv) => mv,
            None => return Err(GameError::InvalidState { message: text("没有可以悔棋的移动") }),
        };
        proof {
            assert(last == h0.last());
        }
        let at_target = match self.board_state.pieces.get(&last.to) {
            Some(p) => Some(*p),
            None => None,
        };
        match last.captured_piece {
            Some(captured) => {
                match at_target {
                    Some(current_piece) => {
                        if current_piece == last.piece {
                            self.board_state.pieces.remove(&last.to);
                            self.board_state.pieces.insert(last.from, last.piece);
                            self.board_state.pieces.insert(last.to, captured);
                        } else {
                            self.board_state.pieces.insert(last.from, last.piece);
                        }
                    },
                    None => {
                        self.board_state.pieces.insert(last.from, last.piece);
                        self.board_state.pieces.insert(last.to, captured);
                    },
                }
            },
            None => {
                self.board_state.pieces.remove(&last.to);
                self.board_state.pieces.insert(last.from, last.piece);
            },
        }
        self.board_state.current_player = self.board_state.current_player.opponent();
        proof {
            assert(self.board_state.pieces@ =~= junqi_undo_board(m0, last));
        }
        match winner_exec(&self.board_state.pieces) {
            Some(w) => {
                self.game_status = GameStatus::Victory { winner: w };
            },
            None => {
                self.game_status = GameStatus::Ongoing;
            },
        }
        Ok(())
    }

    fn get_game_status(&self) -> (s: GameStatus) {
        self.game_status
    }

    fn duplicate(&self) -> (c: Self) {
        JunqiEngine { board_state: self.board_state.duplicate(), game_status: self.game_status }
    }
}

impl Clone for JunqiEngine {
    fn clone(&self) -> (c: Self)
        ensures
            c.board_state.pieces.wf() == self.board_state.pieces.wf(),
            c.board_state.pieces@ == self.board_state.pieces@,
            c.board_state.pieces.seq() == self.board_state.pieces.seq(),
            c.board_state.current_player == self.board_state.current_player,
            c.board_state.move_history@ == self.board_state.move_history@,
            c.game_status == self.game_status,
    {
        JunqiEngine { board_state: self.board_state.duplicate(), game_status: self.game_status }
    }
}

} // verus!
