use vstd::prelude::*;
use crate::models::position::{Position, on_xiangqi_board};
use crate::models::piece::{Piece, Player, PieceType, XiangqiPiece, JunqiPiece, opponent_of};
use crate::models::game_status::GameStatus;
use crate::models::board_state::Move;
use crate::game_engine::xiangqi_rules::{
    board_ok, legal_move, after_move, generals_face, in_check, no_legal_moves, xiangqi_status,
    in_palace, own_side, straight, horse_shape, crossed_river, dist, pseudo_move, safe_after,
    lemma_after_move_ok,
};
use crate::game_engine::xiangqi_engine::{undo_board, move_record, lemma_undo_after, lemma_legal_move_shape};
use crate::game_engine::junqi_rules::{
    BattleResult, battle, rank_of, junqi_kind, is_railway, adjacent, rail_path, rail_dest,
    junqi_legal, flag_captured, junqi_winner, junqi_after, junqi_undo_board,
};
use crate::game_engine::junqi_engine::{
    junqi_record, junqi_status, lemma_junqi_undo_after, junqi_opening, jq,
};
use crate::game_engine::xiangqi_engine::{at, xiangqi_opening};
use crate::game_engine::xiangqi_rules::{attacks, between_sq, path_clear, is_general};
use crate::game_engine::JunqiEngine;
use crate::game_engine::junqi_engine::railway_reach;
use crate::game_engine::GameEngine;
use crate::ai::difficulty::{Difficulty, depth_of};
use crate::ai::ai_engine::{
    eval_standing, move_value, best_of, legal_list, legal_in, lists_moves, lemma_legal_list,
    lemma_best_of_bounds,
};
use crate::ai::ai_engine::Move as AiMove;
use crate::ai::ai_engine::{material, piece_value};
use crate::game_engine::game_engine_trait::Standing;
use crate::models::position_key::{key_text, key_position, lemma_key_round_trip};

verus! {

/// Each side's opponent is the other side, and the opponent of the opponent is the side itself.
pub proof fn law_opponent_involution(p: Player)
    ensures
        opponent_of(p) != p,
        opponent_of(opponent_of(p)) == p,
{
}

/// A legal Xiangqi move moves a piece of the side to move, to another square on
/// the board, and never onto a piece of its own side.
pub proof fn law_xiangqi_moves_own_piece(m: Map<Position, Piece>, cur: Player, from: Position, to: Position)
    requires
        board_ok(m),
        legal_move(m, cur, from, to),
    ensures
        m.contains_key(from),
        m[from].player == cur,
        from != to,
        on_xiangqi_board(to),
        !(m.contains_key(to) && m[to].player == cur),
{
}

/// The general never leaves its palace.
pub proof fn law_general_stays_in_palace(m: Map<Position, Piece>, cur: Player, from: Position, to: Position)
    requires
        legal_move(m, cur, from, to),
        m[from].piece_type == PieceType::Xiangqi(XiangqiPiece::General),
    ensures
        in_palace(to, cur),
        dist(from.row, to.row) + dist(from.col, to.col) == 1,
{
}

/// The advisor never leaves its palace and always steps diagonally.
pub proof fn law_advisor_stays_in_palace(m: Map<Position, Piece>, cur: Player, from: Position, to: Position)
    requires
        legal_move(m, cur, from, to),
        m[from].piece_type == PieceType::Xiangqi(XiangqiPiece::Advisor),
    ensures
        in_palace(to, cur),
        dist(from.row, to.row) == 1 && dist(from.col, to.col) == 1,
{
}

/// The elephant never crosses the river.
pub proof fn law_elephant_never_crosses_river(m: Map<Position, Piece>, cur: Player, from: Position, to: Position)
    requires
        legal_move(m, cur, from, to),
        m[from].piece_type == PieceType::Xiangqi(XiangqiPiece::Elephant),
    ensures
        own_side(to, cur),
        dist(from.row, to.row) == 2 && dist(from.col, to.col) == 2,
{
}

/// A soldier never retreats, and moves sideways only once it has crossed the river.
pub proof fn law_soldier_never_retreats(m: Map<Position, Piece>, cur: Player, from: Position, to: Position)
    requires
        legal_move(m, cur, from, to),
        m[from].piece_type == PieceType::Xiangqi(XiangqiPiece::Soldier),
    ensures
        cur == Player::Red ==> to.row <= from.row,
        cur == Player::Black ==> to.row >= from.row,
        to.row == from.row ==> crossed_river(from, cur),
        dist(from.row, to.row) + dist(from.col, to.col) == 1,
{
}

/// Chariots and cannons move along a row or a column.
pub proof fn law_chariot_and_cannon_move_straight(m: Map<Position, Piece>, cur: Player, from: Position, to: Position)
    requires
        legal_move(m, cur, from, to),
        m[from].piece_type == PieceType::Xiangqi(XiangqiPiece::Chariot) || m[from].piece_type
            == PieceType::Xiangqi(XiangqiPiece::Cannon),
    ensures
        straight(from, to),
{
}

/// The horse moves in an L: two squares one way and one the other.
pub proof fn law_horse_moves_in_l_shape(m: Map<Position, Piece>, cur: Player, from: Position, to: Position)
    requires
        legal_move(m, cur, from, to),
        m[from].piece_type == PieceType::Xiangqi(XiangqiPiece::Horse),
    ensures
        horse_shape(from, to),
{
}

/// After a legal move the generals never face each other, and the side that
/// moved is not in check.
pub proof fn law_legal_move_is_safe(m: Map<Position, Piece>, cur: Player, from: Position, to: Position)
    requires
        legal_move(m, cur, from, to),
    ensures
        !generals_face(after_move(m, from, to)),
        !in_check(after_move(m, from, to), cur),
{
}

/// The status of a Xiangqi game says what holds of the board: checkmate is
/// check with no legal move, won by the other side; stalemate is no legal move
/// without check; check and an ongoing game leave the side to move a legal move.
pub proof fn law_xiangqi_status_meaning(m: Map<Position, Piece>, cur: Player)
    ensures
        xiangqi_status(m, cur) matches GameStatus::Checkmate { winner } ==> in_check(m, cur)
            && no_legal_moves(m, cur) && winner == opponent_of(cur),
        xiangqi_status(m, cur) is Stalemate ==> !in_check(m, cur) && no_legal_moves(m, cur),
        xiangqi_status(m, cur) matches GameStatus::Check { player } ==> player == cur && in_check(
            m,
            cur,
        ) && exists|q: Position, t: Position| legal_move(m, cur, q, t),
        xiangqi_status(m, cur) is Ongoing ==> !in_check(m, cur) && exists|q: Position, t: Position|
            legal_move(m, cur, q, t),
        !(xiangqi_status(m, cur) is Victory),
{
    if !no_legal_moves(m, cur) {
        let (q, t) = choose|q: Position, t: Position|
            m.contains_key(q) && m[q].player == cur && #[trigger] pseudo_move(m, q, t) && safe_after(
                m,
                q,
                t,
                cur,
            );
        assert(legal_move(m, cur, q, t));
    }
}

/// Taking back a legal Xiangqi move restores the board it was played on, and
/// the side to move with it.
pub proof fn law_xiangqi_undo_restores(m: Map<Position, Piece>, cur: Player, from: Position, to: Position, t: u64)
    requires
        board_ok(m),
        legal_move(m, cur, from, to),
    ensures
        undo_board(after_move(m, from, to), move_record(m, from, to, t)) == m,
        opponent_of(opponent_of(cur)) == cur,
{
    lemma_undo_after(m, from, to, t);
}

/// A Junqi move moves a piece of the side to move, never the flag or a
/// landmine, and never onto a piece of its own side.
pub proof fn law_junqi_moves_own_mobile_piece(m: Map<Position, Piece>, cur: Player, from: Position, to: Position)
    requires
        junqi_legal(m, cur, from, to),
    ensures
        m.contains_key(from),
        m[from].player == cur,
        junqi_kind(m[from]) != JunqiPiece::Flag,
        junqi_kind(m[from]) != JunqiPiece::Landmine,
        from != to,
        !(m.contains_key(to) && m[to].player == cur),
{
}

/// Off the railway, and for every piece but an engineer, a Junqi move is one
/// step along a row or a column.
pub proof fn law_junqi_basic_move_is_one_step(m: Map<Position, Piece>, cur: Player, from: Position, to: Position)
    requires
        junqi_legal(m, cur, from, to),
        !(junqi_kind(m[from]) == JunqiPiece::Engineer && is_railway(from)),
    ensures
        adjacent(from, to),
{
}

/// An engineer on the railway may go to any railway square next to it that it
/// may land on, and everywhere it goes is a railway square reached over free railway.
pub proof fn law_engineer_railway(m: Map<Position, Piece>, cur: Player, from: Position, to: Position)
    requires
        m.contains_key(from),
        m[from] == (Piece { piece_type: PieceType::Junqi(JunqiPiece::Engineer), player: cur }),
        is_railway(from),
    ensures
        junqi_legal(m, cur, from, to) <==> rail_dest(m, from, to, cur),
        is_railway(to) && adjacent(from, to) && !(m.contains_key(to) && m[to].player == cur)
            ==> junqi_legal(m, cur, from, to),
        junqi_legal(m, cur, from, to) ==> is_railway(to),
{
    if is_railway(to) && adjacent(from, to) && !(m.contains_key(to) && m[to].player == cur) {
        let ps = seq![from];
        assert(rail_path(m, from, ps));
        assert(ps.last() == from);
        assert(from != to);
    }
}

/// A bomb takes both pieces with it, whichever side it is on.
pub proof fn law_bomb_takes_both(a: JunqiPiece, d: JunqiPiece)
    requires
        a == JunqiPiece::Bomb || d == JunqiPiece::Bomb,
    ensures
        battle(a, d) == BattleResult::BothDie,
{
}

/// A landmine stops every attacker but a bomb, which takes it, and an engineer,
/// which clears it.
pub proof fn law_landmine(a: JunqiPiece)
    ensures
        a == JunqiPiece::Engineer ==> battle(a, JunqiPiece::Landmine) == BattleResult::AttackerWins,
        a == JunqiPiece::Bomb ==> battle(a, JunqiPiece::Landmine) == BattleResult::BothDie,
        a != JunqiPiece::Engineer && a != JunqiPiece::Bomb ==> battle(a, JunqiPiece::Landmine)
            == BattleResult::DefenderWins,
{
}

/// The flag falls to any attacker but a bomb.
pub proof fn law_flag_falls(a: JunqiPiece)
    requires
        a != JunqiPiece::Bomb,
    ensures
        battle(a, JunqiPiece::Flag) == BattleResult::AttackerWins,
{
}

/// A piece that is neither bomb, landmine nor flag.
pub open spec fn ordinary(k: JunqiPiece) -> bool {
    k != JunqiPiece::Bomb && k != JunqiPiece::Landmine && k != JunqiPiece::Flag
}

/// Between ordinary pieces the higher rank wins and equal ranks both die; the
/// outcome seen from the other side is the mirror image.
pub proof fn law_rank_decides(a: JunqiPiece, d: JunqiPiece)
    requires
        ordinary(a),
        ordinary(d),
    ensures
        rank_of(a) > rank_of(d) ==> battle(a, d) == BattleResult::AttackerWins,
        rank_of(a) < rank_of(d) ==> battle(a, d) == BattleResult::DefenderWins,
        rank_of(a) == rank_of(d) ==> battle(a, d) == BattleResult::BothDie && battle(d, a)
            == BattleResult::BothDie,
        battle(a, d) == BattleResult::AttackerWins <==> battle(d, a) == BattleResult::DefenderWins,
        a == d ==> battle(a, d) == BattleResult::BothDie,
{
}

/// A Junqi game is won exactly when a flag is gone, and the winner is the side
/// whose opponent lost its flag.
pub proof fn law_junqi_victory_iff_flag_captured(m: Map<Position, Piece>, otherwise: GameStatus)
    requires
        !(otherwise is Victory),
    ensures
        junqi_status(m, otherwise) is Victory <==> flag_captured(m, Player::Red) || flag_captured(
            m,
            Player::Black,
        ),
        junqi_winner(m) matches Some(w) ==> flag_captured(m, opponent_of(w)),
        flag_captured(m, Player::Red) && !flag_captured(m, Player::Black) ==> junqi_winner(m)
            == Some(Player::Black),
        flag_captured(m, Player::Black) && !flag_captured(m, Player::Red) ==> junqi_winner(m)
            == Some(Player::Red),
{
}

/// Taking back a legal Junqi move, battle or not, restores the board it was played on.
pub proof fn law_junqi_undo_restores(m: Map<Position, Piece>, cur: Player, from: Position, to: Position, t: u64)
    requires
        junqi_legal(m, cur, from, to),
    ensures
        junqi_undo_board(junqi_after(m, from, to), junqi_record(m, from, to, t)) == m,
{
    lemma_junqi_undo_after(m, from, to, t);
}

/// Harder difficulties search deeper, and every difficulty searches at least one ply.
pub proof fn law_difficulty_depth_increases()
    ensures
        1 <= depth_of(Difficulty::Easy) < depth_of(Difficulty::Medium) < depth_of(Difficulty::Hard),
{
}

/// A position written under its key reads back as the same position, so a
/// saved board loads with every piece where it stood.
pub proof fn law_position_key_round_trip(p: Position)
    ensures
        key_position(key_text(p)) == Some(p),
{
    lemma_key_round_trip(p);
}

/// The side to move after `k` moves, when `cur` moved first.
pub open spec fn side_after(cur: Player, k: nat) -> Player
    decreases k,
{
    if k == 0 {
        cur
    } else {
        opponent_of(side_after(cur, (k - 1) as nat))
    }
}

/// The Xiangqi board and history after playing `ms` from `m`, the i-th move at time `ts[i]`.
pub open spec fn xiangqi_play(
    m: Map<Position, Piece>,
    ms: Seq<(Position, Position)>,
    ts: Seq<u64>,
) -> (Map<Position, Piece>, Seq<Move>)
    decreases ms.len(),
{
    if ms.len() == 0 {
        (m, Seq::empty())
    } else {
        let (m1, h1) = xiangqi_play(m, ms.drop_last(), ts);
        let (f, t) = ms.last();
        (after_move(m1, f, t), h1.push(move_record(m1, f, t, ts[ms.len() - 1])))
    }
}

/// Every move of `ms` is legal when it is played, the sides taking turns from `cur`.
pub open spec fn xiangqi_all_legal(
    m: Map<Position, Piece>,
    cur: Player,
    ms: Seq<(Position, Position)>,
    ts: Seq<u64>,
) -> bool
    decreases ms.len(),
{
    ms.len() == 0 || (xiangqi_all_legal(m, cur, ms.drop_last(), ts) && legal_move(
        xiangqi_play(m, ms.drop_last(), ts).0,
        side_after(cur, (ms.len() - 1) as nat),
        ms.last().0,
        ms.last().1,
    ))
}

/// The Xiangqi board once the moves of `h` are taken back, last first.
pub open spec fn xiangqi_undo_all(m: Map<Position, Piece>, h: Seq<Move>) -> Map<Position, Piece>
    decreases h.len(),
{
    if h.len() == 0 {
        m
    } else {
        xiangqi_undo_all(undo_board(m, h.last()), h.drop_last())
    }
}

/// Playing legal Xiangqi moves and then taking them all back, last first,
/// restores the board they were played on; the board stays in order throughout.
pub proof fn law_xiangqi_undo_all_restores(
    m: Map<Position, Piece>,
    cur: Player,
    ms: Seq<(Position, Position)>,
    ts: Seq<u64>,
)
    requires
        board_ok(m),
        ts.len() >= ms.len(),
        xiangqi_all_legal(m, cur, ms, ts),
    ensures
        board_ok(xiangqi_play(m, ms, ts).0),
        xiangqi_play(m, ms, ts).1.len() == ms.len(),
        xiangqi_undo_all(xiangqi_play(m, ms, ts).0, xiangqi_play(m, ms, ts).1) == m,
    decreases ms.len(),
{
    if ms.len() > 0 {
        let ms0 = ms.drop_last();
        law_xiangqi_undo_all_restores(m, cur, ms0, ts);
        let (m1, h1) = xiangqi_play(m, ms0, ts);
        let (f, t) = ms.last();
        let pl = side_after(cur, (ms.len() - 1) as nat);
        lemma_legal_move_shape(m1, pl, f, t);
        lemma_after_move_ok(m1, f, t);
        lemma_undo_after(m1, f, t, ts[ms.len() - 1]);
        let h = h1.push(move_record(m1, f, t, ts[ms.len() - 1]));
        assert(h.drop_last() =~= h1);
    }
}

/// The Junqi board and history after playing `ms` from `m`, the i-th move at time `ts[i]`.
pub open spec fn junqi_play(
    m: Map<Position, Piece>,
    ms: Seq<(Position, Position)>,
    ts: Seq<u64>,
) -> (Map<Position, Piece>, Seq<Move>)
    decreases ms.len(),
{
    if ms.len() == 0 {
        (m, Seq::empty())
    } else {
        let (m1, h1) = junqi_play(m, ms.drop_last(), ts);
        let (f, t) = ms.last();
        (junqi_after(m1, f, t), h1.push(junqi_record(m1, f, t, ts[ms.len() - 1])))
    }
}

/// Every move of `ms` is legal when it is played, the sides taking turns from `cur`.
pub open spec fn junqi_all_legal(
    m: Map<Position, Piece>,
    cur: Player,
    ms: Seq<(Position, Position)>,
    ts: Seq<u64>,
) -> bool
    decreases ms.len(),
{
    ms.len() == 0 || (junqi_all_legal(m, cur, ms.drop_last(), ts) && junqi_legal(
        junqi_play(m, ms.drop_last(), ts).0,
        side_after(cur, (ms.len() - 1) as nat),
        ms.last().0,
        ms.last().1,
    ))
}

/// The Junqi board once the moves of `h` are taken back, last first.
pub open spec fn junqi_undo_all(m: Map<Position, Piece>, h: Seq<Move>) -> Map<Position, Piece>
    decreases h.len(),
{
    if h.len() == 0 {
        m
    } else {
        junqi_undo_all(junqi_undo_board(m, h.last()), h.drop_last())
    }
}

/// Playing legal Junqi moves, battles included, and then taking them all back,
/// last first, restores the board they were played on.
pub proof fn law_junqi_undo_all_restores(
    m: Map<Position, Piece>,
    cur: Player,
    ms: Seq<(Position, Position)>,
    ts: Seq<u64>,
)
    requires
        ts.len() >= ms.len(),
        junqi_all_legal(m, cur, ms, ts),
    ensures
        junqi_play(m, ms, ts).1.len() == ms.len(),
        junqi_undo_all(junqi_play(m, ms, ts).0, junqi_play(m, ms, ts).1) == m,
    decreases ms.len(),
{
    if ms.len() > 0 {
        let ms0 = ms.drop_last();
        law_junqi_undo_all_restores(m, cur, ms0, ts);
        let (m1, h1) = junqi_play(m, ms0, ts);
        let (f, t) = ms.last();
        lemma_junqi_undo_after(m1, f, t, ts[ms.len() - 1]);
        let h = h1.push(junqi_record(m1, f, t, ts[ms.len() - 1]));
        assert(h.drop_last() =~= h1);
    }
}

/// A Xiangqi game is over exactly when the side to move has no legal move:
/// checkmated when in check, stalemated otherwise; only a checkmate has a winner,
/// the side that gave it.
pub proof fn law_xiangqi_over_iff_no_moves(m: Map<Position, Piece>, cur: Player)
    ensures
        (xiangqi_status(m, cur) is Checkmate || xiangqi_status(m, cur) is Stalemate)
            <==> no_legal_moves(m, cur),
        xiangqi_status(m, cur) is Checkmate <==> in_check(m, cur) && no_legal_moves(m, cur),
        xiangqi_status(m, cur) is Stalemate <==> !in_check(m, cur) && no_legal_moves(m, cur),
{
}

/// The status a Junqi game records for its board: the victory of the winner
/// once a flag is gone, ongoing before.
pub open spec fn junqi_board_status(m: Map<Position, Piece>) -> GameStatus {
    junqi_status(m, GameStatus::Ongoing)
}

/// A Junqi game starts ongoing, with both flags on the board.
pub proof fn law_junqi_opening_status()
    ensures
        junqi_board_status(junqi_opening()) == GameStatus::Ongoing,
{
    let o = junqi_opening();
    assert(o.contains_key(at(11, 2)) && o[at(11, 2)] == jq(JunqiPiece::Flag, Player::Red));
    assert(o.contains_key(at(0, 1)) && o[at(0, 1)] == jq(JunqiPiece::Flag, Player::Black));
}

/// A move never brings a flag back: a flag on the board after a move stood
/// on the board before it.
proof fn lemma_flag_not_created(m: Map<Position, Piece>, from: Position, to: Position, pl: Player)
    requires
        m.contains_key(from),
        !flag_captured(junqi_after(m, from, to), pl),
    ensures
        !flag_captured(m, pl),
{
    let a = junqi_after(m, from, to);
    let q = choose|q: Position|
        a.contains_key(q) && a[q].player == pl && a[q].piece_type == PieceType::Junqi(JunqiPiece::Flag);
    if q == to && a[to] == m[from] {
        assert(m.contains_key(from));
    } else {
        assert(m.contains_key(q) && m[q] == a[q]);
    }
}

/// A legal Junqi move keeps the recorded status that of the board: the status
/// a move records, from a status that was that of the board before, is that
/// of the board after.
pub proof fn law_junqi_status_kept_by_move(m: Map<Position, Piece>, cur: Player, from: Position, to: Position)
    requires
        junqi_legal(m, cur, from, to),
    ensures
        junqi_status(junqi_after(m, from, to), junqi_board_status(m)) == junqi_board_status(
            junqi_after(m, from, to),
        ),
{
    let a = junqi_after(m, from, to);
    if junqi_winner(a) is None {
        lemma_flag_not_created(m, from, to, Player::Red);
        lemma_flag_not_created(m, from, to, Player::Black);
    }
}

/// The Junqi status along legal moves played from `m` with status `st0`.
pub open spec fn junqi_play_status(
    m: Map<Position, Piece>,
    st0: GameStatus,
    ms: Seq<(Position, Position)>,
    ts: Seq<u64>,
) -> GameStatus
    decreases ms.len(),
{
    if ms.len() == 0 {
        st0
    } else {
        junqi_status(junqi_play(m, ms, ts).0, junqi_play_status(m, st0, ms.drop_last(), ts))
    }
}

/// Along any legal Junqi moves from a status that is that of the board (as
/// at the start of a game), the recorded status stays that of the board: a
/// victory for the winner once a flag is gone, ongoing before. A take-back
/// records the status of the board it restores, so the same holds after it.
pub proof fn law_junqi_status_follows_board(
    m: Map<Position, Piece>,
    cur: Player,
    ms: Seq<(Position, Position)>,
    ts: Seq<u64>,
)
    requires
        ts.len() >= ms.len(),
        junqi_all_legal(m, cur, ms, ts),
    ensures
        junqi_play_status(m, junqi_board_status(m), ms, ts) == junqi_board_status(
            junqi_play(m, ms, ts).0,
        ),
    decreases ms.len(),
{
    if ms.len() > 0 {
        let ms0 = ms.drop_last();
        law_junqi_status_follows_board(m, cur, ms0, ts);
        let m1 = junqi_play(m, ms0, ts).0;
        let (f, t) = ms.last();
        law_junqi_status_kept_by_move(m1, side_after(cur, (ms.len() - 1) as nat), f, t);
    }
}

/// The status a Junqi game reports, while it is in line with the board (as it
/// is from a new game through any moves and take-backs): the victory of the
/// winner once the game is over, ongoing before.
pub proof fn law_junqi_reported_status(e: &JunqiEngine)
    requires
        e.status_in_line(),
    ensures
        e.over() <==> e.winner() is Some,
        e.status() == (if e.over() {
            GameStatus::Victory { winner: e.winner().unwrap() }
        } else {
            GameStatus::Ongoing
        }),
{
}

/// For an engineer of the side to move standing on the railway, the railway
/// check and the list of legal moves agree on every other square: the check
/// holds exactly for the squares the engineer may move to.
pub proof fn law_railway_check_matches_moves(e: &JunqiEngine, from: Position, to: Position)
    requires
        e.board_state.pieces@.contains_key(from),
        e.board_state.pieces@[from] == (Piece {
            piece_type: PieceType::Junqi(JunqiPiece::Engineer),
            player: e.board_state.current_player,
        }),
        is_railway(from),
        from != to,
    ensures
        railway_reach(e.board_state.pieces@, from, to) <==> e.legal(from, to),
{
    law_engineer_railway(e.board_state.pieces@, e.board_state.current_player, from, to);
}

/// Where the pieces of the Xiangqi opening stand: Black's on its first four
/// rows, with only its general and a soldier on the middle column; the two
/// generals on (9, 4) and (0, 4).
#[verifier::rlimit(50)]
proof fn lemma_opening_layout(q: Position)
    requires
        xiangqi_opening().contains_key(q),
    ensures
        on_xiangqi_board(q),
        xiangqi_opening()[q].player == Player::Black ==> q.row <= 3 && (q.col == 4 ==> (
        xiangqi_opening()[q].piece_type == PieceType::Xiangqi(XiangqiPiece::General)
            || xiangqi_opening()[q].piece_type == PieceType::Xiangqi(XiangqiPiece::Soldier))),
        is_general(xiangqi_opening()[q], Player::Red) ==> q == at(9, 4),
        is_general(xiangqi_opening()[q], Player::Black) ==> q == at(0, 4),
{
}

/// A Black piece on the first four rows, off the middle column unless it is
/// the general or a soldier, does not attack (9, 4).
proof fn lemma_far_black_no_attack(m: Map<Position, Piece>, q: Position)
    requires
        m.contains_key(q),
        m[q].player == Player::Black,
        q.row <= 3,
        q.col == 4 ==> (m[q].piece_type == PieceType::Xiangqi(XiangqiPiece::General)
            || m[q].piece_type == PieceType::Xiangqi(XiangqiPiece::Soldier)),
    ensures
        !attacks(m, m[q], q, at(9, 4)),
{
}

/// A new Xiangqi game is under way: Red, to move, is not in check and has a
/// legal move (a soldier's step forward), so the game is neither checkmate nor
/// stalemate.
pub proof fn law_xiangqi_opening_ongoing()
    ensures
        !in_check(xiangqi_opening(), Player::Red),
        !no_legal_moves(xiangqi_opening(), Player::Red),
        xiangqi_status(xiangqi_opening(), Player::Red) == GameStatus::Ongoing,
{
    let o = xiangqi_opening();
    assert forall|g: Position, q: Position|
        o.contains_key(g) && is_general(o[g], Player::Red) && o.contains_key(q) && o[q].player == Player::Black
        implies !attacks(o, o[q], q, g) by {
        lemma_opening_layout(g);
        lemma_opening_layout(q);
        lemma_far_black_no_attack(o, q);
    }
    let from = at(6, 0);
    let to = at(5, 0);
    let a = after_move(o, from, to);
    assert(o.contains_key(from) && o[from] == (Piece {
        piece_type: PieceType::Xiangqi(XiangqiPiece::Soldier),
        player: Player::Red,
    }));
    assert(!o.contains_key(to));
    assert(pseudo_move(o, from, to));
    assert forall|g: Position, q: Position|
        a.contains_key(g) && is_general(a[g], Player::Red) && a.contains_key(q) && a[q].player == Player::Black
        implies !attacks(a, a[q], q, g) by {
        assert(g != to && o.contains_key(g) && a[g] == o[g]);
        assert(q != to && o.contains_key(q) && a[q] == o[q]);
        lemma_opening_layout(g);
        lemma_opening_layout(q);
        lemma_far_black_no_attack(a, q);
    }
    assert(!in_check(a, Player::Red));
    assert(o.contains_key(at(6, 4)));
    assert forall|r: Position, b: Position|
        a.contains_key(r) && is_general(a[r], Player::Red) && a.contains_key(b) && is_general(a[b], Player::Black)
            && r.col == b.col implies !path_clear(a, r, b) by {
        assert(r != to && o.contains_key(r) && a[r] == o[r]);
        assert(b != to && o.contains_key(b) && a[b] == o[b]);
        lemma_opening_layout(r);
        lemma_opening_layout(b);
        assert(between_sq(r, b, at(6, 4)));
        assert(a.contains_key(at(6, 4)));
    }
    assert(!generals_face(a));
    assert(safe_after(o, from, to, Player::Red));
}

/// A horse's jump from `from` to `to` is blocked by a piece on its leg: the
/// square next to `from` on the long side of the L.
pub open spec fn leg_blocked(m: Map<Position, Piece>, from: Position, to: Position) -> bool {
    ||| (to.row == from.row + 2 && m.contains_key(Position { row: (from.row + 1) as u8, col: from.col }))
    ||| (to.row + 2 == from.row && m.contains_key(Position { row: (from.row - 1) as u8, col: from.col }))
    ||| (to.col == from.col + 2 && m.contains_key(Position { row: from.row, col: (from.col + 1) as u8 }))
    ||| (to.col + 2 == from.col && m.contains_key(Position { row: from.row, col: (from.col - 1) as u8 }))
}

/// An elephant's move from `from` to `to` is blocked by a piece on its eye:
/// the square halfway between them.
pub open spec fn eye_blocked(m: Map<Position, Piece>, from: Position, to: Position) -> bool {
    m.contains_key(Position { row: ((from.row + to.row) / 2) as u8, col: ((from.col + to.col) / 2) as u8 })
}

/// Exactly one piece stands on the squares strictly between `from` and `to`
/// on their common line.
pub open spec fn exactly_one_between(m: Map<Position, Piece>, from: Position, to: Position) -> bool {
    exists|s: Position|
        #![trigger m.contains_key(s)]
        between_sq(from, to, s) && m.contains_key(s) && forall|p: Position|
            #![trigger m.contains_key(p)]
            between_sq(from, to, p) && m.contains_key(p) ==> p == s
}

/// No piece stands on the squares strictly between `from` and `to`.
pub open spec fn none_between(m: Map<Position, Piece>, from: Position, to: Position) -> bool {
    forall|p: Position| #![trigger m.contains_key(p)] between_sq(from, to, p) ==> !m.contains_key(p)
}

/// A hobbled horse does not move: on every board, a legal horse move has its
/// leg free.
pub proof fn law_horse_leg_must_be_free(m: Map<Position, Piece>, cur: Player, from: Position, to: Position)
    requires
        legal_move(m, cur, from, to),
        m[from].piece_type == PieceType::Xiangqi(XiangqiPiece::Horse),
    ensures
        !leg_blocked(m, from, to),
        (dist(from.row, to.row) == 2 && dist(from.col, to.col) == 1) || (dist(from.row, to.row) == 1
            && dist(from.col, to.col) == 2),
{
}

/// A hobbled horse gives no check: a horse attacks a square only when its leg
/// is free.
pub proof fn law_horse_attack_needs_free_leg(m: Map<Position, Piece>, pc: Piece, from: Position, to: Position)
    requires
        pc.piece_type == PieceType::Xiangqi(XiangqiPiece::Horse),
        attacks(m, pc, from, to),
    ensures
        !leg_blocked(m, from, to),
{
}

/// An elephant with its eye blocked does not move: a legal elephant move has
/// the square halfway free.
pub proof fn law_elephant_eye_must_be_free(m: Map<Position, Piece>, cur: Player, from: Position, to: Position)
    requires
        legal_move(m, cur, from, to),
        m[from].piece_type == PieceType::Xiangqi(XiangqiPiece::Elephant),
    ensures
        !eye_blocked(m, from, to),
{
}

/// An elephant attacks a square only with its eye free.
pub proof fn law_elephant_attack_needs_free_eye(m: Map<Position, Piece>, pc: Piece, from: Position, to: Position)
    requires
        pc.piece_type == PieceType::Xiangqi(XiangqiPiece::Elephant),
        attacks(m, pc, from, to),
    ensures
        !eye_blocked(m, from, to),
{
}

/// A cannon takes over exactly one screen and moves onto a free square over
/// none: so it attacks an occupied square (a general) only with exactly one
/// piece between, and never over two or more.
pub proof fn law_cannon_attack_needs_one_screen(m: Map<Position, Piece>, pc: Piece, from: Position, to: Position)
    requires
        pc.piece_type == PieceType::Xiangqi(XiangqiPiece::Cannon),
        attacks(m, pc, from, to),
    ensures
        m.contains_key(to) ==> exactly_one_between(m, from, to),
        !m.contains_key(to) ==> none_between(m, from, to),
{
}

/// A legal cannon move captures over exactly one screen and goes to a free
/// square over none.
pub proof fn law_cannon_move_screens(m: Map<Position, Piece>, cur: Player, from: Position, to: Position)
    requires
        legal_move(m, cur, from, to),
        m[from].piece_type == PieceType::Xiangqi(XiangqiPiece::Cannon),
    ensures
        m.contains_key(to) ==> exactly_one_between(m, from, to),
        !m.contains_key(to) ==> none_between(m, from, to),
{
}

/// A legal chariot move passes over no piece.
pub proof fn law_chariot_path_free(m: Map<Position, Piece>, cur: Player, from: Position, to: Position)
    requires
        legal_move(m, cur, from, to),
        m[from].piece_type == PieceType::Xiangqi(XiangqiPiece::Chariot),
    ensures
        none_between(m, from, to),
{
}

/// Check is given by an enemy piece that really reaches the general: a horse
/// with its leg free, an elephant with its eye free, a cannon over exactly one
/// screen, a chariot over none.
pub proof fn law_check_has_a_real_attacker(m: Map<Position, Piece>, player: Player)
    requires
        in_check(m, player),
    ensures
        exists|g: Position, q: Position|
            #![trigger m.contains_key(g), m.contains_key(q)]
            m.contains_key(g) && m[g].piece_type == PieceType::Xiangqi(XiangqiPiece::General) && m[g].player
                == player && m.contains_key(q) && m[q].player == opponent_of(player) && (m[q].piece_type
                == PieceType::Xiangqi(XiangqiPiece::Horse) ==> !leg_blocked(m, q, g)) && (m[q].piece_type
                == PieceType::Xiangqi(XiangqiPiece::Elephant) ==> !eye_blocked(m, q, g)) && (m[q].piece_type
                == PieceType::Xiangqi(XiangqiPiece::Cannon) ==> exactly_one_between(m, q, g)) && (
            m[q].piece_type == PieceType::Xiangqi(XiangqiPiece::Chariot) ==> none_between(m, q, g)),
{
    let (g, q) = choose|g: Position, q: Position|
        m.contains_key(g) && is_general(m[g], player) && m.contains_key(q) && m[q].player == opponent_of(player)
            && attacks(m, m[q], q, g);
    if m[q].piece_type == PieceType::Xiangqi(XiangqiPiece::Cannon) {
        law_cannon_attack_needs_one_screen(m, m[q], q, g);
    }
}

/// A finished game scores 10000 for the side that won it, -10000 for the side
/// that lost it and 0 when nobody won: a won game always scores above a lost one.
pub proof fn law_finished_game_score<T: GameEngine>(st: Standing, ai: Player)
    requires
        T::rule_over(st),
    ensures
        T::rule_winner(st) == Some(ai) ==> eval_standing::<T>(st, ai) == 10000,
        T::rule_winner(st) == Some(opponent_of(ai)) ==> eval_standing::<T>(st, ai) == -10000,
        T::rule_winner(st) is None ==> eval_standing::<T>(st, ai) == 0,
{
}

/// A move that wins the game at once is worth 10000 to the side making it, at
/// every search depth, and one that loses it at once -10000; so where such a
/// winning move exists the best value of the position is at least 10000, and
/// the move the AI picks (whose value is that best value) wins too or is worth
/// as much.
pub proof fn law_winning_move_is_best<T: GameEngine>(
    st: Standing,
    ms: Seq<AiMove>,
    mv: AiMove,
    depth: nat,
    ai: Player,
)
    requires
        depth >= 1,
        lists_moves::<T>(st, ms),
        legal_in::<T>(st, mv),
        T::rule_over(T::rule_after(st, mv.from, mv.to)),
        T::rule_winner(T::rule_after(st, mv.from, mv.to)) == Some(ai),
    ensures
        move_value::<T>(st, mv, depth, true, ai) == 10000,
        best_of::<T>(st, legal_list::<T>(st), depth, true, ai) >= 10000,
{
    lemma_legal_list::<T>(st, ms);
    let l = legal_list::<T>(st);
    assert(l.contains(mv));
    let j = choose|j: int| 0 <= j < l.len() && l[j] == mv;
    lemma_best_of_bounds::<T>(st, l, depth, true, ai);
    assert(move_value::<T>(st, l[j], depth, true, ai) <= best_of::<T>(st, l, depth, true, ai));
}

/// Every piece on either board is worth something, and the Xiangqi pieces rank
/// by value wherever they stand: general above chariot, chariot above horse
/// and cannon, those above elephant and advisor, those above soldier; the
/// Junqi officers rank by grade, the flag above all.
pub proof fn law_piece_values_rank(p: Position, q: Position)
    requires
        p.row < 12 && p.col < 9,
        q.row < 12 && q.col < 9,
    ensures
        forall|t: PieceType| #[trigger] piece_value(t, p) > 0,
        piece_value(PieceType::Xiangqi(XiangqiPiece::General), p) > piece_value(PieceType::Xiangqi(XiangqiPiece::Chariot), q),
        piece_value(PieceType::Xiangqi(XiangqiPiece::Chariot), p) > piece_value(PieceType::Xiangqi(XiangqiPiece::Horse), q),
        piece_value(PieceType::Xiangqi(XiangqiPiece::Chariot), p) > piece_value(PieceType::Xiangqi(XiangqiPiece::Cannon), q),
        piece_value(PieceType::Xiangqi(XiangqiPiece::Horse), p) > piece_value(PieceType::Xiangqi(XiangqiPiece::Elephant), q),
        piece_value(PieceType::Xiangqi(XiangqiPiece::Cannon), p) > piece_value(PieceType::Xiangqi(XiangqiPiece::Advisor), q),
        piece_value(PieceType::Xiangqi(XiangqiPiece::Elephant), p) > piece_value(PieceType::Xiangqi(XiangqiPiece::Soldier), q),
        piece_value(PieceType::Xiangqi(XiangqiPiece::Advisor), p) > piece_value(PieceType::Xiangqi(XiangqiPiece::Soldier), q),
        piece_value(PieceType::Junqi(JunqiPiece::Flag), p) > piece_value(PieceType::Junqi(JunqiPiece::Commander), q),
        piece_value(PieceType::Junqi(JunqiPiece::Commander), p) > piece_value(PieceType::Junqi(JunqiPiece::General), q),
        piece_value(PieceType::Junqi(JunqiPiece::General), p) > piece_value(PieceType::Junqi(JunqiPiece::Major), q),
        piece_value(PieceType::Junqi(JunqiPiece::Major), p) > piece_value(PieceType::Junqi(JunqiPiece::Colonel), q),
        piece_value(PieceType::Junqi(JunqiPiece::Colonel), p) > piece_value(PieceType::Junqi(JunqiPiece::Captain), q),
        piece_value(PieceType::Junqi(JunqiPiece::Captain), p) > piece_value(PieceType::Junqi(JunqiPiece::Battalion), q),
        piece_value(PieceType::Junqi(JunqiPiece::Battalion), p) > piece_value(PieceType::Junqi(JunqiPiece::Company), q),
        piece_value(PieceType::Junqi(JunqiPiece::Company), p) > piece_value(PieceType::Junqi(JunqiPiece::Platoon), q),
        piece_value(PieceType::Junqi(JunqiPiece::Platoon), p) > piece_value(PieceType::Junqi(JunqiPiece::Engineer), q),
{
}

/// The material balance counts the AI's pieces for it and the other side's
/// against it: one more piece of the AI's side raises it, one more of the
/// other side lowers it.
pub proof fn law_material_sides(s: Seq<(Position, Piece)>, p: Position, pc: Piece, ai: Player)
    requires
        p.row < 12 && p.col < 9,
    ensures
        pc.player == ai ==> material(s.push((p, pc)), ai) > material(s, ai),
        pc.player != ai ==> material(s.push((p, pc)), ai) < material(s, ai),
{
    law_piece_values_rank(p, p);
    assert(s.push((p, pc)).drop_last() =~= s);
    assert(piece_value(pc.piece_type, p) > 0);
}

} // verus!
