use vstd::prelude::*;
use crate::models::position::{Position, on_xiangqi_board, lemma_distinct_squares_bounded, lemma_list_len};
use crate::models::piece::{Piece, Player, PieceType, XiangqiPiece, opponent_of};
use crate::models::piece_map::PieceMap;
use crate::models::board_state::{BoardState, Move};
use crate::models::game_status::GameStatus;
use crate::text::{decimal, push_decimal, text};
use crate::clock::unix_time_secs;
use super::game_error::{GameError, GameResult};
use super::game_engine_trait::{GameEngine, Standing};
use crate::models::piece_map::{map_of, seq_insert, seq_remove};
use super::xiangqi_rules::{
    board_ok, one_general_each, legal_move, xiangqi_status, after_move, attacks, generals_face, in_check,
    no_legal_moves, is_general, lemma_after_move_ok, pseudo_move, kind_step,
};
use super::xiangqi_moves::{
    legal_moves_from, status_exec, attacks_exec, generals_facing, check_exec, find_general,
    no_legal_moves_exec, after_map, in_step_order,
};

verus! {

/// The Xiangqi piece of kind `k` owned by `pl`.
pub open spec fn xq(k: XiangqiPiece, pl: Player) -> Piece {
    Piece { piece_type: PieceType::Xiangqi(k), player: pl }
}

/// The square at row `r`, column `c`.
pub open spec fn at(r: u8, c: u8) -> Position {
    Position { row: r, col: c }
}

/// The standard opening position of Xiangqi: Black on rows 0 to 3, Red on rows 6 to 9.
pub open spec fn xiangqi_opening() -> Map<Position, Piece> {
    let b = Player::Black;
    let r = Player::Red;
    Map::<Position, Piece>::empty()
        .insert(at(0, 0), xq(XiangqiPiece::Chariot, b))
        .insert(at(0, 1), xq(XiangqiPiece::Horse, b))
        .insert(at(0, 2), xq(XiangqiPiece::Elephant, b))
        .insert(at(0, 3), xq(XiangqiPiece::Advisor, b))
        .insert(at(0, 4), xq(XiangqiPiece::General, b))
        .insert(at(0, 5), xq(XiangqiPiece::Advisor, b))
        .insert(at(0, 6), xq(XiangqiPiece::Elephant, b))
        .insert(at(0, 7), xq(XiangqiPiece::Horse, b))
        .insert(at(0, 8), xq(XiangqiPiece::Chariot, b))
        .insert(at(2, 1), xq(XiangqiPiece::Cannon, b))
        .insert(at(2, 7), xq(XiangqiPiece::Cannon, b))
        .insert(at(3, 0), xq(XiangqiPiece::Soldier, b))
        .insert(at(3, 2), xq(XiangqiPiece::Soldier, b))
        .insert(at(3, 4), xq(XiangqiPiece::Soldier, b))
        .insert(at(3, 6), xq(XiangqiPiece::Soldier, b))
        .insert(at(3, 8), xq(XiangqiPiece::Soldier, b))
        .insert(at(6, 0), xq(XiangqiPiece::Soldier, r))
        .insert(at(6, 2), xq(XiangqiPiece::Soldier, r))
        .insert(at(6, 4), xq(XiangqiPiece::Soldier, r))
        .insert(at(6, 6), xq(XiangqiPiece::Soldier, r))
        .insert(at(6, 8), xq(XiangqiPiece::Soldier, r))
        .insert(at(7, 1), xq(XiangqiPiece::Cannon, r))
        .insert(at(7, 7), xq(XiangqiPiece::Cannon, r))
        .insert(at(9, 0), xq(XiangqiPiece::Chariot, r))
        .insert(at(9, 1), xq(XiangqiPiece::Horse, r))
        .insert(at(9, 2), xq(XiangqiPiece::Elephant, r))
        .insert(at(9, 3), xq(XiangqiPiece::Advisor, r))
        .insert(at(9, 4), xq(XiangqiPiece::General, r))
        .insert(at(9, 5), xq(XiangqiPiece::Advisor, r))
        .insert(at(9, 6), xq(XiangqiPiece::Elephant, r))
        .insert(at(9, 7), xq(XiangqiPiece::Horse, r))
        .insert(at(9, 8), xq(XiangqiPiece::Chariot, r))
}

/// The board before `mv` was played on it, as a take-back restores it.
pub open spec fn undo_board(m: Map<Position, Piece>, mv: Move) -> Map<Position, Piece> {
    let m1 = if m.contains_key(mv.to) {
        m.remove(mv.to).insert(mv.from, m[mv.to])
    } else {
        m
    };
    match mv.captured_piece {
        Some(c) => m1.insert(mv.to, c),
        None => m1,
    }
}

/// Taking back the moves of `h`, last first, passes only through boards in order.
pub open spec fn history_ok(m: Map<Position, Piece>, h: Seq<Move>) -> bool
    decreases h.len(),
{
    if h.len() == 0 {
        true
    } else {
        board_ok(undo_board(m, h.last())) && history_ok(undo_board(m, h.last()), h.drop_last())
    }
}

/// The record of the move from `from` to `to` on board `m`, at time `t`.
pub open spec fn move_record(m: Map<Position, Piece>, from: Position, to: Position, t: u64) -> Move {
    Move {
        from,
        to,
        piece: m[from],
        captured_piece: if m.contains_key(to) {
            Some(m[to])
        } else {
            None
        },
        timestamp: t,
    }
}

/// The message for a move from an empty square.
pub open spec fn no_piece_message(p: Position) -> Seq<char> {
    "位置 ("@ + decimal(p.row as nat) + ", "@ + decimal(p.col as nat) + ") 没有棋子"@
}

/// Taking back a move restores the board it was played on.
pub proof fn lemma_undo_after(m: Map<Position, Piece>, from: Position, to: Position, t: u64)
    requires
        m.contains_key(from),
        from != to,
    ensures
        undo_board(after_move(m, from, to), move_record(m, from, to, t)) == m,
{
    let a = after_move(m, from, to);
    let mv = move_record(m, from, to, t);
    assert(undo_board(a, mv) =~= m);
}

/// A legal move lands on the board and leaves its square.
pub proof fn lemma_legal_move_shape(m: Map<Position, Piece>, cur: Player, from: Position, to: Position)
    requires
        board_ok(m),
        legal_move(m, cur, from, to),
    ensures
        on_xiangqi_board(to),
        from != to,
{
}

/// The standing after the piece on `from` goes to `to` in a Xiangqi game.
pub open spec fn xiangqi_after_standing(s: Standing, from: Position, to: Position) -> Standing {
    let m = map_of(s.0);
    let s1 = seq_insert(seq_remove(s.0, from), to, m[from]);
    let p1 = opponent_of(s.1);
    (s1, p1, xiangqi_status(map_of(s1), p1))
}

/// A Xiangqi game: the board and the recorded status.
#[derive(Debug)]
pub struct XiangqiEngine {
    pub board_state: BoardState,
    pub game_status: GameStatus,
}

impl XiangqiEngine {
    /// The state is in order: a well-formed board with every piece on it,
    /// at most one general a side, and a history that can be taken back.
    pub open spec fn xwf(&self) -> bool {
        &&& self.board_state.pieces.wf()
        &&& board_ok(self.board_state.pieces@)
        &&& history_ok(self.board_state.pieces@, self.board_state.move_history@)
    }

    /// An engine over a given board, its status `Ongoing`.
    pub fn from_state(board_state: BoardState) -> (e: Self)
        ensures
            e.board_state == board_state,
            e.game_status == GameStatus::Ongoing,
    {
        Self { board_state, game_status: GameStatus::Ongoing }
    }

    /// Whether `piece`, standing on `from`, could move to `to` by its own pattern.
    pub fn validate_piece_move(&self, piece: &Piece, from: Position, to: Position) -> (b: bool)
        requires
            self.board_state.pieces.wf(),
            on_xiangqi_board(from),
        ensures
            b == attacks(self.board_state.pieces@, *piece, from, to),
    {
        attacks_exec(&self.board_state.pieces, *piece, from, to)
    }

    /// Whether, after the piece on `from` moves to `to`, the two generals
    /// would face each other on an open column.
    pub fn can_generals_face(&self, from: Position, to: Position) -> (b: bool)
        requires
            self.board_state.pieces.wf(),
            one_general_each(after_move(self.board_state.pieces@, from, to)),
        ensures
            b == generals_face(after_move(self.board_state.pieces@, from, to)),
    {
        let t = after_map(&self.board_state.pieces, from, to);
        generals_facing(&t)
    }

    /// Whether `player` is in check.
    pub fn is_in_check(&self, player: Player) -> (b: bool)
        requires
            self.xwf(),
        ensures
            b == in_check(self.board_state.pieces@, player),
    {
        check_exec(&self.board_state.pieces, player)
    }

    /// Whether `player` is checkmated: in check, with no legal move.
    pub fn is_checkmate(&self, player: Player) -> (b: bool)
        requires
            self.xwf(),
        ensures
            b == (in_check(self.board_state.pieces@, player) && no_legal_moves(
                self.board_state.pieces@,
                player,
            )),
    {
        if !check_exec(&self.board_state.pieces, player) {
            return false;
        }
        no_legal_moves_exec(&self.board_state.pieces, player)
    }

    /// Whether the side to move is stalemated: not in check, with no legal move.
    pub fn is_stalemate(&self) -> (b: bool)
        requires
            self.xwf(),
        ensures
            b == (!in_check(self.board_state.pieces@, self.board_state.current_player)
                && no_legal_moves(self.board_state.pieces@, self.board_state.current_player)),
    {
        let cur = self.board_state.current_player;
        if check_exec(&self.board_state.pieces, cur) {
            return false;
        }
        no_legal_moves_exec(&self.board_state.pieces, cur)
    }

    /// Where the general of `player` stands, if it is on the board.
    pub fn find_general_position(&self, player: Player) -> (r: Option<Position>)
        requires
            self.xwf(),
        ensures
            match r {
                Some(g) => self.board_state.pieces@.contains_key(g) && is_general(
                    self.board_state.pieces@[g],
                    player,
                ),
                None => forall|g: Position| #[trigger]
                    self.board_state.pieces@.contains_key(g) ==> !is_general(
                        self.board_state.pieces@[g],
                        player,
                    ),
            },
    {
        find_general(&self.board_state.pieces, player)
    }

    fn place(m: &mut PieceMap, r: u8, c: u8, k: XiangqiPiece, pl: Player)
        requires
            old(m).wf(),
        ensures
            final(m).wf(),
            final(m)@ == old(m)@.insert(at(r, c), xq(k, pl)),
    {
        m.insert(Position::new(r, c), Piece::new(PieceType::Xiangqi(k), pl));
    }
}

impl GameEngine for XiangqiEngine {
    open spec fn wf(&self) -> bool {
        self.xwf()
    }

    open spec fn board(&self) -> BoardState {
        self.board_state
    }

    open spec fn legal(&self, from: Position, to: Position) -> bool {
        legal_move(self.board_state.pieces@, self.board_state.current_player, from, to)
    }

    open spec fn moves_len(&self, from: Position) -> nat {
        Set::new(
            |t: Position|
                legal_move(self.board_state.pieces@, self.board_state.current_player, from, t),
        ).len()
    }

    open spec fn over(&self) -> bool {
        self.game_status is Checkmate || self.game_status is Stalemate
    }

    open spec fn winner(&self) -> Option<Player> {
        match self.game_status {
            GameStatus::Checkmate { winner } => Some(winner),
            _ => None,
        }
    }

    open spec fn status(&self) -> GameStatus {
        self.game_status
    }

    open spec fn standing(&self) -> Standing {
        (self.board_state.pieces.seq(), self.board_state.current_player, self.game_status)
    }

    open spec fn rule_legal(s: Standing, from: Position, to: Position) -> bool {
        legal_move(map_of(s.0), s.1, from, to)
    }

    open spec fn rule_over(s: Standing) -> bool {
        s.2 is Checkmate || s.2 is Stalemate
    }

    open spec fn rule_winner(s: Standing) -> Option<Player> {
        match s.2 {
            GameStatus::Checkmate { winner } => Some(winner),
            _ => None,
        }
    }

    open spec fn rule_moves_len(s: Standing, from: Position) -> nat {
        Set::new(|t: Position| legal_move(map_of(s.0), s.1, from, t)).len()
    }

    open spec fn rule_after(s: Standing, from: Position, to: Position) -> Standing {
        xiangqi_after_standing(s, from, to)
    }

    proof fn lemma_rules(&self) {
        self.board_state.pieces.lemma_seq();
    }

    proof fn lemma_legal_piece(&self, from: Position, to: Position) {
    }

    proof fn lemma_board_bounded(&self) {
        let m = &self.board_state.pieces;
        m.lemma_seq();
        let ks = m.seq().map_values(|e: (Position, Piece)| e.0);
        assert forall|i: int| 0 <= i < ks.len() implies (#[trigger] ks[i]).row < 10 && ks[i].col < 9 by {
            assert(m@.contains_key(m.seq()[i].0));
        }
        lemma_distinct_squares_bounded(ks, 10, 9);
    }

    fn new_game() -> (g: Self)
        ensures
            g.board_state.pieces@ == xiangqi_opening(),
            g.board_state.current_player == Player::Red,
            g.board_state.move_history@.len() == 0,
            g.game_status == GameStatus::Ongoing,
    {
        let mut m = PieceMap::new();
        let b = Player::Black;
        let r = Player::Red;
        Self::place(&mut m, 0, 0, XiangqiPiece::Chariot, b);
        Self::place(&mut m, 0, 1, XiangqiPiece::Horse, b);
        Self::place(&mut m, 0, 2, XiangqiPiece::Elephant, b);
        Self::place(&mut m, 0, 3, XiangqiPiece::Advisor, b);
        Self::place(&mut m, 0, 4, XiangqiPiece::General, b);
        Self::place(&mut m, 0, 5, XiangqiPiece::Advisor, b);
        Self::place(&mut m, 0, 6, XiangqiPiece::Elephant, b);
        Self::place(&mut m, 0, 7, XiangqiPiece::Horse, b);
        Self::place(&mut m, 0, 8, XiangqiPiece::Chariot, b);
        Self::place(&mut m, 2, 1, XiangqiPiece::Cannon, b);
        Self::place(&mut m, 2, 7, XiangqiPiece::Cannon, b);
        Self::place(&mut m, 3, 0, XiangqiPiece::Soldier, b);
        Self::place(&mut m, 3, 2, XiangqiPiece::Soldier, b);
        Self::place(&mut m, 3, 4, XiangqiPiece::Soldier, b);
        Self::place(&mut m, 3, 6, XiangqiPiece::Soldier, b);
        Self::place(&mut m, 3, 8, XiangqiPiece::Soldier, b);
        Self::place(&mut m, 6, 0, XiangqiPiece::Soldier, r);
        Self::place(&mut m, 6, 2, XiangqiPiece::Soldier, r);
        Self::place(&mut m, 6, 4, XiangqiPiece::Soldier, r);
        Self::place(&mut m, 6, 6, XiangqiPiece::Soldier, r);
        Self::place(&mut m, 6, 8, XiangqiPiece::Soldier, r);
        Self::place(&mut m, 7, 1, XiangqiPiece::Cannon, r);
        Self::place(&mut m, 7, 7, XiangqiPiece::Cannon, r);
        Self::place(&mut m, 9, 0, XiangqiPiece::Chariot, r);
        Self::place(&mut m, 9, 1, XiangqiPiece::Horse, r);
        Self::place(&mut m, 9, 2, XiangqiPiece::Elephant, r);
        Self::place(&mut m, 9, 3, XiangqiPiece::Advisor, r);
        Self::place(&mut m, 9, 4, XiangqiPiece::General, r);
        Self::place(&mut m, 9, 5, XiangqiPiece::Advisor, r);
        Self::place(&mut m, 9, 6, XiangqiPiece::Elephant, r);
        Self::place(&mut m, 9, 7, XiangqiPiece::Horse, r);
        Self::place(&mut m, 9, 8, XiangqiPiece::Chariot, r);
        let g = XiangqiEngine {
            board_state: BoardState { pieces: m, current_player: Player::Red, move_history: Vec::new() },
            game_status: GameStatus::Ongoing,
        };
        proof {
            let o = xiangqi_opening();
            assert(g.board_state.pieces@ == o);
            assert forall|p: Position| #[trigger] o.contains_key(p) implies on_xiangqi_board(p) by {}
            assert forall|p: Position, q: Position, pl: Player|
                o.contains_key(p) && o.contains_key(q) && is_general(o[p], pl) && is_general(o[q], pl)
                implies p == q by {}
        }
        g
    }

    fn get_board_state(&self) -> (b: &BoardState) {
        &self.board_state
    }

    fn get_legal_moves(&self, position: Position) -> (v: Vec<Position>)
        ensures
            forall|to: Position|
                v@.contains(to) <==> legal_move(
                    self.board_state.pieces@,
                    self.board_state.current_player,
                    position,
                    to,
                ),
            v@.no_duplicates(),
            forall|k: XiangqiPiece| self.board_state.pieces@.contains_key(position)
                && self.board_state.pieces@[position].piece_type == PieceType::Xiangqi(k)
                ==> #[trigger] in_step_order(v@, k, position),
    {
        let v = legal_moves_from(&self.board_state.pieces, self.board_state.current_player, position);
        proof {
            assert forall|i: int| 0 <= i < v@.len() implies (#[trigger] v@[i]).row < 10 && v@[i].col < 9 by {
                assert(v@.contains(v@[i]));
                lemma_legal_move_shape(self.board_state.pieces@, self.board_state.current_player, position, v@[i]);
            }
            lemma_distinct_squares_bounded(v@, 10, 9);
            lemma_list_len(
                v@,
                Set::new(
                    |t: Position|
                        legal_move(self.board_state.pieces@, self.board_state.current_player, position, t),
                ),
            );
        }
        v
    }

    fn make_move(&mut self, from: Position, to: Position) -> (r: GameResult<()>)
        ensures
            !old(self).board_state.pieces@.contains_key(from) ==> (r matches Err(
                GameError::InvalidInput { message },
            ) && message@ == no_piece_message(from)),
            old(self).board_state.pieces@.contains_key(from) && old(self).board_state.pieces@[from].player
                != old(self).board_state.current_player ==> (r matches Err(
                GameError::IllegalMove { from: f, to: t, reason },
            ) && f == from && t == to && reason@ == "不是当前玩家的棋子"@),
            old(self).board_state.pieces@.contains_key(from) && old(self).board_state.pieces@[from].player
                == old(self).board_state.current_player && !old(self).legal(from, to) ==> (r matches Err(
                GameError::IllegalMove { from: f, to: t, reason },
            ) && f == from && t == to && reason@ == "该移动不符合游戏规则"@),
            r is Ok ==> {
                let m0 = old(self).board_state.pieces@;
                let m1 = final(self).board_state.pieces@;
                let h1 = final(self).board_state.move_history@;
                &&& m1 == after_move(m0, from, to)
                &&& h1.drop_last() == old(self).board_state.move_history@
                &&& h1.last() == move_record(m0, from, to, h1.last().timestamp)
                &&& final(self).game_status == xiangqi_status(m1, final(self).board_state.current_player)
            },
    {
        let piece = match self.board_state.pieces.get(&from) {
            None => {
                let mut message = text("位置 (");
                push_decimal(&mut message, from.row);
                message.append(", ");
                push_decimal(&mut message, from.col);
                message.append(") 没有棋子");
                return Err(GameError::InvalidInput { message });
            },
            Some(p) => *p,
        };
        if piece.player != self.board_state.current_player {
            return Err(GameError::IllegalMove { from, to, reason: text("不是当前玩家的棋子") });
        }
        let legal = legal_moves_from(&self.board_state.pieces, self.board_state.current_player, from);
        let mut found = false;
        let mut i: usize = 0;
        while i < legal.len()
            invariant
                i <= legal@.len(),
                found == (exists|j: int| 0 <= j < i && legal@[j] == to),
            decreases legal@.len() - i,
        {
            if legal[i] == to {
                found = true;
            }
            i = i + 1;
        }
        if !found {
            proof {
                if legal_move(self.board_state.pieces@, self.board_state.current_player, from, to) {
                    assert(legal@.contains(to));
                    let j = choose|j: int| 0 <= j < legal@.len() && legal@[j] == to;
                    assert(exists|j: int| 0 <= j < i && legal@[j] == to);
                }
            }
            return Err(GameError::IllegalMove { from, to, reason: text("该移动不符合游戏规则") });
        }
        let ghost m0 = self.board_state.pieces@;
        let ghost h0 = self.board_state.move_history@;
        proof {
            assert(legal@.contains(to));
            lemma_legal_move_shape(m0, self.board_state.current_player, from, to);
        }
        let captured_piece = match self.board_state.pieces.get(&to) {
            Some(c) => Some(*c),
            None => None,
        };
        self.board_state.pieces.remove(&from);
        self.board_state.pieces.insert(to, piece);
        let timestamp = unix_time_secs();
        let record = Move { from, to, piece, captured_piece, timestamp };
        self.board_state.move_history.push(record);
        self.board_state.current_player = self.board_state.current_player.opponent();
        proof {
            assert(self.board_state.pieces@ =~= after_move(m0, from, to));
            assert(record == move_record(m0, from, to, timestamp));
            lemma_after_move_ok(m0, from, to);
            lemma_undo_after(m0, from, to, timestamp);
            assert(self.board_state.move_history@.drop_last() =~= h0);
            assert(history_ok(self.board_state.pieces@, self.board_state.move_history@));
        }
        self.update_game_status();
        proof {
            assert(self.board_state.move_history@.last() == record);
            old(self).board_state.pieces.lemma_seq();
            self.board_state.pieces.lemma_seq();
        }
        Ok(())
    }

    fn is_game_over(&self) -> (b: bool) {
        match self.game_status {
            GameStatus::Checkmate { .. } => true,
            GameStatus::Stalemate => true,
            _ => false,
        }
    }

    fn get_winner(&self) -> (w: Option<Player>) {
        match self.game_status {
            GameStatus::Checkmate { winner } => Some(winner),
            _ => None,
        }
    }

    fn undo_move(&mut self) -> (r: GameResult<()>)
        ensures
            r matches Err(e) ==> (e matches GameError::InvalidState { message } && message@
                == "没有可以悔棋的移动"@),
            r is Ok ==> {
                let m1 = final(self).board_state.pieces@;
                &&& m1 == undo_board(
                    old(self).board_state.pieces@,
                    old(self).board_state.move_history@.last(),
                )
                &&& final(self).game_status == xiangqi_status(m1, final(self).board_state.current_player)
            },
    {
        if self.board_state.move_history.len() == 0 {
            return Err(GameError::InvalidState { message: text("没有可以悔棋的移动") });
        }
        let ghost m0 = self.board_state.pieces@;
        let ghost h0 = self.board_state.move_history@;
        let last = match self.board_state.move_history.pop() {
            Some(mv) => mv,
            None => return Err(GameError::InvalidState { message: text("没有可以悔棋的移动") }),
        };
        proof {
            assert(last == h0.last());
        }
        match self.board_state.pieces.remove(&last.to) {
            Some(piece) => {
                self.board_state.pieces.insert(last.from, piece);
            },
            None => {},
        }
        match last.captured_piece {
            Some(c) => {
                self.board_state.pieces.insert(last.to, c);
            },
            None => {},
        }
        self.board_state.current_player = self.board_state.current_player.opponent();
        proof {
            assert(self.board_state.pieces@ =~= undo_board(m0, last));
        }
        self.update_game_status();
        Ok(())
    }

    fn get_game_status(&self) -> (s: GameStatus) {
        self.game_status
    }

    fn duplicate(&self) -> (c: Self) {
        XiangqiEngine { board_state: self.board_state.duplicate(), game_status: self.game_status }
    }
}

impl XiangqiEngine {
    /// Records the status that the rules give the board with the side to move:
    /// checkmate or check when that side is attacked, stalemate or ongoing when
    /// it is not, by whether it has a legal move left. The game is then over
    /// exactly when that side has no legal move.
    pub fn update_game_status(&mut self)
        requires
            old(self).xwf(),
        ensures
            final(self).xwf(),
            final(self).board_state == old(self).board_state,
            final(self).game_status == xiangqi_status(
                old(self).board_state.pieces@,
                old(self).board_state.current_player,
            ),
            (final(self).game_status is Checkmate || final(self).game_status is Stalemate) <==> no_legal_moves(
                old(self).board_state.pieces@,
                old(self).board_state.current_player,
            ),
    {
        self.game_status = status_exec(&self.board_state.pieces, self.board_state.current_player);
    }
}

impl Clone for XiangqiEngine {
    fn clone(&self) -> (c: Self)
        ensures
            c.board_state.pieces.wf() == self.board_state.pieces.wf(),
            c.board_state.pieces@ == self.board_state.pieces@,
            c.board_state.pieces.seq() == self.board_state.pieces.seq(),
            c.board_state.current_player == self.board_state.current_player,
            c.board_state.move_history@ == self.board_state.move_history@,
            c.game_status == self.game_status,
    {
        XiangqiEngine { board_state: self.board_state.duplicate(), game_status: self.game_status }
    }
}

} // verus!
