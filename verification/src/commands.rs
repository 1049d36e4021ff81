use vstd::prelude::*;
use crate::models::position::Position;
use crate::models::piece::{Piece, opponent_of};
use crate::models::board_state::BoardState;
use crate::game_engine::game_error::{GameError, illegal_move_text};
use crate::game_engine::game_engine_trait::GameEngine;
use crate::game_engine::xiangqi_engine::{XiangqiEngine, no_piece_message, undo_board};
use crate::game_engine::xiangqi_rules::after_move;
use crate::game_engine::junqi_engine::{JunqiEngine, no_start_piece_message};
use crate::game_engine::junqi_rules::{junqi_after, junqi_undo_board};
use crate::game_session::{GameSession, GameSessionManager, GameType, missing_session_message};
use crate::ai::ai_engine::{AIEngine, Move as AiMove, move_value, best_of, legal_list};
use crate::ai::difficulty::Difficulty;
use crate::text::text;

verus! {

/// The greeting for `name`.
pub fn greet(name: &str) -> (s: String)
    ensures
        s@ == "Hello, "@ + name@ + "! You've been greeted from Rust!"@,
{
    let mut s = text("Hello, ");
    s.append(name);
    s.append("! You've been greeted from Rust!");
    s
}

/// What `str::to_lowercase` makes of a text.
pub uninterp spec fn lowercase(s: Seq<char>) -> Seq<char>;

/// `str::to_lowercase`: the text with every character replaced by its
/// Unicode lowercase mapping. The mapping depends on the text alone, not on a
/// locale; what it is on each character is left to the name `lowercase`.
#[verifier::external_body]
fn to_lowercase(s: &str) -> (r: String)
    ensures
        r@ == lowercase(s@),
{
    s.to_lowercase()
}

/// The game that a lowercased name stands for.
pub open spec fn game_type_named(s: Seq<char>) -> Option<GameType> {
    if s == "xiangqi"@ || s == "象棋"@ {
        Some(GameType::Xiangqi)
    } else if s == "junqi"@ || s == "军棋"@ {
        Some(GameType::Junqi)
    } else {
        None
    }
}

/// The game that a lowercased name stands for: "xiangqi" or "象棋", "junqi" or "军棋".
pub fn parse_game_type(lowered: &str) -> (r: Option<GameType>)
    ensures
        r == game_type_named(lowered@),
{
    let l = text(lowered);
    if l == text("xiangqi") || l == text("象棋") {
        Some(GameType::Xiangqi)
    } else if l == text("junqi") || l == text("军棋") {
        Some(GameType::Junqi)
    } else {
        None
    }
}

/// The message handed to the front end when a request fails with `m`.
pub open spec fn ipc_text(m: Seq<char>) -> Seq<char> {
    "通信错误："@ + m
}

fn ipc(message: String) -> (s: String)
    ensures
        s@ == ipc_text(message@),
{
    GameError::IPCError { message }.user_message()
}

/// The board of a game.
pub open spec fn session_board(s: GameSession) -> BoardState {
    match s {
        GameSession::Xiangqi(e) => e.board_state,
        GameSession::Junqi(e) => e.board_state,
    }
}

/// The piece on `from` may legally go to `to` in the game.
pub open spec fn session_legal(s: GameSession, from: Position, to: Position) -> bool {
    match s {
        GameSession::Xiangqi(e) => e.legal(from, to),
        GameSession::Junqi(e) => e.legal(from, to),
    }
}

/// `v` lists exactly the legal destinations of the piece on `from`.
pub open spec fn lists_legal_targets(v: Seq<Position>, s: GameSession, from: Position) -> bool {
    forall|to: Position| #[trigger] v.contains(to) <==> session_legal(s, from, to)
}

/// The side to move has a legal move in the game.
pub open spec fn session_has_move(s: GameSession) -> bool {
    exists|f: Position, t: Position| session_legal(s, f, t)
}

/// The board after the piece on `from` goes to `to`, by the rules of the game.
pub open spec fn session_after(s: GameSession, from: Position, to: Position) -> Map<Position, Piece> {
    match s {
        GameSession::Xiangqi(e) => after_move(e.board_state.pieces@, from, to),
        GameSession::Junqi(e) => junqi_after(e.board_state.pieces@, from, to),
    }
}

/// The board once the last move of the game is taken back.
pub open spec fn session_undone(s: GameSession) -> Map<Position, Piece> {
    match s {
        GameSession::Xiangqi(e) => undo_board(e.board_state.pieces@, e.board_state.move_history@.last()),
        GameSession::Junqi(e) => junqi_undo_board(
            e.board_state.pieces@,
            e.board_state.move_history@.last(),
        ),
    }
}

/// The message with which the game refuses the move from `from` to `to`.
pub open spec fn refusal_text(s: GameSession, from: Position, to: Position) -> Seq<char> {
    let b = session_board(s);
    let m = b.pieces@;
    match s {
        GameSession::Xiangqi(_) => if !m.contains_key(from) {
            "无效输入："@ + no_piece_message(from)
        } else if m[from].player != b.current_player {
            illegal_move_text(from, to, "不是当前玩家的棋子"@)
        } else {
            illegal_move_text(from, to, "该移动不符合游戏规则"@)
        },
        GameSession::Junqi(_) => if !m.contains_key(from) {
            "无效输入："@ + no_start_piece_message(from)
        } else if m[from].player != b.current_player {
            illegal_move_text(from, to, "不能移动对手的棋子"@)
        } else {
            illegal_move_text(from, to, "该移动不在合法移动列表中"@)
        },
    }
}

/// `s1` is the game `s0` after the move from `from` to `to`.
pub open spec fn moved(s0: GameSession, s1: GameSession, from: Position, to: Position) -> bool {
    let b0 = session_board(s0);
    let b1 = session_board(s1);
    &&& s1.kind() == s0.kind()
    &&& s1.swf()
    &&& b1.pieces@ == session_after(s0, from, to)
    &&& b1.current_player == opponent_of(b0.current_player)
    &&& b1.move_history@.len() == b0.move_history@.len() + 1
    &&& b1.move_history@.drop_last() == b0.move_history@
}

/// The move from `from` to `to` has the best minimax value, two plies deep, of
/// all moves of the side to move in the game.
pub open spec fn best_at_medium(s: GameSession, from: Position, to: Position) -> bool {
    match s {
        GameSession::Xiangqi(e) => {
            let st = e.standing();
            move_value::<XiangqiEngine>(st, AiMove { from, to }, 2, true, st.1) == best_of::<
                XiangqiEngine,
            >(st, legal_list::<XiangqiEngine>(st), 2, true, st.1)
        },
        GameSession::Junqi(e) => {
            let st = e.standing();
            move_value::<JunqiEngine>(st, AiMove { from, to }, 2, true, st.1) == best_of::<
                JunqiEngine,
            >(st, legal_list::<JunqiEngine>(st), 2, true, st.1)
        },
    }
}

/// `s1` is the game `s0` with its last move taken back.
pub open spec fn undone(s0: GameSession, s1: GameSession) -> bool {
    let b0 = session_board(s0);
    let b1 = session_board(s1);
    &&& s1.kind() == s0.kind()
    &&& s1.swf()
    &&& b1.pieces@ == session_undone(s0)
    &&& b1.current_player == opponent_of(b0.current_player)
    &&& b1.move_history@ == b0.move_history@.drop_last()
}

/// Two board states hold the same pieces, side to move and history.
pub open spec fn same_board(b: BoardState, c: BoardState) -> bool {
    &&& b.pieces@ == c.pieces@
    &&& b.pieces.seq() == c.pieces.seq()
    &&& b.current_player == c.current_player
    &&& b.move_history@ == c.move_history@
}

/// Starts a game of the kind named by `game_type` (in any case: "xiangqi"
/// or "象棋", "junqi" or "军棋") and hands back its id.
pub fn start_new_game(manager: &mut GameSessionManager, game_type: String) -> (r: Result<
    String,
    String,
>)
    requires
        old(manager).wf(),
    ensures
        final(manager).wf(),
        match game_type_named(lowercase(game_type@)) {
            Some(t) => r matches Ok(id) && id@.len() == 36 && final(manager)@.contains_key(id@)
                && final(manager)@[id@].is_fresh(t)
                && final(manager)@ == old(manager)@.insert(id@, final(manager)@[id@]),
            None => r matches Err(m) && m@ == "无效输入："@ + "不支持的游戏类型: "@ + game_type@
                && final(manager)@ == old(manager)@,
        },
{
    let lowered = to_lowercase(game_type.as_str());
    let game_type_enum = match parse_game_type(lowered.as_str()) {
        Some(t) => t,
        None => {
            let mut message = text("不支持的游戏类型: ");
            message.append(game_type.as_str());
            let error = GameError::InvalidInput { message };
            return Err(error.user_message());
        },
    };
    match manager.create_session(game_type_enum) {
        Ok(id) => Ok(id),
        Err(e) => Err(ipc(e)),
    }
}

/// The legal destinations of the piece on `position` in the game `game_id`.
pub fn get_legal_moves(manager: &GameSessionManager, game_id: &str, position: Position) -> (r:
    Result<Vec<Position>, String>)
    requires
        manager.wf(),
    ensures
        manager@.contains_key(game_id@) ==> (r matches Ok(v) && lists_legal_targets(
            v@,
            manager@[game_id@],
            position,
        )),
        !manager@.contains_key(game_id@) ==> (r matches Err(m) && m@ == ipc_text(
            missing_session_message(game_id@),
        )),
{
    proof {
        if manager@.contains_key(game_id@) {
            manager.lemma_sessions_wf(game_id@);
        }
    }
    match manager.get_session(game_id) {
        Ok(session) => match session {
            GameSession::Xiangqi(engine) => Ok(engine.get_legal_moves(position)),
            GameSession::Junqi(engine) => Ok(engine.get_legal_moves(position)),
        },
        Err(e) => Err(ipc(e)),
    }
}

/// Plays the move from `from` to `to` in the game `game_id` and hands back
/// the board after it; a refused move changes nothing.
pub fn make_player_move(
    manager: &mut GameSessionManager,
    game_id: &str,
    from: Position,
    to: Position,
) -> (r: Result<BoardState, String>)
    requires
        old(manager).wf(),
    ensures
        final(manager).wf(),
        !old(manager)@.contains_key(game_id@) ==> (r matches Err(m) && m@ == ipc_text(
            missing_session_message(game_id@),
        ) && final(manager)@ == old(manager)@),
        old(manager)@.contains_key(game_id@) ==> {
            let s0 = old(manager)@[game_id@];
            &&& r is Ok <==> session_legal(s0, from, to)
            &&& r matches Ok(b) ==> final(manager)@.contains_key(game_id@) && final(manager)@
                == old(manager)@.insert(game_id@, final(manager)@[game_id@]) && moved(
                s0,
                final(manager)@[game_id@],
                from,
                to,
            ) && same_board(b, session_board(final(manager)@[game_id@]))
            &&& r matches Err(m) ==> m@ == ipc_text(refusal_text(s0, from, to)) && final(manager)@
                == old(manager)@
        },
{
    proof {
        if old(manager)@.contains_key(game_id@) {
            old(manager).lemma_sessions_wf(game_id@);
        }
    }
    let ghost m0 = manager@;
    let ghost key = game_id@;
    match manager.with_session_mut(game_id) {
        Err(e) => Err(ipc(e)),
        Ok(session) => {
            let r = match session {
                GameSession::Xiangqi(engine) => match engine.make_move(from, to) {
                    Ok(()) => Ok(engine.get_board_state().clone()),
                    Err(e) => Err(e.user_message()),
                },
                GameSession::Junqi(engine) => match engine.make_move(from, to) {
                    Ok(()) => Ok(engine.get_board_state().clone()),
                    Err(e) => Err(e.user_message()),
                },
            };
            proof {
                if r is Err {
                    assert(m0.insert(key, m0[key]) =~= m0);
                }
            }
            match r {
                Ok(b) => Ok(b),
                Err(m) => Err(ipc(m)),
            }
        },
    }
}

/// The message when the opponent engine finds no move.
pub open spec fn no_ai_move_text() -> Seq<char> {
    ipc_text("AI 计算错误："@ + "AI 无法找到合法走法"@)
}

/// The message when there is no move to take back.
pub open spec fn nothing_to_undo_text() -> Seq<char> {
    ipc_text("游戏状态错误："@ + "没有可以悔棋的移动"@ + "。请重新开始游戏。"@)
}

fn no_ai_move_error() -> (s: String)
    ensures
        s@ == "AI 计算错误："@ + "AI 无法找到合法走法"@,
{
    GameError::AIError { message: text("AI 无法找到合法走法") }.user_message()
}

/// Lets the opponent engine, at medium difficulty, play a move for the side
/// to move in the game `game_id`; hands back the move and the board after it.
/// Fails, changing nothing, when the side to move has no legal move.
pub fn make_ai_move(manager: &mut GameSessionManager, game_id: &str) -> (r: Result<
    (Position, Position, BoardState),
    String,
>)
    requires
        old(manager).wf(),
    ensures
        final(manager).wf(),
        !old(manager)@.contains_key(game_id@) ==> (r matches Err(m) && m@ == ipc_text(
            missing_session_message(game_id@),
        ) && final(manager)@ == old(manager)@),
        old(manager)@.contains_key(game_id@) ==> {
            let s0 = old(manager)@[game_id@];
            &&& r is Ok <==> session_has_move(s0)
            &&& r matches Ok((f, t, b)) ==> best_at_medium(s0, f, t)
            &&& r matches Ok((f, t, b)) ==> session_legal(s0, f, t) && final(manager)@.contains_key(
                game_id@,
            ) && final(manager)@ == old(manager)@.insert(game_id@, final(manager)@[game_id@])
                && moved(s0, final(manager)@[game_id@], f, t) && same_board(
                b,
                session_board(final(manager)@[game_id@]),
            )
            &&& r matches Err(m) ==> m@ == no_ai_move_text() && final(manager)@ == old(manager)@
        },
{
    proof {
        if old(manager)@.contains_key(game_id@) {
            old(manager).lemma_sessions_wf(game_id@);
        }
    }
    let ghost m0 = manager@;
    let ghost key = game_id@;
    match manager.with_session_mut(game_id) {
        Err(e) => Err(ipc(e)),
        Ok(session) => {
            let ai = AIEngine::new(Difficulty::Medium);
            assert(ai.depth() == 2);
            let r = match session {
                GameSession::Xiangqi(engine) => match ai.calculate_best_move(&*engine) {
                    None => {
                        proof {
                            if session_has_move(m0[key]) {
                                let (f, t) = choose|f: Position, t: Position|
                                    session_legal(m0[key], f, t);
                                assert(engine.legal(f, t));
                            }
                        }
                        Err(no_ai_move_error())
                    },
                    Some(mv) => match engine.make_move(mv.from, mv.to) {
                        Ok(()) => {
                            assert(session_legal(m0[key], mv.from, mv.to));
                            Ok((mv.from, mv.to, engine.get_board_state().clone()))
                        },
                        Err(e) => Err(e.user_message()),
                    },
                },
                GameSession::Junqi(engine) => match ai.calculate_best_move(&*engine) {
                    None => {
                        proof {
                            if session_has_move(m0[key]) {
                                let (f, t) = choose|f: Position, t: Position|
                                    session_legal(m0[key], f, t);
                                assert(engine.legal(f, t));
                            }
                        }
                        Err(no_ai_move_error())
                    },
                    Some(mv) => match engine.make_move(mv.from, mv.to) {
                        Ok(()) => {
                            assert(session_legal(m0[key], mv.from, mv.to));
                            Ok((mv.from, mv.to, engine.get_board_state().clone()))
                        },
                        Err(e) => Err(e.user_message()),
                    },
                },
            };
            proof {
                if r is Err {
                    assert(m0.insert(key, m0[key]) =~= m0);
                }
            }
            match r {
                Ok(x) => Ok(x),
                Err(m) => Err(ipc(m)),
            }
        },
    }
}

/// Takes back the last move of the game `game_id` and hands back the board;
/// fails, changing nothing, when no move has been played.
pub fn undo_move(manager: &mut GameSessionManager, game_id: &str) -> (r: Result<BoardState, String>)
    requires
        old(manager).wf(),
    ensures
        final(manager).wf(),
        !old(manager)@.contains_key(game_id@) ==> (r matches Err(m) && m@ == ipc_text(
            missing_session_message(game_id@),
        ) && final(manager)@ == old(manager)@),
        old(manager)@.contains_key(game_id@) ==> {
            let s0 = old(manager)@[game_id@];
            &&& r is Ok <==> session_board(s0).move_history@.len() > 0
            &&& r matches Ok(b) ==> final(manager)@.contains_key(game_id@) && final(manager)@
                == old(manager)@.insert(game_id@, final(manager)@[game_id@]) && undone(
                s0,
                final(manager)@[game_id@],
            ) && same_board(b, session_board(final(manager)@[game_id@]))
            &&& r matches Err(m) ==> m@ == nothing_to_undo_text() && final(manager)@ == old(
                manager,
            )@
        },
{
    proof {
        if old(manager)@.contains_key(game_id@) {
            old(manager).lemma_sessions_wf(game_id@);
        }
    }
    let ghost m0 = manager@;
    let ghost key = game_id@;
    match manager.with_session_mut(game_id) {
        Err(e) => Err(ipc(e)),
        Ok(session) => {
            let r = match session {
                GameSession::Xiangqi(engine) => match engine.undo_move() {
                    Ok(()) => Ok(engine.get_board_state().clone()),
                    Err(e) => Err(e.user_message()),
                },
                GameSession::Junqi(engine) => match engine.undo_move() {
                    Ok(()) => Ok(engine.get_board_state().clone()),
                    Err(e) => Err(e.user_message()),
                },
            };
            proof {
                if r is Err {
                    assert(m0.insert(key, m0[key]) =~= m0);
                }
            }
            match r {
                Ok(b) => Ok(b),
                Err(m) => Err(ipc(m)),
            }
        },
    }
}

/// Starts the game `game_id` over from its opening position and hands back the board.
pub fn restart_game(manager: &mut GameSessionManager, game_id: &str) -> (r: Result<BoardState, String>)
    requires
        old(manager).wf(),
    ensures
        final(manager).wf(),
        !old(manager)@.contains_key(game_id@) ==> (r matches Err(m) && m@ == ipc_text(
            missing_session_message(game_id@),
        ) && final(manager)@ == old(manager)@),
        old(manager)@.contains_key(game_id@) ==> (r matches Ok(b) && final(manager)@.contains_key(
            game_id@,
        ) && final(manager)@ == old(manager)@.insert(game_id@, final(manager)@[game_id@])
            && final(manager)@[game_id@].is_fresh(old(manager)@[game_id@].kind()) && same_board(
            b,
            session_board(final(manager)@[game_id@]),
        )),
{
    match manager.with_session_mut(game_id) {
        Err(e) => Err(ipc(e)),
        Ok(session) => match session {
            GameSession::Xiangqi(engine) => {
                *engine = XiangqiEngine::new_game();
                Ok(engine.get_board_state().clone())
            },
            GameSession::Junqi(engine) => {
                *engine = JunqiEngine::new_game();
                Ok(engine.get_board_state().clone())
            },
        },
    }
}

} // verus!
