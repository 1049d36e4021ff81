use chess_game::ai::{AIEngine, Difficulty};
use chess_game::commands::{
    get_legal_moves, greet, make_ai_move, make_player_move, parse_game_type, restart_game,
    start_new_game, undo_move,
};
use chess_game::error_logger::{state_line, ErrorLogger, LogEntry};
use chess_game::game_engine::{
    railway_positions, BattleResult, GameEngine, GameError, JunqiEngine, XiangqiEngine,
};
use chess_game::game_session::{GameSession, GameSessionManager, GameType};
use chess_game::models::{
    BoardState, GameStatus, JunqiPiece, Piece, PieceType, Player, Position, XiangqiPiece,
};

fn junqi(k: JunqiPiece, p: Player) -> Piece {
    Piece::new(PieceType::Junqi(k), p)
}

fn xiangqi(k: XiangqiPiece, p: Player) -> Piece {
    Piece::new(PieceType::Xiangqi(k), p)
}

#[test]
fn opponent_of_opponent_is_the_player() {
    assert_eq!(Player::Red.opponent(), Player::Black);
    assert_eq!(Player::Black.opponent(), Player::Red);
    assert_eq!(Player::Red.opponent().opponent(), Player::Red);
    assert_eq!(Player::Black.opponent().opponent(), Player::Black);
}

#[test]
fn position_key_is_row_comma_col() {
    assert_eq!(Position::new(9, 4).to_key(), "9,4");
    assert_eq!(Position::new(0, 0).to_key(), "0,0");
    assert_eq!(Position::new(11, 4).to_key(), "11,4");
    assert_eq!(Position::new(255, 100).to_key(), "255,100");
}

#[test]
fn position_key_round_trip() {
    for row in 0..=255u8 {
        for col in [0u8, 1, 9, 10, 99, 100, 255] {
            let p = Position::new(row, col);
            assert_eq!(Position::from_key(&p.to_key()), Some(p));
        }
    }
}

#[test]
fn position_key_reading_accepts_what_u8_parsing_accepts() {
    assert_eq!(Position::from_key("+5,7"), Some(Position::new(5, 7)));
    assert_eq!(Position::from_key("007,3"), Some(Position::new(7, 3)));
    assert_eq!(Position::from_key("5,+0"), Some(Position::new(5, 0)));
}

#[test]
fn position_key_reading_refuses_malformed_keys() {
    assert_eq!(Position::from_key(""), None);
    assert_eq!(Position::from_key(","), None);
    assert_eq!(Position::from_key("5"), None);
    assert_eq!(Position::from_key("5,7,1"), None);
    assert_eq!(Position::from_key("256,1"), None);
    assert_eq!(Position::from_key("1,1000"), None);
    assert_eq!(Position::from_key("a,1"), None);
    assert_eq!(Position::from_key(" 1,2"), None);
    assert_eq!(Position::from_key("-1,2"), None);
    assert_eq!(Position::from_key("+,2"), None);
    assert_eq!(Position::from_key("1,"), None);
    assert_eq!(Position::from_key("一,2"), None);
}

#[test]
fn error_messages_of_each_kind() {
    let illegal = GameError::IllegalMove {
        from: Position::new(9, 1),
        to: Position::new(5, 5),
        reason: "该移动不符合游戏规则".to_string(),
    };
    assert_eq!(illegal.user_message(), "非法移动：从 (9, 1) 到 (5, 5) - 该移动不符合游戏规则");
    assert_eq!(illegal.error_code(), "ILLEGAL_MOVE");
    let input = GameError::InvalidInput { message: "x".to_string() };
    assert_eq!(input.user_message(), "无效输入：x");
    let state = GameError::InvalidState { message: "y".to_string() };
    assert_eq!(state.user_message(), "游戏状态错误：y。请重新开始游戏。");
    let ai = GameError::AIError { message: "z".to_string() };
    assert_eq!(ai.user_message(), "AI 计算错误：z");
    let ipc = GameError::IPCError { message: "w".to_string() };
    assert_eq!(ipc.user_message(), "通信错误：w");
    assert_eq!(ipc.error_code(), "IPC_ERROR");
}

#[test]
fn greeting() {
    assert_eq!(greet("Tauri"), "Hello, Tauri! You've been greeted from Rust!");
}

#[test]
fn game_type_names() {
    assert_eq!(parse_game_type("xiangqi"), Some(GameType::Xiangqi));
    assert_eq!(parse_game_type("象棋"), Some(GameType::Xiangqi));
    assert_eq!(parse_game_type("junqi"), Some(GameType::Junqi));
    assert_eq!(parse_game_type("军棋"), Some(GameType::Junqi));
    assert_eq!(parse_game_type("XIANGQI"), None);
    assert_eq!(parse_game_type("chess"), None);
}

#[test]
fn start_new_game_lowercases_the_name() {
    let mut manager = GameSessionManager::new();
    let id = start_new_game(&mut manager, "JunQi".to_string()).unwrap();
    assert_eq!(id.chars().count(), 36);
    let kind = manager.with_session(&id, |s| Ok(s.game_type())).unwrap();
    assert_eq!(kind, GameType::Junqi);
}

#[test]
fn start_new_game_refuses_unknown_names() {
    let mut manager = GameSessionManager::new();
    let r = start_new_game(&mut manager, "Chess".to_string());
    assert_eq!(r, Err("无效输入：不支持的游戏类型: Chess".to_string()));
    assert_eq!(manager.session_count().unwrap(), 0);
}

#[test]
fn unknown_game_ids_are_reported() {
    let mut manager = GameSessionManager::new();
    let expected = "通信错误：游戏会话不存在: nope".to_string();
    assert_eq!(get_legal_moves(&manager, "nope", Position::new(0, 0)), Err(expected.clone()));
    assert_eq!(
        make_player_move(&mut manager, "nope", Position::new(0, 0), Position::new(1, 0)).err(),
        Some(expected.clone())
    );
    assert_eq!(make_ai_move(&mut manager, "nope").err(), Some(expected.clone()));
    assert_eq!(undo_move(&mut manager, "nope").err(), Some(expected.clone()));
    assert_eq!(restart_game(&mut manager, "nope").err(), Some(expected));
    assert!(matches!(manager.get_session("nope"), Err(m) if m == "游戏会话不存在: nope"));
    assert_eq!(manager.remove_session("nope"), Err("游戏会话不存在: nope".to_string()));
}

#[test]
fn refused_moves_are_reported_and_change_nothing() {
    let mut manager = GameSessionManager::new();
    let id = start_new_game(&mut manager, "xiangqi".to_string()).unwrap();
    let r = make_player_move(&mut manager, &id, Position::new(9, 1), Position::new(5, 5));
    assert_eq!(
        r.err(),
        Some("通信错误：非法移动：从 (9, 1) 到 (5, 5) - 该移动不符合游戏规则".to_string())
    );
    let r = make_player_move(&mut manager, &id, Position::new(5, 5), Position::new(4, 5));
    assert_eq!(r.err(), Some("通信错误：无效输入：位置 (5, 5) 没有棋子".to_string()));
    let r = make_player_move(&mut manager, &id, Position::new(0, 0), Position::new(1, 0));
    assert_eq!(
        r.err(),
        Some("通信错误：非法移动：从 (0, 0) 到 (1, 0) - 不是当前玩家的棋子".to_string())
    );
    let history = manager
        .with_session(&id, |s| Ok(s.as_xiangqi().unwrap().board_state.move_history.len()))
        .unwrap();
    assert_eq!(history, 0);
    let r = undo_move(&mut manager, &id);
    assert_eq!(
        r.err(),
        Some("通信错误：游戏状态错误：没有可以悔棋的移动。请重新开始游戏。".to_string())
    );
}

#[test]
fn junqi_refusals_are_reported() {
    let mut manager = GameSessionManager::new();
    let id = start_new_game(&mut manager, "军棋".to_string()).unwrap();
    let r = make_player_move(&mut manager, &id, Position::new(5, 0), Position::new(6, 0));
    assert_eq!(r.err(), Some("通信错误：无效输入：起始位置 (5, 0) 没有棋子".to_string()));
    let r = make_player_move(&mut manager, &id, Position::new(4, 0), Position::new(5, 0));
    assert_eq!(
        r.err(),
        Some("通信错误：非法移动：从 (4, 0) 到 (5, 0) - 不能移动对手的棋子".to_string())
    );
    let r = make_player_move(&mut manager, &id, Position::new(11, 2), Position::new(10, 2));
    assert_eq!(
        r.err(),
        Some("通信错误：非法移动：从 (11, 2) 到 (10, 2) - 该移动不在合法移动列表中".to_string())
    );
}

#[test]
fn ai_move_then_undo_restores_the_board() {
    let mut manager = GameSessionManager::new();
    let id = start_new_game(&mut manager, "junqi".to_string()).unwrap();
    let (from, to, board) = make_ai_move(&mut manager, &id).unwrap();
    assert_ne!(from, to);
    assert_eq!(board.current_player, Player::Black);
    assert_eq!(board.move_history.len(), 1);
    let back = undo_move(&mut manager, &id).unwrap();
    assert_eq!(back.current_player, Player::Red);
    assert_eq!(back.move_history.len(), 0);
    assert_eq!(back.pieces.len(), 50);
    let fresh = JunqiEngine::new_game();
    for (pos, piece) in fresh.board_state.pieces.iter() {
        assert_eq!(back.pieces.get(pos), Some(piece));
    }
}

#[test]
fn ai_without_moves_reports_it() {
    let mut board = BoardState::new();
    board.pieces.insert(Position::new(11, 2), junqi(JunqiPiece::Flag, Player::Red));
    board.pieces.insert(Position::new(0, 1), junqi(JunqiPiece::Flag, Player::Black));
    board.pieces.insert(Position::new(11, 1), junqi(JunqiPiece::Landmine, Player::Red));
    let game = JunqiEngine::from_state(board);
    for d in [Difficulty::Easy, Difficulty::Medium, Difficulty::Hard] {
        assert!(AIEngine::new(d).calculate_best_move(&game).is_none());
    }
}

#[test]
fn ai_finds_a_move_whenever_one_exists_at_medium() {
    let mut board = BoardState::new();
    board.pieces.insert(Position::new(11, 2), junqi(JunqiPiece::Flag, Player::Red));
    board.pieces.insert(Position::new(0, 1), junqi(JunqiPiece::Flag, Player::Black));
    board.pieces.insert(Position::new(6, 2), junqi(JunqiPiece::Commander, Player::Red));
    let game = JunqiEngine::from_state(board);
    let mv = AIEngine::new(Difficulty::Medium).calculate_best_move(&game).unwrap();
    assert_eq!(mv.from, Position::new(6, 2));
    assert!(game.get_legal_moves(mv.from).contains(&mv.to));
}

#[test]
fn difficulty_depths_increase() {
    let easy = AIEngine::new(Difficulty::Easy).get_search_depth();
    let medium = AIEngine::new(Difficulty::Medium).get_search_depth();
    let hard = AIEngine::new(Difficulty::Hard).get_search_depth();
    assert!(1 <= easy && easy < medium && medium < hard);
}

#[test]
fn battle_outcomes_mirror_each_other() {
    let game = JunqiEngine::new_game();
    let ordinary = [
        JunqiPiece::Commander,
        JunqiPiece::General,
        JunqiPiece::Major,
        JunqiPiece::Colonel,
        JunqiPiece::Captain,
        JunqiPiece::Battalion,
        JunqiPiece::Company,
        JunqiPiece::Platoon,
        JunqiPiece::Engineer,
    ];
    for a in ordinary {
        for d in ordinary {
            let ab = game.resolve_battle(&junqi(a, Player::Red), &junqi(d, Player::Black));
            let ba = game.resolve_battle(&junqi(d, Player::Red), &junqi(a, Player::Black));
            match ab {
                BattleResult::AttackerWins => assert_eq!(ba, BattleResult::DefenderWins),
                BattleResult::DefenderWins => assert_eq!(ba, BattleResult::AttackerWins),
                BattleResult::BothDie => assert_eq!(ba, BattleResult::BothDie),
            }
        }
    }
    let bomb = junqi(JunqiPiece::Bomb, Player::Red);
    let flag = junqi(JunqiPiece::Flag, Player::Black);
    let mine = junqi(JunqiPiece::Landmine, Player::Black);
    assert_eq!(game.resolve_battle(&bomb, &flag), BattleResult::BothDie);
    assert_eq!(game.resolve_battle(&bomb, &mine), BattleResult::BothDie);
    assert_eq!(
        game.resolve_battle(&junqi(JunqiPiece::Platoon, Player::Red), &flag),
        BattleResult::AttackerWins
    );
    assert_eq!(
        game.resolve_battle(&junqi(JunqiPiece::Commander, Player::Red), &mine),
        BattleResult::DefenderWins
    );
}

#[test]
fn engineer_runs_along_the_railway() {
    let mut board = BoardState::new();
    board.pieces.insert(Position::new(11, 2), junqi(JunqiPiece::Flag, Player::Red));
    board.pieces.insert(Position::new(0, 1), junqi(JunqiPiece::Flag, Player::Black));
    board.pieces.insert(Position::new(6, 0), junqi(JunqiPiece::Engineer, Player::Red));
    board.pieces.insert(Position::new(6, 3), junqi(JunqiPiece::Major, Player::Red));
    let game = JunqiEngine::from_state(board);
    let moves = game.get_legal_moves(Position::new(6, 0));
    assert!(moves.contains(&Position::new(6, 2)));
    assert!(!moves.contains(&Position::new(6, 3)));
    assert!(moves.contains(&Position::new(6, 4)));
    assert!(moves.contains(&Position::new(2, 0)));
    assert!(!moves.contains(&Position::new(1, 1)));
    assert!(game.can_move_on_railway(Position::new(6, 0), Position::new(9, 0)));
    assert!(!game.can_move_on_railway(Position::new(6, 3), Position::new(6, 4)));
}

#[test]
fn railway_has_fifty_squares_and_no_camps() {
    let rail = railway_positions();
    assert_eq!(rail.len(), 50);
    for (r, c) in [(10u8, 1u8), (10, 3), (11, 0), (11, 2), (11, 4), (0, 0), (0, 2), (0, 4), (1, 1), (1, 3)] {
        assert!(!rail.contains(&(r, c)));
    }
    assert!(rail.contains(&(0, 1)));
    assert!(rail.contains(&(6, 2)));
}

#[test]
fn xiangqi_move_and_undo_round_trip_with_capture() {
    let mut game = XiangqiEngine::new_game();
    let before = game.board_state.pieces.clone();
    game.make_move(Position::new(7, 1), Position::new(0, 1)).unwrap();
    assert_eq!(
        game.board_state.move_history[0].captured_piece,
        Some(xiangqi(XiangqiPiece::Horse, Player::Black))
    );
    assert_eq!(game.board_state.pieces.len(), 31);
    game.undo_move().unwrap();
    assert_eq!(game.board_state.pieces.len(), before.len());
    for (pos, piece) in before.iter() {
        assert_eq!(game.board_state.pieces.get(pos), Some(piece));
    }
    assert_eq!(game.board_state.current_player, Player::Red);
}

#[test]
fn session_lifecycle() {
    let mut manager = GameSessionManager::default();
    let a = manager.create_session(GameType::Xiangqi).unwrap();
    let b = manager.create_session(GameType::Junqi).unwrap();
    assert_eq!(a.len(), 36);
    assert_eq!(manager.session_count(), Ok(2));
    assert!(matches!(manager.get_session(&b), Ok(GameSession::Junqi(_))));
    manager.remove_session(&a).unwrap();
    assert_eq!(manager.session_count(), Ok(1));
    assert!(manager.get_session(&a).is_err());
    let board = restart_game(&mut manager, &b).unwrap();
    assert_eq!(board.pieces.len(), 50);
    manager.clear_all_sessions().unwrap();
    assert_eq!(manager.session_count(), Ok(0));
}

#[test]
fn session_views() {
    let mut x = GameSession::new(GameType::Xiangqi);
    assert!(x.as_xiangqi().is_some());
    assert!(x.as_junqi().is_none());
    assert!(x.as_junqi_mut().is_none());
    x.as_xiangqi_mut().unwrap().board_state.current_player = Player::Black;
    assert_eq!(x.as_xiangqi().unwrap().get_board_state().current_player, Player::Black);
    assert_eq!(x.as_xiangqi().unwrap().get_game_status(), GameStatus::Ongoing);
}

#[test]
fn log_entry_text() {
    let error = GameError::AIError { message: "AI 计算超时".to_string() };
    let board = BoardState::new();
    let entry = LogEntry::new(&error, "2024-01-02 03:04:05.678".to_string(), Some(&board));
    assert_eq!(entry.error_code, "AI_ERROR");
    assert_eq!(entry.message, "AI 计算错误：AI 计算超时");
    assert!(entry.game_state.is_some());
    assert_eq!(entry.log_line(), "[2024-01-02 03:04:05.678] AI_ERROR - AI 计算错误：AI 计算超时\n");
    assert_eq!(state_line("{}"), "  游戏状态: {}\n");
    let logger = ErrorLogger::with_path("/tmp/game_errors.log".to_string());
    assert_eq!(logger.get_log_file_path(), "/tmp/game_errors.log");
}

#[test]
fn junqi_battle_records_the_defender_as_captured() {
    let mut board = BoardState::new();
    board.pieces.insert(Position::new(11, 2), junqi(JunqiPiece::Flag, Player::Red));
    board.pieces.insert(Position::new(0, 1), junqi(JunqiPiece::Flag, Player::Black));
    board.pieces.insert(Position::new(6, 2), junqi(JunqiPiece::Platoon, Player::Red));
    board.pieces.insert(Position::new(5, 2), junqi(JunqiPiece::Commander, Player::Black));
    let mut game = JunqiEngine::from_state(board);
    game.make_move(Position::new(6, 2), Position::new(5, 2)).unwrap();
    assert_eq!(
        game.board_state.move_history[0].captured_piece,
        Some(junqi(JunqiPiece::Commander, Player::Black))
    );
    assert!(game.board_state.pieces.get(&Position::new(6, 2)).is_none());
    assert_eq!(
        game.board_state.pieces.get(&Position::new(5, 2)),
        Some(&junqi(JunqiPiece::Commander, Player::Black))
    );
    game.undo_move().unwrap();
    assert_eq!(
        game.board_state.pieces.get(&Position::new(6, 2)),
        Some(&junqi(JunqiPiece::Platoon, Player::Red))
    );
    assert_eq!(
        game.board_state.pieces.get(&Position::new(5, 2)),
        Some(&junqi(JunqiPiece::Commander, Player::Black))
    );
}

#[test]
fn junqi_single_steps_come_right_left_down_up() {
    let game = JunqiEngine::new_game();
    // The red company on (7, 0): right is its own piece, left is off the board,
    // down is its own piece; only up is free.
    assert_eq!(game.get_legal_moves(Position::new(7, 0)), vec![Position::new(6, 0)]);
    let mut board = BoardState::new();
    board.pieces.insert(Position::new(11, 2), junqi(JunqiPiece::Flag, Player::Red));
    board.pieces.insert(Position::new(0, 1), junqi(JunqiPiece::Flag, Player::Black));
    board.pieces.insert(Position::new(1, 1), junqi(JunqiPiece::Major, Player::Red));
    let game = JunqiEngine::from_state(board);
    assert_eq!(
        game.get_legal_moves(Position::new(1, 1)),
        vec![Position::new(1, 2), Position::new(1, 0), Position::new(2, 1), Position::new(0, 1)]
    );
}

#[test]
fn generals_facing_off_the_board() {
    let mut board = BoardState::new();
    board.pieces.insert(Position::new(12, 4), xiangqi(XiangqiPiece::General, Player::Red));
    board.pieces.insert(Position::new(0, 4), xiangqi(XiangqiPiece::General, Player::Black));
    board.pieces.insert(Position::new(5, 4), xiangqi(XiangqiPiece::Soldier, Player::Red));
    let game = XiangqiEngine::from_state(board);
    assert!(!game.can_generals_face(Position::new(9, 0), Position::new(9, 1)));
    assert!(game.can_generals_face(Position::new(5, 4), Position::new(20, 20)));
}

#[test]
fn session_count_after_create_and_remove() {
    let mut manager = GameSessionManager::new();
    let a = manager.create_session(GameType::Xiangqi).unwrap();
    assert_eq!(manager.session_count(), Ok(1));
    manager.remove_session(&a).unwrap();
    assert_eq!(manager.session_count(), Ok(0));
}

#[test]
fn ai_takes_a_free_chariot() {
    let mut board = BoardState::new();
    board.pieces.insert(Position::new(9, 4), xiangqi(XiangqiPiece::General, Player::Red));
    board.pieces.insert(Position::new(0, 3), xiangqi(XiangqiPiece::General, Player::Black));
    board.pieces.insert(Position::new(5, 0), xiangqi(XiangqiPiece::Chariot, Player::Red));
    board.pieces.insert(Position::new(5, 8), xiangqi(XiangqiPiece::Chariot, Player::Black));
    let game = XiangqiEngine::from_state(board);
    let mv = AIEngine::new(Difficulty::Easy).calculate_best_move(&game).unwrap();
    assert_eq!((mv.from, mv.to), (Position::new(5, 0), Position::new(5, 8)));
}

fn squares(list: &[(u8, u8)]) -> Vec<Position> {
    list.iter().map(|&(r, c)| Position::new(r, c)).collect()
}

#[test]
fn cannon_moves_come_right_left_down_up_nearest_first() {
    let game = XiangqiEngine::new_game();
    let moves = game.get_legal_moves(Position::new(7, 1));
    assert_eq!(
        moves,
        squares(&[(7, 2), (7, 3), (7, 4), (7, 5), (7, 6), (7, 0), (8, 1), (6, 1), (5, 1), (4, 1), (3, 1), (0, 1)])
    );
}

#[test]
fn horse_moves_come_in_pattern_order() {
    let game = XiangqiEngine::new_game();
    assert_eq!(game.get_legal_moves(Position::new(9, 1)), squares(&[(7, 2), (7, 0)]));
    assert_eq!(game.get_legal_moves(Position::new(9, 4)), squares(&[(8, 4)]));
}

#[test]
fn engineer_railway_moves_come_in_search_order() {
    let mut board = BoardState::new();
    board.pieces.insert(Position::new(11, 2), junqi(JunqiPiece::Flag, Player::Red));
    board.pieces.insert(Position::new(0, 1), junqi(JunqiPiece::Flag, Player::Black));
    board.pieces.insert(Position::new(1, 0), junqi(JunqiPiece::Engineer, Player::Red));
    board.pieces.insert(Position::new(2, 1), junqi(JunqiPiece::Major, Player::Black));
    board.pieces.insert(Position::new(3, 0), junqi(JunqiPiece::Captain, Player::Black));
    let game = JunqiEngine::from_state(board);
    assert_eq!(game.get_legal_moves(Position::new(1, 0)), squares(&[(2, 0), (2, 1), (3, 0)]));
    assert!(game.can_move_on_railway(Position::new(1, 0), Position::new(3, 0)));
    assert!(!game.can_move_on_railway(Position::new(1, 0), Position::new(4, 0)));
}

#[test]
fn evaluation_is_opposite_for_the_two_sides() {
    let mut game = XiangqiEngine::new_game();
    game.make_move(Position::new(7, 1), Position::new(0, 1)).unwrap();
    let ai = AIEngine::new(Difficulty::Easy);
    let red = ai.evaluate_position(&game, Player::Red);
    let black = ai.evaluate_position(&game, Player::Black);
    assert_eq!(red, -black);
}

#[test]
fn minimax_at_depth_zero_is_the_evaluation() {
    let game = XiangqiEngine::new_game();
    let ai = AIEngine::new(Difficulty::Medium);
    let e = ai.evaluate_position(&game, Player::Red);
    assert_eq!(ai.minimax(&game, 0, i32::MIN, i32::MAX, true, Player::Red), e);
    let v = ai.minimax(&game, 1, i32::MIN, i32::MAX, true, Player::Red);
    assert_eq!(ai.minimax(&game, 1, v - 1, v + 1, true, Player::Red), v);
    assert!(ai.minimax(&game, 1, v, v + 1, true, Player::Red) <= v);
}

#[test]
fn new_xiangqi_game_is_neither_stalemate_nor_checkmate() {
    let game = XiangqiEngine::new_game();
    assert!(!game.is_stalemate());
    assert!(!game.is_checkmate(Player::Red));
    assert!(!game.is_in_check(Player::Red));
    assert_eq!(game.get_game_status(), GameStatus::Ongoing);
}

#[test]
fn junqi_status_stays_in_line_over_moves_and_take_backs() {
    let mut board = BoardState::new();
    board.pieces.insert(Position::new(11, 2), junqi(JunqiPiece::Flag, Player::Red));
    board.pieces.insert(Position::new(0, 1), junqi(JunqiPiece::Flag, Player::Black));
    board.pieces.insert(Position::new(1, 0), junqi(JunqiPiece::Engineer, Player::Red));
    board.pieces.insert(Position::new(5, 0), junqi(JunqiPiece::Major, Player::Black));
    let mut game = JunqiEngine::from_state(board);
    assert_eq!(game.get_game_status(), GameStatus::Ongoing);
    game.make_move(Position::new(1, 0), Position::new(2, 0)).unwrap();
    assert_eq!(game.get_game_status(), GameStatus::Ongoing);
    assert!(!game.is_game_over());
    game.undo_move().unwrap();
    assert_eq!(game.get_game_status(), GameStatus::Ongoing);
    assert_eq!(game.get_winner(), None);
}
