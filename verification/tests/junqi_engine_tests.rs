use chess_game::models::{Position, Piece, Player, PieceType, JunqiPiece, BoardState, GameStatus};
use chess_game::game_engine::{
    GameEngine, GameError, JunqiEngine, BattleResult, JUNQI_ROWS, JUNQI_COLS, RED_CAMP_POSITIONS,
    BLACK_CAMP_POSITIONS, railway_positions,
};


#[test]
fn test_junqi_new_game_initialization() {
    let game = JunqiEngine::new_game();
    let board_state = game.get_board_state();
    
    // 验证每方有25个棋子，总共50个
    assert_eq!(board_state.pieces.len(), 50, "军棋开局应该有50个棋子");
    
    // 验证红方先行
    assert_eq!(board_state.current_player, Player::Red, "红方应该先行");
    
    // 验证每方都有军旗
    let mut red_flag_count = 0;
    let mut black_flag_count = 0;
    
    for piece in board_state.pieces.values() {
        if let PieceType::Junqi(JunqiPiece::Flag) = piece.piece_type {
            match piece.player {
                Player::Red => red_flag_count += 1,
                Player::Black => black_flag_count += 1,
            }
        }
    }
    
    assert_eq!(red_flag_count, 1, "红方应该有1个军旗");
    assert_eq!(black_flag_count, 1, "黑方应该有1个军旗");
}

#[test]
fn test_junqi_board_dimensions() {
    // 验证棋盘尺寸常量
    assert_eq!(JUNQI_ROWS, 12, "军棋棋盘应该有12行");
    assert_eq!(JUNQI_COLS, 5, "军棋棋盘应该有5列");
}

#[test]
fn test_camp_positions() {
    // 验证营地位置数量
    assert_eq!(RED_CAMP_POSITIONS.len(), 5, "红方应该有5个营地");
    assert_eq!(BLACK_CAMP_POSITIONS.len(), 5, "黑方应该有5个营地");
    
    // 验证营地位置在棋盘范围内
    for (row, col) in RED_CAMP_POSITIONS.iter() {
        assert!(*row < JUNQI_ROWS && *col < JUNQI_COLS, "红方营地位置应该在棋盘范围内");
    }
    
    for (row, col) in BLACK_CAMP_POSITIONS.iter() {
        assert!(*row < JUNQI_ROWS && *col < JUNQI_COLS, "黑方营地位置应该在棋盘范围内");
    }
}

#[test]
fn test_railway_positions() {
    // 验证铁路线位置不包含营地
    for (row, col) in RED_CAMP_POSITIONS.iter() {
        assert!(!railway_positions().contains(&(*row, *col)), "铁路线不应该包含红方营地");
    }
    
    for (row, col) in BLACK_CAMP_POSITIONS.iter() {
        assert!(!railway_positions().contains(&(*row, *col)), "铁路线不应该包含黑方营地");
    }
    
    // 验证铁路线位置数量（总位置60个，减去10个营地）
    assert_eq!(railway_positions().len(), 50, "铁路线应该有50个位置");
}

#[test]
fn test_special_pieces_placement() {
    let game = JunqiEngine::new_game();
    let board_state = game.get_board_state();
    
    // 验证军旗、地雷、炸弹等特殊棋子的数量
    let mut red_landmines = 0;
    let mut black_landmines = 0;
    let mut red_bombs = 0;
    let mut black_bombs = 0;
    
    for piece in board_state.pieces.values() {
        match piece.piece_type {
            PieceType::Junqi(JunqiPiece::Landmine) => {
                match piece.player {
                    Player::Red => red_landmines += 1,
                    Player::Black => black_landmines += 1,
                }
            }
            PieceType::Junqi(JunqiPiece::Bomb) => {
                match piece.player {
                    Player::Red => red_bombs += 1,
                    Player::Black => black_bombs += 1,
                }
            }
            _ => {}
        }
    }
    
    assert_eq!(red_landmines, 3, "红方应该有3个地雷");
    assert_eq!(black_landmines, 3, "黑方应该有3个地雷");
    assert_eq!(red_bombs, 2, "红方应该有2个炸弹");
    assert_eq!(black_bombs, 2, "黑方应该有2个炸弹");
}

#[test]
fn test_flag_and_landmine_cannot_move() {
    let game = JunqiEngine::new_game();
    
    // 测试军旗不能移动
    let red_flag_pos = Position::new(11, 2);
    let legal_moves = game.get_legal_moves(red_flag_pos);
    assert_eq!(legal_moves.len(), 0, "军旗不能移动");
    
    // 测试地雷不能移动
    let red_landmine_pos = Position::new(11, 0);
    let legal_moves = game.get_legal_moves(red_landmine_pos);
    assert_eq!(legal_moves.len(), 0, "地雷不能移动");
}

#[test]
fn test_basic_piece_movement() {
    let mut game = JunqiEngine::new_game();
    
    // 测试红方连长（第7行第0列）的基础移动
    let company_pos = Position::new(7, 0);
    let legal_moves = game.get_legal_moves(company_pos);
    
    // 连长应该可以向上、向右移动（向下和向左超出边界或有己方棋子）
    assert!(legal_moves.len() > 0, "连长应该有合法移动");
    
    // 验证移动方向正确（只能移动一格）
    for move_pos in legal_moves.iter() {
        let row_diff = (move_pos.row as i8 - company_pos.row as i8).abs();
        let col_diff = (move_pos.col as i8 - company_pos.col as i8).abs();
        assert_eq!(row_diff + col_diff, 1, "基础移动只能移动一格");
    }
}

#[test]
fn test_engineer_basic_movement() {
    let mut game = JunqiEngine::new_game();
    
    // 清空一些位置以便工兵可以移动
    game.board_state.pieces.remove(&Position::new(8, 0));
    
    // 测试红方工兵（第9行第0列）的移动
    let engineer_pos = Position::new(9, 0);
    let legal_moves = game.get_legal_moves(engineer_pos);
    
    println!("工兵的合法移动数量: {}", legal_moves.len());
    for move_pos in legal_moves.iter() {
        println!("  可移动到: ({}, {})", move_pos.row, move_pos.col);
    }
    
    // 工兵在铁路线上应该有多个合法移动
    assert!(legal_moves.len() > 0, "工兵应该有合法移动");
}

#[test]
fn test_engineer_railway_movement() {
    let mut game = JunqiEngine::new_game();
    
    // 创建一个简化的测试场景：清空部分棋盘，测试工兵铁路移动
    // 移除一些棋子以创建空间
    game.board_state.pieces.remove(&Position::new(6, 0));
    game.board_state.pieces.remove(&Position::new(7, 0));
    game.board_state.pieces.remove(&Position::new(8, 0));
    
    // 测试工兵在铁路线上的移动
    let engineer_pos = Position::new(9, 0);
    let legal_moves = game.get_legal_moves(engineer_pos);
    
    println!("工兵在 ({}, {}) 的合法移动数量: {}", engineer_pos.row, engineer_pos.col, legal_moves.len());
    for move_pos in legal_moves.iter() {
        println!("  可移动到: ({}, {})", move_pos.row, move_pos.col);
    }
    
    // 工兵在铁路线上应该能移动到多个位置（至少可以向上移动到清空的位置）
    assert!(legal_moves.len() >= 1, "工兵在铁路线上应该能移动到至少一个位置");
    
    // 验证工兵可以移动到清空的位置
    assert!(legal_moves.contains(&Position::new(8, 0)) || 
            legal_moves.contains(&Position::new(6, 0)) ||
            legal_moves.contains(&Position::new(7, 0)),
            "工兵应该能移动到清空的铁路位置");
}

#[test]
fn test_can_move_on_railway() {
    let mut game = JunqiEngine::new_game();
    
    // 清空一些位置以测试铁路移动
    game.board_state.pieces.remove(&Position::new(6, 0));
    game.board_state.pieces.remove(&Position::new(7, 0));
    game.board_state.pieces.remove(&Position::new(8, 0));
    
    let engineer_pos = Position::new(9, 0);
    let target_pos = Position::new(6, 0);
    
    // 测试工兵是否可以沿铁路线移动
    let can_move = game.can_move_on_railway(engineer_pos, target_pos);
    assert!(can_move, "工兵应该能沿铁路线移动到目标位置");
}

#[test]
fn test_cannot_move_opponent_pieces() {
    let game = JunqiEngine::new_game();
    
    // 当前是红方回合，尝试移动黑方棋子
    let black_piece_pos = Position::new(1, 0); // 黑方司令
    let legal_moves = game.get_legal_moves(black_piece_pos);
    
    assert_eq!(legal_moves.len(), 0, "不能移动对手的棋子");
}

#[test]
fn test_get_piece_rank() {
    // 测试所有棋子的等级
    assert_eq!(JunqiEngine::get_piece_rank(&JunqiPiece::Commander), 9);
    assert_eq!(JunqiEngine::get_piece_rank(&JunqiPiece::General), 8);
    assert_eq!(JunqiEngine::get_piece_rank(&JunqiPiece::Major), 7);
    assert_eq!(JunqiEngine::get_piece_rank(&JunqiPiece::Colonel), 6);
    assert_eq!(JunqiEngine::get_piece_rank(&JunqiPiece::Captain), 5);
    assert_eq!(JunqiEngine::get_piece_rank(&JunqiPiece::Battalion), 4);
    assert_eq!(JunqiEngine::get_piece_rank(&JunqiPiece::Company), 3);
    assert_eq!(JunqiEngine::get_piece_rank(&JunqiPiece::Platoon), 2);
    assert_eq!(JunqiEngine::get_piece_rank(&JunqiPiece::Engineer), 1);
    assert_eq!(JunqiEngine::get_piece_rank(&JunqiPiece::Flag), 0);
    assert_eq!(JunqiEngine::get_piece_rank(&JunqiPiece::Landmine), 0);
    assert_eq!(JunqiEngine::get_piece_rank(&JunqiPiece::Bomb), 0);
}

#[test]
fn test_battle_higher_rank_wins() {
    let game = JunqiEngine::new_game();
    
    // 司令（等级9）攻击军长（等级8）
    let attacker = Piece::new(PieceType::Junqi(JunqiPiece::Commander), Player::Red);
    let defender = Piece::new(PieceType::Junqi(JunqiPiece::General), Player::Black);
    
    let result = game.resolve_battle(&attacker, &defender);
    assert_eq!(result, BattleResult::AttackerWins, "等级高的应该获胜");
}

#[test]
fn test_battle_lower_rank_loses() {
    let game = JunqiEngine::new_game();
    
    // 排长（等级2）攻击连长（等级3）
    let attacker = Piece::new(PieceType::Junqi(JunqiPiece::Platoon), Player::Red);
    let defender = Piece::new(PieceType::Junqi(JunqiPiece::Company), Player::Black);
    
    let result = game.resolve_battle(&attacker, &defender);
    assert_eq!(result, BattleResult::DefenderWins, "等级低的应该失败");
}

#[test]
fn test_battle_same_rank_both_die() {
    let game = JunqiEngine::new_game();
    
    // 连长（等级3）攻击连长（等级3）
    let attacker = Piece::new(PieceType::Junqi(JunqiPiece::Company), Player::Red);
    let defender = Piece::new(PieceType::Junqi(JunqiPiece::Company), Player::Black);
    
    let result = game.resolve_battle(&attacker, &defender);
    assert_eq!(result, BattleResult::BothDie, "等级相同应该同归于尽");
}

#[test]
fn test_bomb_kills_all() {
    let game = JunqiEngine::new_game();
    
    // 炸弹攻击司令
    let attacker = Piece::new(PieceType::Junqi(JunqiPiece::Bomb), Player::Red);
    let defender = Piece::new(PieceType::Junqi(JunqiPiece::Commander), Player::Black);
    
    let result = game.resolve_battle(&attacker, &defender);
    assert_eq!(result, BattleResult::BothDie, "炸弹应该与任何棋子同归于尽");
    
    // 司令攻击炸弹
    let attacker = Piece::new(PieceType::Junqi(JunqiPiece::Commander), Player::Red);
    let defender = Piece::new(PieceType::Junqi(JunqiPiece::Bomb), Player::Black);
    
    let result = game.resolve_battle(&attacker, &defender);
    assert_eq!(result, BattleResult::BothDie, "任何棋子碰到炸弹都同归于尽");
}

#[test]
fn test_engineer_can_remove_landmine() {
    let game = JunqiEngine::new_game();
    
    // 工兵攻击地雷
    let attacker = Piece::new(PieceType::Junqi(JunqiPiece::Engineer), Player::Red);
    let defender = Piece::new(PieceType::Junqi(JunqiPiece::Landmine), Player::Black);
    
    let result = game.resolve_battle(&attacker, &defender);
    assert_eq!(result, BattleResult::AttackerWins, "工兵应该能排除地雷");
}

#[test]
fn test_landmine_kills_non_engineer() {
    let game = JunqiEngine::new_game();
    
    // 司令攻击地雷
    let attacker = Piece::new(PieceType::Junqi(JunqiPiece::Commander), Player::Red);
    let defender = Piece::new(PieceType::Junqi(JunqiPiece::Landmine), Player::Black);
    
    let result = game.resolve_battle(&attacker, &defender);
    assert_eq!(result, BattleResult::DefenderWins, "非工兵碰到地雷应该被炸死");
    
    // 排长攻击地雷
    let attacker = Piece::new(PieceType::Junqi(JunqiPiece::Platoon), Player::Red);
    let defender = Piece::new(PieceType::Junqi(JunqiPiece::Landmine), Player::Black);
    
    let result = game.resolve_battle(&attacker, &defender);
    assert_eq!(result, BattleResult::DefenderWins, "非工兵碰到地雷应该被炸死");
}

#[test]
fn test_capture_flag_wins() {
    let game = JunqiEngine::new_game();
    
    // 任何棋子攻击军旗都获胜
    let pieces = vec![
        JunqiPiece::Commander,
        JunqiPiece::General,
        JunqiPiece::Engineer,
        JunqiPiece::Platoon,
    ];
    
    for piece_type in pieces {
        let attacker = Piece::new(PieceType::Junqi(piece_type), Player::Red);
        let defender = Piece::new(PieceType::Junqi(JunqiPiece::Flag), Player::Black);
        
        let result = game.resolve_battle(&attacker, &defender);
        assert_eq!(result, BattleResult::AttackerWins, "攻击军旗应该获胜");
    }
}

#[test]
fn test_make_move_empty_square() {
    let mut game = JunqiEngine::new_game();
    
    // 清空一些位置以便测试移动
    game.board_state.pieces.remove(&Position::new(6, 0));
    
    // 移动红方连长从 (7, 0) 到 (6, 0)
    let from = Position::new(7, 0);
    let to = Position::new(6, 0);
    
    let result = game.make_move(from, to);
    assert!(result.is_ok(), "移动到空位应该成功");
    
    // 验证棋子已移动
    assert!(game.board_state.pieces.get(&from).is_none(), "起始位置应该为空");
    assert!(game.board_state.pieces.get(&to).is_some(), "目标位置应该有棋子");
    
    // 验证玩家已切换
    assert_eq!(game.board_state.current_player, Player::Black, "应该切换到黑方");
}

#[test]
fn junqi_engine_test_make_move_capture_piece() {
    let mut game = JunqiEngine::new_game();
    
    // 设置一个简单的战斗场景
    // 将红方司令移到 (6, 0)，黑方排长在 (5, 0)
    game.board_state.pieces.remove(&Position::new(10, 4)); // 移除原位置的红方司令
    game.board_state.pieces.insert(
        Position::new(6, 0),
        Piece::new(PieceType::Junqi(JunqiPiece::Commander), Player::Red)
    );
    game.board_state.pieces.remove(&Position::new(2, 2)); // 移除原位置的黑方排长
    game.board_state.pieces.insert(
        Position::new(5, 0),
        Piece::new(PieceType::Junqi(JunqiPiece::Platoon), Player::Black)
    );
    
    // 红方司令攻击黑方排长
    let from = Position::new(6, 0);
    let to = Position::new(5, 0);
    
    let result = game.make_move(from, to);
    assert!(result.is_ok(), "战斗移动应该成功");
    
    // 验证司令获胜并占据目标位置
    assert!(game.board_state.pieces.get(&from).is_none(), "起始位置应该为空");
    let piece_at_to = game.board_state.pieces.get(&to);
    assert!(piece_at_to.is_some(), "目标位置应该有棋子");
    assert_eq!(piece_at_to.unwrap().piece_type, PieceType::Junqi(JunqiPiece::Commander), "应该是司令");
    assert_eq!(piece_at_to.unwrap().player, Player::Red, "应该是红方");
}

#[test]
fn test_make_move_both_die() {
    let mut game = JunqiEngine::new_game();
    
    // 设置同等级战斗场景
    // 将红方连长移到 (6, 0)，黑方连长在 (5, 0)
    game.board_state.pieces.remove(&Position::new(7, 0)); // 移除原位置的红方连长
    game.board_state.pieces.insert(
        Position::new(6, 0),
        Piece::new(PieceType::Junqi(JunqiPiece::Company), Player::Red)
    );
    game.board_state.pieces.remove(&Position::new(2, 1)); // 移除原位置的黑方连长
    game.board_state.pieces.insert(
        Position::new(5, 0),
        Piece::new(PieceType::Junqi(JunqiPiece::Company), Player::Black)
    );
    
    // 红方连长攻击黑方连长
    let from = Position::new(6, 0);
    let to = Position::new(5, 0);
    
    let result = game.make_move(from, to);
    assert!(result.is_ok(), "战斗移动应该成功");
    
    // 验证双方都被移除
    assert!(game.board_state.pieces.get(&from).is_none(), "起始位置应该为空");
    assert!(game.board_state.pieces.get(&to).is_none(), "目标位置应该为空（同归于尽）");
}

#[test]
fn test_is_flag_captured_initial_state() {
    let game = JunqiEngine::new_game();
    
    // 初始状态下，双方军旗都应该在棋盘上
    assert!(!game.is_flag_captured(Player::Red), "红方军旗应该在棋盘上");
    assert!(!game.is_flag_captured(Player::Black), "黑方军旗应该在棋盘上");
}

#[test]
fn test_is_flag_captured_after_removal() {
    let mut game = JunqiEngine::new_game();
    
    // 移除红方军旗
    game.board_state.pieces.remove(&Position::new(11, 2));
    
    // 红方军旗应该被夺取
    assert!(game.is_flag_captured(Player::Red), "红方军旗应该被夺取");
    assert!(!game.is_flag_captured(Player::Black), "黑方军旗应该还在棋盘上");
}

#[test]
fn test_is_game_over_initial_state() {
    let game = JunqiEngine::new_game();
    
    // 初始状态下游戏未结束
    assert!(!game.is_game_over(), "初始状态下游戏应该未结束");
}

#[test]
fn test_is_game_over_after_flag_captured() {
    let mut game = JunqiEngine::new_game();
    
    // 移除红方军旗
    game.board_state.pieces.remove(&Position::new(11, 2));
    
    // 游戏应该结束
    assert!(game.is_game_over(), "军旗被夺取后游戏应该结束");
}

#[test]
fn test_get_winner_no_winner() {
    let game = JunqiEngine::new_game();
    
    // 初始状态下没有获胜方
    assert_eq!(game.get_winner(), None, "初始状态下应该没有获胜方");
}

#[test]
fn test_get_winner_red_flag_captured() {
    let mut game = JunqiEngine::new_game();
    
    // 移除红方军旗（黑方获胜）
    game.board_state.pieces.remove(&Position::new(11, 2));
    
    // 黑方应该获胜
    assert_eq!(game.get_winner(), Some(Player::Black), "红方军旗被夺取，黑方应该获胜");
}

#[test]
fn test_get_winner_black_flag_captured() {
    let mut game = JunqiEngine::new_game();
    
    // 移除黑方军旗（红方获胜）
    game.board_state.pieces.remove(&Position::new(0, 1));
    
    // 红方应该获胜
    assert_eq!(game.get_winner(), Some(Player::Red), "黑方军旗被夺取，红方应该获胜");
}

#[test]
fn test_game_ends_when_flag_captured_in_battle() {
    let mut game = JunqiEngine::new_game();
    
    // 设置场景：红方工兵攻击黑方军旗
    // 将红方工兵移到军旗旁边
    game.board_state.pieces.remove(&Position::new(9, 0)); // 移除原位置的工兵
    game.board_state.pieces.insert(
        Position::new(0, 0),
        Piece::new(PieceType::Junqi(JunqiPiece::Engineer), Player::Red)
    );
    
    // 工兵攻击军旗
    let from = Position::new(0, 0);
    let to = Position::new(0, 1); // 黑方军旗位置
    
    let result = game.make_move(from, to);
    assert!(result.is_ok(), "攻击军旗应该成功");
    
    // 游戏应该结束，红方获胜
    assert!(game.is_game_over(), "夺取军旗后游戏应该结束");
    assert_eq!(game.get_winner(), Some(Player::Red), "红方应该获胜");
    assert_eq!(game.game_status, GameStatus::Victory { winner: Player::Red }, "游戏状态应该是红方获胜");
}

#[test]
fn test_undo_move_simple_move() {
    let mut game = JunqiEngine::new_game();
    
    // 清空一些位置以便测试移动
    game.board_state.pieces.remove(&Position::new(6, 0));
    
    // 保存初始状态
    let initial_pieces_count = game.board_state.pieces.len();
    let initial_player = game.board_state.current_player;
    
    // 移动红方连长从 (7, 0) 到 (6, 0)
    let from = Position::new(7, 0);
    let to = Position::new(6, 0);
    let piece_at_from = game.board_state.pieces.get(&from).unwrap().clone();
    
    let result = game.make_move(from, to);
    assert!(result.is_ok(), "移动应该成功");
    
    // 悔棋
    let undo_result = game.undo_move();
    assert!(undo_result.is_ok(), "悔棋应该成功");
    
    // 验证状态恢复
    assert_eq!(game.board_state.pieces.len(), initial_pieces_count, "棋子数量应该恢复");
    assert_eq!(game.board_state.current_player, initial_player, "当前玩家应该恢复");
    assert!(game.board_state.pieces.get(&from).is_some(), "起始位置应该有棋子");
    assert_eq!(game.board_state.pieces.get(&from).unwrap(), &piece_at_from, "棋子应该恢复到原位置");
    assert!(game.board_state.pieces.get(&to).is_none(), "目标位置应该为空");
}

#[test]
fn junqi_engine_test_undo_move_with_capture() {
    let mut game = JunqiEngine::new_game();
    
    // 设置一个简单的战斗场景
    // 将红方司令移到 (6, 0)，黑方排长在 (5, 0)
    game.board_state.pieces.remove(&Position::new(10, 4)); // 移除原位置的红方司令
    game.board_state.pieces.insert(
        Position::new(6, 0),
        Piece::new(PieceType::Junqi(JunqiPiece::Commander), Player::Red)
    );
    game.board_state.pieces.remove(&Position::new(2, 2)); // 移除原位置的黑方排长
    let defender = Piece::new(PieceType::Junqi(JunqiPiece::Platoon), Player::Black);
    game.board_state.pieces.insert(Position::new(5, 0), defender.clone());
    
    // 保存初始状态
    let initial_pieces_count = game.board_state.pieces.len();
    
    // 红方司令攻击黑方排长
    let from = Position::new(6, 0);
    let to = Position::new(5, 0);
    
    let result = game.make_move(from, to);
    assert!(result.is_ok(), "战斗移动应该成功");
    
    // 悔棋
    let undo_result = game.undo_move();
    assert!(undo_result.is_ok(), "悔棋应该成功");
    
    // 验证状态恢复
    assert_eq!(game.board_state.pieces.len(), initial_pieces_count, "棋子数量应该恢复");
    assert_eq!(game.board_state.current_player, Player::Red, "当前玩家应该恢复为红方");
    
    // 验证司令回到原位置
    let piece_at_from = game.board_state.pieces.get(&from);
    assert!(piece_at_from.is_some(), "起始位置应该有棋子");
    assert_eq!(piece_at_from.unwrap().piece_type, PieceType::Junqi(JunqiPiece::Commander), "应该是司令");
    
    // 验证排长恢复到目标位置
    let piece_at_to = game.board_state.pieces.get(&to);
    assert!(piece_at_to.is_some(), "目标位置应该有棋子");
    assert_eq!(piece_at_to.unwrap().piece_type, PieceType::Junqi(JunqiPiece::Platoon), "应该是排长");
    assert_eq!(piece_at_to.unwrap().player, Player::Black, "应该是黑方");
}

#[test]
fn test_undo_move_both_die() {
    let mut game = JunqiEngine::new_game();
    
    // 设置同等级战斗场景
    // 将红方连长移到 (6, 0)，黑方连长在 (5, 0)
    game.board_state.pieces.remove(&Position::new(7, 0)); // 移除原位置的红方连长
    let attacker = Piece::new(PieceType::Junqi(JunqiPiece::Company), Player::Red);
    game.board_state.pieces.insert(Position::new(6, 0), attacker.clone());
    
    game.board_state.pieces.remove(&Position::new(2, 1)); // 移除原位置的黑方连长
    let defender = Piece::new(PieceType::Junqi(JunqiPiece::Company), Player::Black);
    game.board_state.pieces.insert(Position::new(5, 0), defender.clone());
    
    // 保存初始状态
    let initial_pieces_count = game.board_state.pieces.len();
    
    // 红方连长攻击黑方连长
    let from = Position::new(6, 0);
    let to = Position::new(5, 0);
    
    let result = game.make_move(from, to);
    assert!(result.is_ok(), "战斗移动应该成功");
    
    // 悔棋
    let undo_result = game.undo_move();
    assert!(undo_result.is_ok(), "悔棋应该成功");
    
    // 验证状态恢复
    assert_eq!(game.board_state.pieces.len(), initial_pieces_count, "棋子数量应该恢复");
    assert_eq!(game.board_state.current_player, Player::Red, "当前玩家应该恢复为红方");
    
    // 验证双方棋子都恢复
    let piece_at_from = game.board_state.pieces.get(&from);
    assert!(piece_at_from.is_some(), "起始位置应该有棋子");
    assert_eq!(piece_at_from.unwrap().piece_type, PieceType::Junqi(JunqiPiece::Company), "应该是连长");
    assert_eq!(piece_at_from.unwrap().player, Player::Red, "应该是红方");
    
    let piece_at_to = game.board_state.pieces.get(&to);
    assert!(piece_at_to.is_some(), "目标位置应该有棋子");
    assert_eq!(piece_at_to.unwrap().piece_type, PieceType::Junqi(JunqiPiece::Company), "应该是连长");
    assert_eq!(piece_at_to.unwrap().player, Player::Black, "应该是黑方");
}

#[test]
fn test_undo_move_empty_history() {
    let mut game = JunqiEngine::new_game();
    
    // 尝试在没有移动历史的情况下悔棋
    let result = game.undo_move();
    assert!(result.is_err(), "没有移动历史时悔棋应该失败");
    
    if let Err(GameError::InvalidState { message }) = result {
        assert!(message.contains("没有可以悔棋的移动"), "错误消息应该说明没有可悔棋的移动");
    } else {
        panic!("应该返回 InvalidState 错误");
    }
}

#[test]
fn junqi_engine_test_undo_move_multiple_times() {
    let mut game = JunqiEngine::new_game();
    
    // 清空一些位置
    game.board_state.pieces.remove(&Position::new(6, 0));
    game.board_state.pieces.remove(&Position::new(5, 0));
    
    // 执行第一次移动
    let move1_from = Position::new(7, 0);
    let move1_to = Position::new(6, 0);
    game.make_move(move1_from, move1_to).unwrap();
    
    // 执行第二次移动（黑方）
    let move2_from = Position::new(4, 0);
    let move2_to = Position::new(5, 0);
    game.make_move(move2_from, move2_to).unwrap();
    
    // 悔棋第二次移动
    game.undo_move().unwrap();
    assert_eq!(game.board_state.current_player, Player::Black, "应该是黑方回合");
    assert!(game.board_state.pieces.get(&move2_from).is_some(), "黑方棋子应该回到原位置");
    assert!(game.board_state.pieces.get(&move2_to).is_none(), "目标位置应该为空");
    
    // 悔棋第一次移动
    game.undo_move().unwrap();
    assert_eq!(game.board_state.current_player, Player::Red, "应该是红方回合");
    assert!(game.board_state.pieces.get(&move1_from).is_some(), "红方棋子应该回到原位置");
    assert!(game.board_state.pieces.get(&move1_to).is_none(), "目标位置应该为空");
}

#[test]
fn test_move_history_recorded() {
    let mut game = JunqiEngine::new_game();
    
    // 清空一些位置
    game.board_state.pieces.remove(&Position::new(6, 0));
    
    // 执行移动
    let from = Position::new(7, 0);
    let to = Position::new(6, 0);
    let piece = game.board_state.pieces.get(&from).unwrap().clone();
    
    game.make_move(from, to).unwrap();
    
    // 验证移动历史
    assert_eq!(game.board_state.move_history.len(), 1, "应该有一条移动历史");
    
    let last_move = &game.board_state.move_history[0];
    assert_eq!(last_move.from, from, "移动历史应该记录起始位置");
    assert_eq!(last_move.to, to, "移动历史应该记录目标位置");
    assert_eq!(last_move.piece, piece, "移动历史应该记录移动的棋子");
    assert!(last_move.captured_piece.is_none(), "移动历史应该记录没有被吃掉的棋子");
}
