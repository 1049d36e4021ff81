pub mod game_error;
pub mod game_engine_trait;
pub mod xiangqi_rules;
pub mod xiangqi_moves;
pub mod xiangqi_engine;
pub mod junqi_rules;
pub mod junqi_moves;
pub mod junqi_engine;

pub use game_engine_trait::GameEngine;
pub use game_error::{GameError, GameResult};
pub use xiangqi_engine::XiangqiEngine;
pub use junqi_engine::{JunqiEngine, JUNQI_ROWS, JUNQI_COLS, RED_CAMP_POSITIONS, BLACK_CAMP_POSITIONS, railway_positions};
pub use junqi_rules::BattleResult;
