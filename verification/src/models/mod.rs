pub mod position;
pub mod position_key;
pub mod piece;
pub mod piece_map;
pub mod board_state;
pub mod game_status;
pub mod move_result;

pub use position::Position;
pub use piece::{Piece, Player, PieceType, XiangqiPiece, JunqiPiece};
pub use piece_map::PieceMap;
pub use board_state::{BoardState, Move};
pub use game_status::GameStatus;
pub use move_result::MoveResult;
