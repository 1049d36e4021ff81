use vstd::prelude::*;
use crate::models::position::Position;
use crate::text::{decimal, push_decimal, text};

verus! {

/// What can go wrong in a game.
#[derive(Debug, Clone)]
pub enum GameError {
    /// A move that the rules refuse.
    IllegalMove { from: Position, to: Position, reason: String },
    /// Input that makes no sense.
    InvalidInput { message: String },
    /// The game is in a state where the request cannot be served.
    InvalidState { message: String },
    /// The opponent engine failed.
    AIError { message: String },
    /// The front end and the engine could not talk.
    IPCError { message: String },
}

/// The result of a game operation.
pub type GameResult<T> = Result<T, GameError>;

/// The code that identifies the kind of an error.
pub open spec fn error_code_of(e: GameError) -> Seq<char> {
    match e {
        GameError::IllegalMove { .. } => "ILLEGAL_MOVE"@,
        GameError::InvalidInput { .. } => "INVALID_INPUT"@,
        GameError::InvalidState { .. } => "INVALID_STATE"@,
        GameError::AIError { .. } => "AI_ERROR"@,
        GameError::IPCError { .. } => "IPC_ERROR"@,
    }
}

/// The message shown for an illegal move from `from` to `to`, refused for `reason`.
pub open spec fn illegal_move_text(from: Position, to: Position, reason: Seq<char>) -> Seq<char> {
    "非法移动：从 ("@ + decimal(from.row as nat) + ", "@ + decimal(from.col as nat) + ") 到 ("@
        + decimal(to.row as nat) + ", "@ + decimal(to.col as nat) + ") - "@ + reason
}

/// The message shown to the user for an error.
pub open spec fn user_message_of(e: GameError) -> Seq<char> {
    match e {
        GameError::IllegalMove { from, to, reason } => illegal_move_text(from, to, reason@),
        GameError::InvalidInput { message } => "无效输入："@ + message@,
        GameError::InvalidState { message } => "游戏状态错误："@ + message@ + "。请重新开始游戏。"@,
        GameError::AIError { message } => "AI 计算错误："@ + message@,
        GameError::IPCError { message } => "通信错误："@ + message@,
    }
}

impl GameError {
    /// The code of this error.
    pub fn error_code(&self) -> (c: &'static str)
        ensures
            c@ == error_code_of(*self),
    {
        match self {
            GameError::IllegalMove { .. } => "ILLEGAL_MOVE",
            GameError::InvalidInput { .. } => "INVALID_INPUT",
            GameError::InvalidState { .. } => "INVALID_STATE",
            GameError::AIError { .. } => "AI_ERROR",
            GameError::IPCError { .. } => "IPC_ERROR",
        }
    }

    /// The message shown to the user for this error.
    pub fn user_message(&self) -> (s: String)
        ensures
            s@ == user_message_of(*self),
    {
        match self {
            GameError::IllegalMove { from, to, reason } => {
                let mut s = text("非法移动：从 (");
                push_decimal(&mut s, from.row);
                s.append(", ");
                push_decimal(&mut s, from.col);
                s.append(") 到 (");
                push_decimal(&mut s, to.row);
                s.append(", ");
                push_decimal(&mut s, to.col);
                s.append(") - ");
                s.append(reason.as_str());
                s
            },
            GameError::InvalidInput { message } => {
                let mut s = text("无效输入：");
                s.append(message.as_str());
                s
            },
            GameError::InvalidState { message } => {
                let mut s = text("游戏状态错误：");
                s.append(message.as_str());
                s.append("。请重新开始游戏。");
                s
            },
            GameError::AIError { message } => {
                let mut s = text("AI 计算错误：");
                s.append(message.as_str());
                s
            },
            GameError::IPCError { message } => {
                let mut s = text("通信错误：");
                s.append(message.as_str());
                s
            },
        }
    }
}

} // verus!
