use vstd::prelude::*;
use crate::models::board_state::BoardState;
use crate::game_engine::game_error::{GameError, error_code_of, user_message_of};
use crate::text::text;

verus! {

/// One entry of the error log: when, which kind of error, the message shown
/// to the user, and the board at the time when there was one.
pub struct LogEntry {
    pub timestamp: String,
    pub error_code: String,
    pub message: String,
    pub game_state: Option<BoardState>,
}

/// The line that opens the log text of an entry.
pub open spec fn log_line_text(timestamp: Seq<char>, code: Seq<char>, message: Seq<char>) -> Seq<char> {
    "["@ + timestamp + "] "@ + code + " - "@ + message + "\n"@
}

/// The line that follows it with the board, written as JSON.
pub open spec fn state_line_text(state_json: Seq<char>) -> Seq<char> {
    "  游戏状态: "@ + state_json + "\n"@
}

impl LogEntry {
    /// The entry for `error`, stamped `timestamp`, with a copy of the board if one is given.
    pub fn new(error: &GameError, timestamp: String, game_state: Option<&BoardState>) -> (e: Self)
        ensures
            e.timestamp@ == timestamp@,
            e.error_code@ == error_code_of(*error),
            e.message@ == user_message_of(*error),
            match game_state {
                None => e.game_state is None,
                Some(b) => e.game_state matches Some(c) && c.pieces@ == b.pieces@ && c.pieces.seq()
                    == b.pieces.seq() && c.current_player == b.current_player && c.move_history@
                    == b.move_history@,
            },
    {
        let state = match game_state {
            Some(b) => Some(b.duplicate()),
            None => None,
        };
        LogEntry {
            timestamp,
            error_code: text(error.error_code()),
            message: error.user_message(),
            game_state: state,
        }
    }

    /// The first line the entry writes: `[timestamp] code - message`.
    pub fn log_line(&self) -> (s: String)
        ensures
            s@ == log_line_text(self.timestamp@, self.error_code@, self.message@),
    {
        let mut s = text("[");
        s.append(self.timestamp.as_str());
        s.append("] ");
        s.append(self.error_code.as_str());
        s.append(" - ");
        s.append(self.message.as_str());
        s.append("\n");
        s
    }
}

/// The line that records a board, given as JSON text.
pub fn state_line(state_json: &str) -> (s: String)
    ensures
        s@ == state_line_text(state_json@),
{
    let mut s = text("  游戏状态: ");
    s.append(state_json);
    s.append("\n");
    s
}

/// Where the error log is written.
pub struct ErrorLogger {
    log_file_path: String,
}

impl ErrorLogger {
    /// The path of the log file.
    pub closed spec fn path(&self) -> Seq<char> {
        self.log_file_path@
    }

    /// A logger that writes to the file at `log_file_path`.
    pub fn with_path(log_file_path: String) -> (l: Self)
        ensures
            l.path() == log_file_path@,
    {
        ErrorLogger { log_file_path }
    }

    /// The path of the log file.
    pub fn get_log_file_path(&self) -> (p: &String)
        ensures
            p@ == self.path(),
    {
        &self.log_file_path
    }
}

} // verus!
