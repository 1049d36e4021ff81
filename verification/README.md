# chess_game

Rules engines for Xiangqi (Chinese chess) and Junqi (the army chess game),
a minimax opponent, and the game sessions behind a desktop front end.

- `src/` is the library, verified with Verus:
  - `models/`: positions, pieces, the board (`PieceMap`, a map from
    positions to pieces), moves and statuses; the "row,col" text under which
    a board position is stored, and its reading back.
  - `game_engine/`: the rules of both games as spec functions
    (`xiangqi_rules.rs`, `junqi_rules.rs`), the move generators proved against
    them (`xiangqi_moves.rs`, `junqi_moves.rs`), and the two engines.
  - `ai/`: the opponent (minimax with alpha-beta pruning) and its difficulty levels.
  - `game_session.rs`: the games in progress, by game id.
  - `commands.rs`: the requests of the front end, on a session manager.
  - `error_logger.rs`: the text of error log entries.
  - `laws.rs`: properties of the rules stated and proved as lemmas.
- `app/` is the desktop shell: the Tauri commands over one shared session
  manager, the log file, and the JSON form of the data types.
- `tests/` holds the tests.
