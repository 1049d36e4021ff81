pub mod text;
pub mod clock;
pub mod models;
pub mod game_engine;
pub mod ai;
pub mod game_session;
pub mod commands;
pub mod error_logger;
pub mod laws;
