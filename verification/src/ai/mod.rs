pub mod difficulty;
pub mod ai_engine;

pub use ai_engine::AIEngine;
pub use difficulty::Difficulty;
