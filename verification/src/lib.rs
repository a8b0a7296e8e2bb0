pub mod agent;
pub mod daemon;
pub mod json;
pub mod loop_engine;
pub mod pruning;
pub mod stream;
pub mod text;
pub mod tools;
pub mod tui;
pub mod types;
