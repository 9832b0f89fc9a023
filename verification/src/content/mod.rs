//! Content engine: loading, querying and validating the game's data.

pub mod checker;
pub mod condition;
pub mod dialogue;
pub mod engine;
pub mod loader;
pub mod models;
