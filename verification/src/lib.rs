//! Darkbluff core library: content model and validation, save model with
//! checkpoints and rollback, command parsing and the game's decision logic.

pub mod cli;
pub mod content;
pub mod engine;
pub mod error;
pub mod save;
pub mod strmap;
pub mod text;
pub mod ui;
pub mod world;
