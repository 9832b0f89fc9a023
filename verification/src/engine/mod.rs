//! Game engine: command parsing, facts from the save, menu candidates and
//! save reconciliation.

pub mod ask;
pub mod chapter_flow;
pub mod commands;
pub mod condition;
pub mod hints;
pub mod judge;
pub mod logic;
pub mod map;
pub mod navigation;
pub mod note_view;
pub mod outcome;
pub mod state;
pub mod system;
pub mod trigger;
