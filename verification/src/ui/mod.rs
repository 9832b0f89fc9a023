//! Interface helpers: text width, command input, completion, scrolling
//! and labels shown by a terminal front end.

pub mod command;
pub mod input;
pub mod labels;
pub mod markdown;
pub mod scroll;
pub mod suggest;
pub mod types;
pub mod app;
pub mod view;
pub mod width;
