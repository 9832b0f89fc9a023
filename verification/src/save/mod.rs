//! Save system: the save model, checkpoints and rollback, snapshot paths,
//! file names around atomic writes, load decisions and clocks.

pub mod atomic;
pub mod backend;
pub mod checkpoint;
pub mod clock;
pub mod memory;
pub mod migration;
pub mod schema;
pub mod snapshot;
pub mod store;
