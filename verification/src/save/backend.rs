//! Where a session keeps its save: the save file with its backup, the
//! snapshot files and the clock that stamps them.
//!
//! The session decides what to write and when; a backend only performs the
//! storage. The session is proved for every answer a backend may give; a
//! backend that models its slot (see [`SaveBackend::modeled`]) also says
//! which save each file holds, gives back on reading what was written, and
//! never fails a write. [`crate::save::memory::MemoryStore`] keeps
//! everything in memory; a front end provides one on files.

use vstd::prelude::*;

use crate::error::AppError;
use crate::save::schema::{same_save, Save};
use crate::save::store::SaveFile;

verus! {

/// Storage of one save slot.
pub trait SaveBackend {
    /// Whether the backend describes its slot by [`SaveBackend::main_save`]
    /// and [`SaveBackend::backup_save`] and never fails a write. One that
    /// does not (files on disk) is held to nothing by the contracts below.
    open spec fn modeled(&self) -> bool {
        false
    }

    /// For a modeled backend: the save in the main file, if there is one.
    open spec fn main_save(&self) -> Option<Save> {
        None
    }

    /// For a modeled backend: the save in the backup file, if there is one.
    open spec fn backup_save(&self) -> Option<Save> {
        None
    }

    /// The save file or its backup exists.
    fn has_save(&self) -> (r: bool)
        ensures
            self.modeled() ==> r == (self.main_save() is Some || self.backup_save() is Some),
    ;

    /// Read and decode the main save file. A modeled backend gives back the
    /// save it holds there.
    fn read_main(&self) -> (r: SaveFile)
        ensures
            self.modeled() ==> (r is Missing <==> self.main_save() is None) && !(r is Unreadable),
            self.modeled() && r is Parsed ==> same_save(r->Parsed_0, self.main_save()->0),
    ;

    /// Read and decode the backup save file.
    fn read_backup(&self) -> (r: SaveFile)
        ensures
            self.modeled() ==> (r is Missing <==> self.backup_save() is None) && !(r is Unreadable),
            self.modeled() && r is Parsed ==> same_save(r->Parsed_0, self.backup_save()->0),
    ;

    /// Move the unreadable main save file aside, under a name ending in
    /// `stamp` (see [`crate::save::atomic::corrupt_path`]).
    fn set_aside_main(&mut self, stamp: &str)
        ensures
            old(self).modeled() ==> final(self).modeled() && final(self).main_save() is None
                && final(self).backup_save() == old(self).backup_save(),
    ;

    /// Write the save: the current file becomes the backup, then the new one
    /// is written atomically.
    fn write_save(&mut self, save: &Save) -> (r: Result<(), AppError>)
        ensures
            old(self).modeled() ==> r is Ok && final(self).modeled() && final(self).main_save() is Some
                && same_save(final(self).main_save()->0, *save) && final(self).backup_save()
                == old(self).main_save(),
    ;

    /// Delete every snapshot and the backup, for a new game.
    fn clear(&mut self) -> (r: Result<(), AppError>)
        ensures
            old(self).modeled() ==> r is Ok && final(self).modeled() && final(self).backup_save() is None
                && final(self).main_save() == old(self).main_save(),
    ;

    /// Write a snapshot under its path relative to the save root; gives back
    /// that relative path.
    fn write_snapshot(&mut self, rel: &str, text: &str) -> Result<String, AppError>;

    /// Text of a snapshot.
    fn read_snapshot(&self, rel: &str) -> Result<String, AppError>;

    /// Relative paths of every snapshot file.
    fn list_snapshots(&self) -> Vec<String>;

    /// Delete a snapshot file.
    fn remove_snapshot(&mut self, rel: &str) -> Result<(), AppError>;

    /// ISO 8601 time, such as `2026-06-16T12:00:00Z`.
    fn now_iso(&self) -> String;

    /// File-name-safe time, such as `20260616T120000Z`.
    fn now_stamp(&self) -> String;
}

/// A modeled backend holds a save: the main file or its backup exists.
pub open spec fn holds_save<B: SaveBackend>(b: B) -> bool {
    b.main_save() is Some || b.backup_save() is Some
}

} // verus!
