//! A save backend kept in memory, stamped by a [`FakeClock`]: sessions run
//! without touching the disk (tests, demonstrations).

use vstd::prelude::*;

use crate::error::AppError;
use crate::save::backend::SaveBackend;
use crate::save::clock::{Clock, FakeClock};
use crate::save::schema::{copy_save, same_save, Save};
use crate::save::store::SaveFile;
use crate::strmap::StrMap;
use crate::text::{owned, strs};

verus! {

/// Save file, backup and snapshots held in memory.
#[derive(Debug)]
pub struct MemoryStore {
    main: Option<Save>,
    backup: Option<Save>,
    snapshots: StrMap<String>,
    clock: FakeClock,
}

impl MemoryStore {
    /// An empty slot: no save, no snapshot.
    pub fn new() -> (s: MemoryStore)
        ensures
            !s.spec_has_main(),
            !s.spec_has_backup(),
            s.spec_snapshots() == Map::<Seq<char>, String>::empty(),
    {
        MemoryStore { main: None, backup: None, snapshots: StrMap::new(), clock: FakeClock::new() }
    }

    /// The stored snapshot paths and texts.
    pub closed spec fn spec_snapshots(&self) -> Map<Seq<char>, String> {
        self.snapshots@
    }

    /// The save in the main file.
    pub closed spec fn spec_main(&self) -> Option<Save> {
        self.main
    }

    /// The save in the backup file.
    pub closed spec fn spec_backup(&self) -> Option<Save> {
        self.backup
    }

    /// The main save file exists.
    pub closed spec fn spec_has_main(&self) -> bool {
        self.main is Some
    }

    /// The backup save file exists.
    pub closed spec fn spec_has_backup(&self) -> bool {
        self.backup is Some
    }
}

fn read_slot(slot: &Option<Save>) -> (r: SaveFile)
    ensures
        slot is None <==> r is Missing,
        !(r is Unreadable),
        r is Parsed ==> same_save(r->Parsed_0, slot->0),
{
    match slot {
        Some(s) => SaveFile::Parsed(copy_save(s)),
        None => SaveFile::Missing,
    }
}

impl SaveBackend for MemoryStore {
    open spec fn modeled(&self) -> bool {
        true
    }

    open spec fn main_save(&self) -> Option<Save> {
        self.spec_main()
    }

    open spec fn backup_save(&self) -> Option<Save> {
        self.spec_backup()
    }

    fn has_save(&self) -> (r: bool)
        ensures
            r == (self.spec_has_main() || self.spec_has_backup()),
    {
        self.main.is_some() || self.backup.is_some()
    }

    fn read_main(&self) -> (r: SaveFile)
        ensures
            !self.spec_has_main() <==> r is Missing,
    {
        read_slot(&self.main)
    }

    fn read_backup(&self) -> (r: SaveFile)
        ensures
            !self.spec_has_backup() <==> r is Missing,
    {
        read_slot(&self.backup)
    }

    fn set_aside_main(&mut self, stamp: &str)
        ensures
            !final(self).spec_has_main(),
            final(self).spec_has_backup() == old(self).spec_has_backup(),
    {
        self.main = None;
    }

    fn write_save(&mut self, save: &Save) -> (r: Result<(), AppError>)
        ensures
            r is Ok,
            final(self).spec_has_main(),
            final(self).spec_has_backup() == old(self).spec_has_main(),
            final(self).spec_snapshots() == old(self).spec_snapshots(),
    {
        let mut prev: Option<Save> = Some(copy_save(save));
        std::mem::swap(&mut prev, &mut self.main);
        self.backup = prev;
        Ok(())
    }

    fn clear(&mut self) -> (r: Result<(), AppError>)
        ensures
            r is Ok,
            final(self).spec_snapshots() == Map::<Seq<char>, String>::empty(),
            !final(self).spec_has_backup(),
            final(self).spec_has_main() == old(self).spec_has_main(),
    {
        self.snapshots = StrMap::new();
        self.backup = None;
        Ok(())
    }

    fn write_snapshot(&mut self, rel: &str, text: &str) -> (r: Result<String, AppError>)
        ensures
            r matches Ok(p) && p@ == rel@,
            final(self).spec_snapshots() == old(self).spec_snapshots().insert(rel@, final(self).spec_snapshots()[rel@]),
            final(self).spec_snapshots()[rel@]@ == text@,
    {
        self.snapshots.insert(owned(rel), owned(text));
        Ok(owned(rel))
    }

    fn read_snapshot(&self, rel: &str) -> (r: Result<String, AppError>)
        ensures
            r is Ok <==> self.spec_snapshots().contains_key(rel@),
            r matches Ok(t) ==> t@ == self.spec_snapshots()[rel@]@,
    {
        match self.snapshots.get(rel) {
            Some(t) => Ok(owned(t.as_str())),
            None => Err(AppError::Io(owned("snapshot not found"))),
        }
    }

    fn list_snapshots(&self) -> (r: Vec<String>)
        ensures
            forall|k: Seq<char>| #[trigger] self.spec_snapshots().contains_key(k) <==> strs(r@).contains(k),
    {
        self.snapshots.keys()
    }

    fn remove_snapshot(&mut self, rel: &str) -> (r: Result<(), AppError>)
        ensures
            r is Ok,
            final(self).spec_snapshots() == old(self).spec_snapshots().remove(rel@),
    {
        self.snapshots.remove(rel);
        Ok(())
    }

    fn now_iso(&self) -> String {
        self.clock.now_iso()
    }

    fn now_stamp(&self) -> String {
        self.clock.now_stamp()
    }
}

} // verus!
