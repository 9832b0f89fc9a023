//! Load decisions and save stamping.
//!
//! The save lives in `save.json` with a backup in `save.json.bak`. Loading
//! prefers the main file, falls back to the backup when the main file is
//! missing or unreadable, and reports when both are broken so that a new game
//! can be started (the broken main file is then set aside). The file reads
//! and writes are input/output and live with the program; it hands the
//! outcome of each read to [`resolve_load`].

use vstd::prelude::*;


use crate::save::migration::migrate;
use crate::save::schema::{Motion, Save, Settings, CURRENT_VERSION};
use crate::text::owned;

verus! {

/// What reading one save file gave.
#[derive(Debug)]
pub enum SaveFile {
    /// The file does not exist.
    Missing,
    /// The file exists but could not be read or decoded.
    Unreadable,
    /// The decoded save.
    Parsed(Save),
}

/// File-level report of a load, for the notice bar.
#[derive(Debug, Clone, Copy, PartialEq, Eq, Structural)]
pub struct LoadReport {
    /// The save came from the backup file.
    pub recovered_from_bak: bool,
}

impl Default for LoadReport {
    fn default() -> (r: LoadReport)
        ensures
            !r.recovered_from_bak,
    {
        LoadReport { recovered_from_bak: false }
    }
}

impl LoadReport {
    /// Notices to show the player.
    pub fn warning_messages(&self) -> (r: Vec<String>)
        ensures
            self.recovered_from_bak ==> r@.len() == 1 && r@[0]@ == "存档文件损坏，已从备份恢复"@,
            !self.recovered_from_bak ==> r@.len() == 0,
    {
        let mut out: Vec<String> = Vec::new();
        if self.recovered_from_bak {
            out.push(owned("存档文件损坏，已从备份恢复"));
        }
        out
    }
}

/// Result of a load.
#[derive(Debug)]
pub enum LoadResult {
    /// There is no save at all.
    NoSave,
    /// A save was loaded, possibly from the backup.
    Save(Save, LoadReport),
    /// Both files are broken: the main file is to be set aside and a new
    /// game started.
    BothCorrupt,
}

/// `loaded` is `read` brought to the current version.
pub open spec fn is_migrated(read: Save, loaded: Save) -> bool {
    loaded == (Save { version: CURRENT_VERSION, ..read })
}

/// Decide what a load gives from what reading the main file and the backup
/// gave: the main file when it decodes; else the backup when it decodes;
/// `BothCorrupt` when the main file exists but neither decodes; `NoSave` when
/// the main file is missing and the backup does not decode or is missing.
/// A loaded save is migrated.
pub fn resolve_load(main: SaveFile, bak: SaveFile) -> (r: LoadResult)
    ensures
        match (main, bak) {
            (SaveFile::Parsed(m), _) => r matches LoadResult::Save(s, rep) && is_migrated(m, s)
                && !rep.recovered_from_bak,
            (_, SaveFile::Parsed(b)) => r matches LoadResult::Save(s, rep) && is_migrated(b, s)
                && rep.recovered_from_bak,
            (SaveFile::Unreadable, _) => r is BothCorrupt,
            (SaveFile::Missing, _) => r is NoSave,
        },
{
    match main {
        SaveFile::Parsed(mut save) => {
            let _ = migrate(&mut save);
            LoadResult::Save(save, LoadReport { recovered_from_bak: false })
        },
        SaveFile::Unreadable => match bak {
            SaveFile::Parsed(mut save) => {
                let _ = migrate(&mut save);
                LoadResult::Save(save, LoadReport { recovered_from_bak: true })
            },
            _ => LoadResult::BothCorrupt,
        },
        SaveFile::Missing => match bak {
            SaveFile::Parsed(mut save) => {
                let _ = migrate(&mut save);
                LoadResult::Save(save, LoadReport { recovered_from_bak: true })
            },
            _ => LoadResult::NoSave,
        },
    }
}

/// What reading one settings file gave.
#[derive(Debug)]
pub enum SettingsFile {
    /// The file is missing or could not be read.
    Unread,
    /// The file was read but does not decode.
    Undecodable,
    /// The decoded settings.
    Parsed(Settings),
}

/// Decide the settings from what reading `settings.json` and its backup gave:
/// the main file when it decodes; the backup when the main file was read but
/// does not decode and the backup decodes; else the defaults.
pub fn resolve_settings(main: SettingsFile, bak: SettingsFile) -> (r: Settings)
    ensures
        match (main, bak) {
            (SettingsFile::Parsed(m), _) => r == m,
            (SettingsFile::Undecodable, SettingsFile::Parsed(b)) => r == b,
            _ => r == (Settings { version: 1, motion: Motion::Full }),
        },
{
    match main {
        SettingsFile::Parsed(m) => m,
        SettingsFile::Undecodable => match bak {
            SettingsFile::Parsed(b) => b,
            _ => Settings::default(),
        },
        SettingsFile::Unread => Settings::default(),
    }
}

/// Refresh a save's version and timestamp before it is written.
pub fn stamp(save: &mut Save, now: String)
    ensures
        *final(save) == (Save { version: CURRENT_VERSION, timestamp: now, ..*old(save) }),
{
    save.version = CURRENT_VERSION;
    save.timestamp = now;
}

} // verus!
