//! System commands: quitting and the notes.

use vstd::prelude::*;

use crate::engine::outcome::Outcome;
use crate::engine::chapter_flow::extends;
use crate::engine::state::{Session, info_line, quit_answer, wrote};
use crate::save::backend::SaveBackend;


verus! {

/// What `note` does: the notes of the current path; nothing changes.
pub open spec fn note_answer<B: SaveBackend>(r: Outcome, before: Session<B>, after: Session<B>) -> bool {
    &&& r matches Outcome::Notes(v) && before.notes_match(v)
    &&& after == before
}

impl<B: SaveBackend> Session<B> {
    /// Quit: the save is written first. A forced quit (a termination signal)
    /// leaves whatever the write gave; a normal quit stays in the game when
    /// the write failed, so the player can try again.
    pub(crate) fn do_quit(&mut self, force: bool) -> (r: Outcome)
        ensures
            force ==> r is QuitRequested,
            !force ==> quit_answer(r, *old(self), *final(self)),
            extends(old(self).written@, final(self).written@),
            old(self).store.modeled() ==> wrote(old(self).save, old(self).written@, final(self).written@),
            final(self).inv() == old(self).inv(),
            final(self).save == old(self).save,
            final(self).engine == old(self).engine,
            final(self).state == old(self).state,
            final(self).pending == old(self).pending,
            final(self).hints == old(self).hints,
    {
        let saved = self.try_persist();
        if force || saved {
            Outcome::QuitRequested
        } else {
            info_line("保存失败，未退出。请检查磁盘空间后重试。")
        }
    }

    /// Open the notes.
    pub(crate) fn do_note(&mut self) -> (r: Outcome)
        ensures
            note_answer(r, *old(self), *final(self)),
    {
        Outcome::Notes(self.build_note_view())
    }
}

} // verus!
