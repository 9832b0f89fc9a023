//! `map`: the checkpoint menu, and rolling back to a checkpoint.

use vstd::prelude::*;

use crate::content::engine::ContentEngine;
use crate::content::models::lookup_key;
use crate::engine::outcome::{MenuKind, MenuOption, Message, Outcome, SessionState};
use crate::engine::state::{menu_offered, menu_shows, PendingAction, Session, clone_options, info_line, is_info};
use crate::engine::navigation::description_or_missing;
use crate::save::backend::SaveBackend;
use crate::save::checkpoint::{checkpoint_index, map_checkpoint_rollback, rolled_back};
use crate::save::schema::{ckpt_ids, Checkpoint, CheckpointKind};
use crate::save::snapshot::orphan_snapshots;
use crate::text::{first_index, join3, owned};

verus! {

/// How a checkpoint is listed: chapter title, kind, scene name (ids when
/// the content no longer knows them).
pub open spec fn checkpoint_label(e: ContentEngine, c: Checkpoint) -> Seq<char> {
    let title = match lookup_key(e.chapters@, c.chapter@) {
        Some(ch) => ch.title@,
        None => c.chapter@,
    };
    let kind = match c.kind {
        CheckpointKind::ChapterStart => "章节开始"@,
        CheckpointKind::BeforeJudgment => "审判前"@,
    };
    let scene = match lookup_key(e.scenes@, c.scene@) {
        Some(s) => s.name@,
        None => c.scene@,
    };
    title + " · "@ + kind + " · "@ + scene
}

/// What `map` does: the menu of every checkpoint, in order, labelled with
/// chapter, kind and scene (a note when there is none); the save is left
/// alone.
pub open spec fn map_answer<B: SaveBackend>(r: Outcome, before: Session<B>, after: Session<B>) -> bool {
    let cs = before.save.checkpoints@;
    &&& after.engine == before.engine
    &&& after.save == before.save
    &&& cs.len() == 0 ==> is_info(r, "还没有可以回到的节点。"@)
    &&& cs.len() > 0 ==> (r matches Outcome::MenuRequested { kind, options, .. } && kind == MenuKind::Checkpoint
        && options@.len() == cs.len() && forall|i: int|
        0 <= i < options@.len() ==> (#[trigger] options@[i]).id@ == cs[i].id@ && options@[i].label@
            == checkpoint_label(before.engine, cs[i])) && menu_offered(r, after.pending, checkpoint_menu(before.engine, cs))
        && after.state == SessionState::ChoosingCheckpoint
}

/// The checkpoints as menu items `(id, label)`, in order.
pub open spec fn checkpoint_menu(e: ContentEngine, cs: Seq<Checkpoint>) -> Seq<(Seq<char>, Seq<char>)> {
    cs.map_values(|c: Checkpoint| (c.id@, checkpoint_label(e, c)))
}

/// What a confirmed rollback to checkpoint `id` does: a checkpoint that is
/// gone is refused; otherwise the save is rolled back to it (see
/// [`rolled_back`]), and the chapter's intro is shown again when it was a
/// chapter start with an intro, else the scene is described.
pub open spec fn rollback_answer<B: SaveBackend>(id: Seq<char>, r: Outcome, before: Session<B>, after: Session<B>) -> bool {
    let ids = ckpt_ids(before.save.checkpoints@);
    &&& after.engine == before.engine
    &&& !ids.contains(id) ==> is_info(r, "这个节点已经无法回到。"@) && after.save == before.save && after.state
        == SessionState::Exploring
    &&& ids.contains(id) ==> rolled_back(before.save, after.save, first_index(ids, id))
    &&& ids.contains(id) ==> {
        let k = before.save.checkpoints@[first_index(ids, id)].kind;
        let intro = after.engine.spec_intro(after.save.current_chapter@);
        if k == CheckpointKind::ChapterStart && intro is Some {
            r is ChapterIntro && r->ChapterIntro_text@ == intro->0 && after.state == SessionState::ShowingIntro
        } else {
            is_info(r, description_or_missing(after.engine, after.save)) && after.state == SessionState::Exploring
        }
    }
}

impl<B: SaveBackend> Session<B> {
    /// `map`: the menu of checkpoints, oldest first.
    pub(crate) fn do_map(&mut self) -> (r: Outcome)
        requires
            old(self).inv(),
        ensures
            final(self).inv(),
            map_answer(r, *old(self), *final(self)),
    {
        if self.save.checkpoints.len() == 0 {
            return info_line("还没有可以回到的节点。");
        }
        let mut options: Vec<MenuOption> = Vec::new();
        let mut i: usize = 0;
        while i < self.save.checkpoints.len()
            invariant
                i <= self.save.checkpoints@.len(),
                options@.len() == i,
                forall|k: int| 0 <= k < i ==> (#[trigger] options@[k]).id@ == self.save.checkpoints@[k].id@
                    && options@[k].label@ == checkpoint_label(self.engine, self.save.checkpoints@[k]),
            decreases self.save.checkpoints@.len() - i,
        {
            let c = &self.save.checkpoints[i];
            let label = self.describe_checkpoint(c);
            options.push(MenuOption { id: owned(c.id.as_str()), label });
            i += 1;
        }
        let shown = clone_options(&options);
        proof {
            assert(menu_shows(options@, checkpoint_menu(self.engine, self.save.checkpoints@)));
            assert(menu_shows(shown@, checkpoint_menu(self.engine, self.save.checkpoints@)));
        }
        self.set_menu(MenuKind::Checkpoint, options);
        self.state = SessionState::ChoosingCheckpoint;
        Outcome::MenuRequested { kind: MenuKind::Checkpoint, prompt: owned("选择要回到的节点："), options: shown }
    }

    fn describe_checkpoint(&self, c: &Checkpoint) -> (r: String)
        ensures
            r@ == checkpoint_label(self.engine, *c),
    {
        let title = match self.engine.get_chapter(c.chapter.as_str()) {
            Some(ch) => owned(ch.title.as_str()),
            None => owned(c.chapter.as_str()),
        };
        let kind = match c.kind {
            CheckpointKind::ChapterStart => "章节开始",
            CheckpointKind::BeforeJudgment => "审判前",
        };
        let scene = match self.engine.get_scene(c.scene.as_str()) {
            Some(s) => owned(s.name.as_str()),
            None => owned(c.scene.as_str()),
        };
        let mut r = join3(title.as_str(), " · ", kind);
        r.append(" · ");
        r.append(scene.as_str());
        r
    }

    /// Delete the snapshots the save no longer refers to.
    fn cleanup_orphans(&mut self)
        ensures
            final(self).save == old(self).save,
            final(self).engine == old(self).engine,
            final(self).state == old(self).state,
            final(self).pending == old(self).pending,
            final(self).hints == old(self).hints,
    {
        let all = self.store.list_snapshots();
        let orphans = orphan_snapshots(all.as_slice(), &self.save);
        let mut i: usize = 0;
        while i < orphans.len()
            invariant
                i <= orphans@.len(),
                self.save == old(self).save,
                self.engine == old(self).engine,
                self.state == old(self).state,
                self.pending == old(self).pending,
                self.hints == old(self).hints,
            decreases orphans@.len() - i,
        {
            let _ = self.store.remove_snapshot(orphans[i].as_str());
            i += 1;
        }
    }

    /// Roll back to a confirmed checkpoint: the save is rolled back and
    /// written, stale snapshots are deleted, and the chapter's intro is shown
    /// again when going back to a chapter start (without a new checkpoint);
    /// otherwise the scene is described in an informational message. A
    /// checkpoint that is gone is refused.
    pub(crate) fn execute_rollback_confirm(&mut self, id: &str) -> (r: Outcome)
        requires
            old(self).inv(),
        ensures
            final(self).inv(),
            rollback_answer(id@, r, *old(self), *final(self)),
    {
        let kind = match checkpoint_index(self.save.checkpoints.as_slice(), id) {
            Some(i) => Some(self.save.checkpoints[i].kind),
            None => None,
        };
        match map_checkpoint_rollback(&mut self.save, id) {
            Ok(()) => {
                self.cleanup_orphans();
                self.persist();
                let start = match kind {
                    Some(CheckpointKind::ChapterStart) => true,
                    _ => false,
                };
                if start {
                    match self.engine.get_intro_text(self.save.current_chapter.as_str()) {
                        Some(t) => {
                            self.pending = PendingAction::Intro { create_checkpoint: false };
                            self.state = SessionState::ShowingIntro;
                            return Outcome::ChapterIntro { text: owned(t) };
                        },
                        None => {},
                    }
                }
                self.state = SessionState::Exploring;
                Outcome::Message(Message::info(self.scene_description_messages()))
            },
            Err(_) => {
                self.state = SessionState::Exploring;
                info_line("这个节点已经无法回到。")
            },
        }
    }
}

} // verus!
