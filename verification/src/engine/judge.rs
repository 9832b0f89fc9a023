//! `judge`, and the chapter advance a completed chapter triggers.

use vstd::prelude::*;

use crate::content::engine::ContentEngine;
use crate::content::models::{lookup_key, Judgment};
use crate::engine::chapter_flow::{advanced, chapter_done, keeps_records};
use crate::engine::trigger::{next_narrative, same_progress};
use crate::engine::logic::{judge_candidate, pairs, spec_unjudged, unjudged_character_options};
use crate::engine::outcome::{MenuKind, MenuOption, Message, Outcome, SessionState};
use crate::engine::state::{menu_offered, menu_shows, FollowUp, PendingAction, Session, clone_options, info_line, is_info};
use crate::save::backend::SaveBackend;
use crate::save::checkpoint::{create_before_judgment, records};
use crate::save::schema::{ckpt_ids, first_free_id, spec_before_judgment_base, CheckpointKind, JudgmentMade, Save};
use crate::save::snapshot::judgment_snapshot_path;
use crate::text::owned;
use crate::engine::commands::opt_view;

verus! {

/// The judgment of the chapter that targets `character`: the first one.
pub open spec fn judgment_for(js: Seq<Judgment>, character: Seq<char>) -> Option<Judgment> {
    if exists|i: int| 0 <= i < js.len() && #[trigger] js[i].target@ == character {
        let i = choose|i: int|
            0 <= i < js.len() && #[trigger] js[i].target@ == character && forall|k: int| 0 <= k < i ==> js[k].target@ != character;
        Some(js[i])
    } else {
        None
    }
}

/// The result text of judgment `jid` of chapter `ch` (empty when it has none).
pub open spec fn result_text(e: ContentEngine, ch: Seq<char>, jid: Seq<char>) -> Seq<char> {
    if e.content@.contains_key(ch) && e.content@[ch].result_text@.contains_key(jid) {
        e.content@[ch].result_text@[jid]@
    } else {
        Seq::empty()
    }
}

/// The chapter's made judgments (none when the chapter has no entry).
pub open spec fn made_list(save: Save, ch: Seq<char>) -> Seq<JudgmentMade> {
    if save.judgments_made@.contains_key(ch) {
        save.judgments_made@[ch]@
    } else {
        Seq::empty()
    }
}

/// `mid` is `before` with judgment `jid` of chapter `ch` made: first a
/// `BeforeJudgment` checkpoint of the current scene and world, holding the
/// chapter's progress so far, under the first free id built on
/// `ckpt_before_{jid}`; then the judgment appended to the chapter's made
/// judgments with its result snapshot path. Nothing else changes.
pub open spec fn judgment_taken(before: Save, mid: Save, ch: Seq<char>, jid: Seq<char>) -> bool {
    let n = before.checkpoints@.len() as int;
    let c = mid.checkpoints@.last();
    let made = made_list(mid, ch);
    &&& mid.checkpoints@.len() == n + 1
    &&& mid.checkpoints@.take(n) == before.checkpoints@
    &&& first_free_id(spec_before_judgment_base(jid), ckpt_ids(before.checkpoints@), c.id@)
    &&& records(c, before, c.id@, ch, before.current_scene@, before.current_world, CheckpointKind::BeforeJudgment, c.timestamp@)
    &&& made.len() == made_list(before, ch).len() + 1
    &&& made.drop_last() == made_list(before, ch)
    &&& made.last().judgment@ == jid
    &&& made.last().result_snapshot@ == "snapshots/"@ + ch + "/"@ + jid + ".md"@
    &&& mid.judgments_made@.contains_key(ch)
    &&& mid.judgments_made@.remove(ch) == before.judgments_made@.remove(ch)
    &&& mid == (Save { checkpoints: mid.checkpoints, judgments_made: mid.judgments_made, ..before })
}

/// What follows a judgment once the save holds it (`mid`): a chapter whose
/// needed judgments are all made advances, with the result text in front,
/// after the narrative items due (then the advance waits for them); else
/// the player keeps exploring the same chapter.
pub open spec fn after_judgment<B: SaveBackend>(mid: Save, text: Seq<char>, r: Outcome, before: Session<B>, after: Session<B>) -> bool {
    let e = before.engine;
    let ch = before.save.current_chapter@;
    let at = Session { save: mid, ..before };
    &&& keeps_records(mid, after.save)
    &&& chapter_done(e, mid, ch) && next_narrative(e, mid) is Some ==> r is Narrative && after.state
        == SessionState::ShowingNarrative && match after.pending {
        PendingAction::Narrative { follow_up: Some(FollowUp::Advance { prelude: Some(p), .. }) } => p@ == text,
        _ => false,
    }
    &&& chapter_done(e, mid, ch) && next_narrative(e, mid) is None ==> exists|p: Option<String>, o: Outcome|
        #[trigger] advanced(p, o, at, after) && match p {
            Some(ps) => ps@ == text,
            None => false,
        }
    &&& !chapter_done(e, mid, ch) ==> same_progress(mid, after.save) && (after.state == SessionState::Exploring
        || after.state == SessionState::ShowingNarrative)
}

/// What `judge` does: without a target, the menu of the characters still
/// to judge (a note when there are none); a target without a judgment in
/// this chapter, or already judged, is refused; otherwise its judgment is
/// made.
pub open spec fn judge_answer<B: SaveBackend>(target: Option<Seq<char>>, r: Outcome, before: Session<B>, after: Session<B>) -> bool {
    let ch = before.save.current_chapter@;
    &&& after.engine == before.engine
    &&& target is None && spec_unjudged(before.engine, before.save).len() == 0 ==> is_info(r, "本章没有可审判的角色。"@)
        && after.save == before.save
    &&& target is None && spec_unjudged(before.engine, before.save).len() > 0 ==> (r matches Outcome::MenuRequested {
        kind,
        options,
        ..
    } && kind == MenuKind::JudgeCharacter && options@.len() == spec_unjudged(before.engine, before.save).len())
        && menu_offered(r, after.pending, spec_unjudged(before.engine, before.save))
        && after.state == SessionState::ChoosingJudgeCharacter && after.save == before.save
    &&& target is Some ==> match judgment_for(before.engine.spec_judgments(ch), target->0) {
        None => is_info(r, "现在还无法审判他。"@) && after.save == before.save,
        Some(j) => if before.save.spec_judged(ch, j.id@) {
            is_info(r, "你已经审判过他了。（可用 map 回到审判前 checkpoint）"@) && after.save == before.save
        } else {
            after.save.spec_judged(ch, j.id@) && (before.save.checkpoints@.len() < usize::MAX ==> exists|mid: Save|
                #[trigger] judgment_taken(before.save, mid, ch, j.id@) && after_judgment(
                mid,
                result_text(before.engine, ch, j.id@),
                r,
                before,
                after,
            ))
        },
    }
}

/// `judge` without a target offers, in judgment order, exactly the
/// characters that still have a judgment to be made in this chapter: each
/// option is the target of a judgment of the chapter that was not made yet,
/// labelled with that character's name, and every such judgment's target is
/// offered. The pending menu holds the same options, so a choice judges the
/// character it names.
pub proof fn lemma_judge_menu<B: SaveBackend>(r: Outcome, before: Session<B>, after: Session<B>)
    requires
        judge_answer(None, r, before, after),
        r is MenuRequested,
    ensures
        ({
            let e = before.engine;
            let ch = before.save.current_chapter@;
            let js = e.spec_judgments(ch);
            let opts = r->MenuRequested_options@;
            &&& forall|i: int| #![trigger opts[i]] 0 <= i < opts.len() ==> exists|m: int|
                0 <= m < js.len() && #[trigger] js[m].target@ == opts[i].id@ && !before.save.spec_judged(ch, js[m].id@)
                    && lookup_key(e.characters@, opts[i].id@) is Some && lookup_key(e.characters@, opts[i].id@)->0.name@
                    == opts[i].label@
            &&& forall|m: int| 0 <= m < js.len() && !before.save.spec_judged(ch, js[m].id@) && lookup_key(
                e.characters@,
                js[m].target@,
            ) is Some ==> exists|i: int| 0 <= i < opts.len() && #[trigger] opts[i].id@ == js[m].target@
            &&& after.pending matches PendingAction::Menu { options, .. } && options@.len() == opts.len() && forall|i: int|
                0 <= i < opts.len() ==> #[trigger] options@[i].id@ == opts[i].id@ && options@[i].label@ == opts[i].label@
        }),
{
    let e = before.engine;
    let save = before.save;
    let ch = save.current_chapter@;
    let js = e.spec_judgments(ch);
    let opts = r->MenuRequested_options@;
    let p = |j: Judgment| judge_candidate(e, save, j);
    let f = |j: Judgment| (j.target@, lookup_key(e.characters@, j.target@)->0.name@);
    let fl = js.filter(p);
    js.filter_lemma(p);
    assert(spec_unjudged(e, save) == fl.map_values(f));
    assert forall|i: int| #![trigger opts[i]] 0 <= i < opts.len() implies exists|m: int|
        0 <= m < js.len() && #[trigger] js[m].target@ == opts[i].id@ && !before.save.spec_judged(ch, js[m].id@)
            && lookup_key(e.characters@, opts[i].id@) is Some && lookup_key(e.characters@, opts[i].id@)->0.name@
            == opts[i].label@ by {
        assert(p(fl[i]));
        assert(fl.contains(fl[i]));
        js.lemma_filter_contains_rev(p, fl[i]);
        assert(js.contains(fl[i]));
        let m = choose|m: int| 0 <= m < js.len() && js[m] == fl[i];
        assert(js[m].target@ == opts[i].id@);
    }
    assert forall|m: int| 0 <= m < js.len() && !before.save.spec_judged(ch, js[m].id@) && lookup_key(
        e.characters@,
        js[m].target@,
    ) is Some implies exists|i: int| 0 <= i < opts.len() && #[trigger] opts[i].id@ == js[m].target@ by {
        assert(p(js[m]));
        assert(fl.contains(js[m]));
        let i = choose|i: int| 0 <= i < fl.len() && fl[i] == js[m];
        assert(opts[i].id@ == spec_unjudged(e, save)[i].0);
    }
}

impl<B: SaveBackend> Session<B> {
    /// `judge`: without a target, the menu of characters still to judge in
    /// this chapter; with one, its judgment, unless there is none or it was
    /// already made.
    pub(crate) fn do_judge(&mut self, target: Option<String>) -> (r: Outcome)
        requires
            old(self).inv(),
        ensures
            final(self).inv(),
            judge_answer(opt_view(target), r, *old(self), *final(self)),
    {
        match target {
            None => {
                let unjudged = unjudged_character_options(&self.engine, &self.save);
                if unjudged.len() == 0 {
                    return info_line("本章没有可审判的角色。");
                }
                let mut options: Vec<MenuOption> = Vec::new();
                let mut i: usize = 0;
                while i < unjudged.len()
                    invariant
                        i <= unjudged@.len(),
                        options@.len() == i,
                        forall|k: int| 0 <= k < i ==> #[trigger] options@[k].id@ == pairs(unjudged@)[k].0
                            && options@[k].label@ == pairs(unjudged@)[k].1,
                    decreases unjudged@.len() - i,
                {
                    options.push(MenuOption { id: owned(unjudged[i].0.as_str()), label: owned(unjudged[i].1.as_str()) });
                    i += 1;
                }
                let shown = clone_options(&options);
                self.set_menu(MenuKind::JudgeCharacter, options);
                self.state = SessionState::ChoosingJudgeCharacter;
                Outcome::MenuRequested { kind: MenuKind::JudgeCharacter, prompt: owned("审判谁？"), options: shown }
            },
            Some(t) => {
                let ghost js = self.engine.spec_judgments(self.save.current_chapter@);
                let j = match self.engine.get_judgment_for_character(self.save.current_chapter.as_str(), t.as_str()) {
                    Some(j) => {
                        proof {
                            let i = choose|i: int|
                                0 <= i < js.len() && js[i] == *j && j.target@ == t@ && forall|k: int|
                                    0 <= k < i ==> js[k].target@ != t@;
                            assert(js[i].target@ == t@);
                            let c = choose|c: int|
                                0 <= c < js.len() && #[trigger] js[c].target@ == t@ && forall|k: int|
                                    0 <= k < c ==> js[k].target@ != t@;
                            assert(c == i) by {
                                if c < i {
                                    assert(js[c].target@ != t@);
                                }
                                if i < c {
                                    assert(js[i].target@ != t@);
                                }
                            }
                        }
                        copy_judgment(j)
                    },
                    None => {
                        return info_line("现在还无法审判他。");
                    },
                };
                if self.save.judged(self.save.current_chapter.as_str(), j.id.as_str()) {
                    return info_line("你已经审判过他了。（可用 map 回到审判前 checkpoint）");
                }
                self.execute_judgment(&j)
            },
        }
    }

    /// Make a judgment: a checkpoint is taken first, the result is recorded
    /// (its snapshot written) and the save written. A chapter whose needed
    /// judgments are now all made advances (after the narrative items due);
    /// otherwise the result is shown and exploring goes on.
    pub fn execute_judgment(&mut self, j: &Judgment) -> (r: Outcome)
        requires
            old(self).inv(),
        ensures
            final(self).inv(),
            final(self).engine == old(self).engine,
            final(self).save.spec_judged(old(self).save.current_chapter@, j.id@),
            old(self).save.checkpoints@.len() < usize::MAX ==> exists|mid: Save| #[trigger] judgment_taken(
                old(self).save,
                mid,
                old(self).save.current_chapter@,
                j.id@,
            ) && after_judgment(
                mid,
                result_text(old(self).engine, old(self).save.current_chapter@, j.id@),
                r,
                *old(self),
                *final(self),
            ),
    {
        let ch = owned(self.save.current_chapter.as_str());
        let now = self.store.now_iso();
        if self.save.checkpoints.len() < usize::MAX {
            create_before_judgment(&mut self.save, ch.as_str(), j.id.as_str(), now.as_str());
        }
        let result_text = match self.engine.get_result_text(ch.as_str(), j.id.as_str()) {
            Some(t) => owned(t),
            None => String::new(),
        };
        let rel = judgment_snapshot_path(ch.as_str(), j.id.as_str());
        let _ = self.store.write_snapshot(rel.as_str(), result_text.as_str());
        let ghost s1 = self.save;
        let made = self.save.judgments_mut(ch.as_str());
        made.push(JudgmentMade { judgment: owned(j.id.as_str()), result_snapshot: rel });
        let ghost mid = self.save;
        proof {
            let v = self.save.judgments_made@[ch@]@;
            assert(v[v.len() - 1].judgment@ == j.id@);
            assert(made_list(mid, ch@).drop_last() =~= made_list(s1, ch@));
            assert(mid.judgments_made@.remove(ch@) =~= s1.judgments_made@.remove(ch@));
            if old(self).save.checkpoints@.len() < usize::MAX {
                assert(judgment_taken(old(self).save, mid, ch@, j.id@));
            }
        }
        let complete = self.current_chapter_done();
        self.persist();
        let map_hint = self.hint_after_judge();
        if complete {
            let ghost at = *self;
            let pre = Some(result_text);
            let ghost gpre = pre;
            let r = self.drain_or_advance(pre, map_hint);
            proof {
                if next_narrative(at.engine, mid) is None {
                    let o = choose|o: Outcome| #[trigger] advanced(gpre, o, at, *self);
                    assert(advanced(gpre, o, (Session { save: mid, ..*old(self) }), *self));
                }
            }
            r
        } else {
            self.state = crate::engine::outcome::SessionState::Exploring;
            let mut msgs: Vec<String> = Vec::new();
            msgs.push(result_text);
            msgs.push(owned("[本章必要审判尚未全部完成，继续探索]"));
            match map_hint {
                Some(h) => msgs.push(h),
                None => {},
            }
            self.then_narrative(Outcome::Message(Message::info(msgs)))
        }
    }
}

/// A copy of a judgment.
fn copy_judgment(j: &Judgment) -> (r: Judgment)
    ensures
        r.id@ == j.id@,
        r.target@ == j.target@,
        r.result@ == j.result@,
{
    Judgment { id: owned(j.id.as_str()), target: owned(j.target.as_str()), result: owned(j.result.as_str()) }
}

} // verus!
