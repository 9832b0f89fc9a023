//! Narrative triggers (inner voices, memory fragments) and "you cannot get
//! out".
//!
//! - State driven: at each change of state (entering a chapter, ask, judge,
//!   gaze, move) the chapter's narrative items are checked against the
//!   facts; the first one due that has not been triggered is recorded (its
//!   snapshot written, `discovered.triggers` and `viewed_narrative` updated)
//!   and shown, and the session waits in `ShowingNarrative`. Each
//!   acknowledgement shows the next one due; after the last, the follow-up
//!   runs: the outcome the narratives interrupted, or the chapter advance
//!   they held back.
//! - Leaving town: an edge scene's `exit_attempt` is reached through the
//!   pseudo-exit `__leave`; the full text is shown the first time, a short
//!   line afterwards, and the player stays where they are.

use vstd::prelude::*;

use crate::content::condition::{eval, spec_eval, FactSet};
use crate::content::engine::ContentEngine;
use crate::content::models::{NarrativeItem, LEAVE_ATTEMPT_TRIGGER};
use crate::engine::condition::{build_factset, chapter_fact, path_facts, spec_factset};
use crate::engine::outcome::{Outcome, SessionState};
use crate::engine::chapter_flow::{advanced, extends, keeps_records};
use crate::engine::state::{FollowUp, PendingAction, Session, info_line, is_info};
use crate::save::backend::SaveBackend;
use crate::save::schema::{NarrativeSeen, Save};
use crate::save::snapshot::narrative_snapshot_path;
use crate::text::{owned, strs};

verus! {

/// A narrative item is due: not triggered yet, and its condition (if any)
/// holds under the save's facts.
pub open spec fn due(save: Save, n: NarrativeItem) -> bool {
    &&& !strs(save.discovered.triggers@).contains(n.id@)
    &&& match n.when {
        Some(c) => spec_eval(c, spec_factset(save)),
        None => true,
    }
}

/// Index of the first item at or after `i` that is due.
pub open spec fn first_due(items: Seq<NarrativeItem>, save: Save, i: int) -> Option<int>
    decreases items.len() - i,
{
    if i < 0 || i >= items.len() {
        None
    } else if due(save, items[i]) {
        Some(i)
    } else {
        first_due(items, save, i + 1)
    }
}

/// The narrative item of the current chapter to show next, if any.
pub open spec fn next_narrative(e: ContentEngine, save: Save) -> Option<NarrativeItem> {
    let items = e.spec_narrative(save.current_chapter@);
    match first_due(items, save, 0) {
        Some(i) => Some(items[i]),
        None => None,
    }
}

/// The facts of the game did not move: position, path, checkpoints and the
/// chapters' clues, dialogues and judgments are those of `a`.
pub open spec fn same_progress(a: Save, b: Save) -> bool {
    &&& b.current_chapter == a.current_chapter
    &&& b.current_scene == a.current_scene
    &&& b.current_world == a.current_world
    &&& b.chapter_path == a.chapter_path
    &&& b.checkpoints == a.checkpoints
    &&& b.collected_clues == a.collected_clues
    &&& b.viewed_dialogues == a.viewed_dialogues
    &&& b.judgments_made == a.judgments_made
    &&& b.discovered.chapters == a.discovered.chapters
    &&& b.discovered.endings == a.discovered.endings
    &&& b.discovered.topics@ == a.discovered.topics@
}

/// `after` records the narrative item `id` of chapter `ch` as seen: it is
/// among the triggered ids and ends the chapter's narrative records.
pub open spec fn records_voice(after: Save, ch: Seq<char>, id: Seq<char>) -> bool {
    &&& strs(after.discovered.triggers@).contains(id)
    &&& after.viewed_narrative@.contains_key(ch)
    &&& after.viewed_narrative@[ch]@.len() > 0
    &&& after.viewed_narrative@[ch]@.last().id@ == id
}

/// The "you cannot get out" text of a scene, empty when it has none.
pub open spec fn exit_text(e: ContentEngine, scene: Seq<char>) -> Seq<char> {
    if e.exit_attempt_text@.contains_key(scene) {
        e.exit_attempt_text@[scene]@
    } else {
        Seq::empty()
    }
}

/// What trying to leave town answers: the first time, the narrator speaks the
/// current scene's exit-attempt text and the attempt is recorded; afterwards
/// a short line, with nothing changed. The player stays where they are.
pub open spec fn leave_answer<B: SaveBackend>(r: Outcome, before: Session<B>, after: Session<B>) -> bool {
    &&& after.engine == before.engine
    &&& same_progress(before.save, after.save)
    &&& strs(before.save.discovered.triggers@).contains("leave_attempt"@) ==> is_info(
        r,
        "你试着朝镇外走，脚步却把你带回原处。"@,
    ) && after.state == SessionState::Exploring && after.save == before.save
    &&& !strs(before.save.discovered.triggers@).contains("leave_attempt"@) ==> (r matches Outcome::Narrative {
        label,
        text,
    } && label@ == "旁白"@ && text@ == exit_text(before.engine, before.save.current_scene@)) && records_voice(
        after.save,
        before.save.current_chapter@,
        "leave_attempt"@,
    ) && after.state == SessionState::ShowingNarrative
}

proof fn lemma_first_due_bounds(items: Seq<NarrativeItem>, save: Save, i: int)
    requires
        i >= 0,
    ensures
        first_due(items, save, i) matches Some(j) ==> i <= j < items.len() && due(save, items[j]),
        first_due(items, save, i) is None ==> forall|m: int| i <= m < items.len() ==> !due(save, #[trigger] items[m]),
    decreases items.len() - i,
{
    if i < items.len() && !due(save, items[i]) {
        lemma_first_due_bounds(items, save, i + 1);
    }
}

/// Two saves with the same path, clues, judgments and triggered ids have the
/// same facts.
pub proof fn lemma_same_facts(a: Save, b: Save)
    requires
        a.collected_clues == b.collected_clues,
        a.judgments_made == b.judgments_made,
        a.chapter_path == b.chapter_path,
        a.discovered.triggers == b.discovered.triggers,
    ensures
        spec_factset(a) == spec_factset(b),
{
    let n = a.chapter_path@.len() as int;
    assert(path_facts(a, n) =~= path_facts(b, n)) by {
        assert forall|f: Seq<char>| path_facts(a, n).contains(f) implies path_facts(b, n).contains(f) by {
            let k = choose|k: int| 0 <= k < n && #[trigger] chapter_fact(a, a.chapter_path@[k]@, f);
            assert(chapter_fact(b, b.chapter_path@[k]@, f));
        }
        assert forall|f: Seq<char>| path_facts(b, n).contains(f) implies path_facts(a, n).contains(f) by {
            let k = choose|k: int| 0 <= k < n && #[trigger] chapter_fact(b, b.chapter_path@[k]@, f);
            assert(chapter_fact(a, a.chapter_path@[k]@, f));
        }
    }
    assert(spec_factset(a) =~= spec_factset(b));
}

proof fn lemma_first_due_same(items: Seq<NarrativeItem>, a: Save, b: Save, i: int)
    requires
        a.discovered.triggers == b.discovered.triggers,
        spec_factset(a) == spec_factset(b),
    ensures
        first_due(items, a, i) == first_due(items, b, i),
    decreases items.len() - i,
{
    if 0 <= i < items.len() {
        lemma_first_due_same(items, a, b, i + 1);
    }
}

/// The next narrative item depends only on the chapter, the facts and the
/// triggered ids.
pub proof fn lemma_next_narrative_same(e: ContentEngine, a: Save, b: Save)
    requires
        a.current_chapter == b.current_chapter,
        a.collected_clues == b.collected_clues,
        a.judgments_made == b.judgments_made,
        a.chapter_path == b.chapter_path,
        a.discovered.triggers == b.discovered.triggers,
    ensures
        next_narrative(e, a) == next_narrative(e, b),
{
    lemma_same_facts(a, b);
    lemma_first_due_same(e.spec_narrative(a.current_chapter@), a, b, 0);
}

/// Position of the first item due.
fn find_due(items: &[NarrativeItem], save: &Save, facts: &FactSet) -> (r: Option<usize>)
    requires
        facts@ == spec_factset(*save),
    ensures
        match r {
            Some(k) => first_due(items@, *save, 0) == Some(k as int),
            None => first_due(items@, *save, 0) is None,
        },
{
    let mut k: usize = 0;
    while k < items.len()
        invariant
            facts@ == spec_factset(*save),
            k <= items@.len(),
            first_due(items@, *save, k as int) == first_due(items@, *save, 0),
        decreases items@.len() - k,
    {
        let n = &items[k];
        let ok = if save.discovered.triggered(n.id.as_str()) {
            false
        } else {
            match &n.when {
                Some(c) => eval(c, facts),
                None => true,
            }
        };
        if ok {
            return Some(k);
        }
        k += 1;
    }
    None
}

impl<B: SaveBackend> Session<B> {
    /// Record a narrative text as seen in the current chapter: write its
    /// snapshot, add it to the chapter's records and to the triggered ids,
    /// and write the save.
    fn record_voice(&mut self, id: &str, text: &str)
        ensures
            extends(old(self).written@, final(self).written@),
            records_voice(final(self).save, old(self).save.current_chapter@, id@),
            same_progress(old(self).save, final(self).save),
            final(self).save.discovered.chapters == old(self).save.discovered.chapters,
            final(self).save.discovered.endings == old(self).save.discovered.endings,
            final(self).save.discovered.topics@ == old(self).save.discovered.topics@,
            final(self).save.viewed_intros == old(self).save.viewed_intros,
            final(self).save.viewed_outros == old(self).save.viewed_outros,
            final(self).engine == old(self).engine,
            final(self).state == old(self).state,
            final(self).pending == old(self).pending,
            final(self).hints == old(self).hints,
    {
        let ch = owned(self.save.current_chapter.as_str());
        let rel = narrative_snapshot_path(ch.as_str(), id);
        let _ = self.store.write_snapshot(rel.as_str(), text);
        let list = self.save.viewed_narrative.get_or_insert_mut(ch.as_str(), Vec::new());
        list.push(NarrativeSeen { id: owned(id), snapshot: rel });
        let ghost t0 = strs(self.save.discovered.triggers@);
        self.save.discovered.add_trigger(id);
        proof {
            if !t0.contains(id@) {
                assert(t0.push(id@)[t0.len() as int] == id@);
            }
        }
        self.persist();
    }

    /// Take the next narrative item due, record it and give its outcome;
    /// `None` (and nothing changed) when none is due.
    pub(crate) fn pop_narrative(&mut self) -> (r: Option<Outcome>)
        ensures
            extends(old(self).written@, final(self).written@),
            same_progress(old(self).save, final(self).save),
            match next_narrative(old(self).engine, old(self).save) {
                None => r is None && *final(self) == *old(self),
                Some(n) => (r matches Some(Outcome::Narrative { label, .. }) && label@ == n.label@)
                    && records_voice(final(self).save, old(self).save.current_chapter@, n.id@)
                    && same_progress(old(self).save, final(self).save)
                    && final(self).state == old(self).state && final(self).pending == old(self).pending,
            },
            final(self).engine == old(self).engine,
            final(self).hints == old(self).hints,
    {
        let facts = build_factset(&self.save);
        let ch = owned(self.save.current_chapter.as_str());
        let items = self.engine.get_narrative(ch.as_str());
        let found = find_due(items, &self.save, &facts);
        proof {
            lemma_first_due_bounds(items@, self.save, 0);
        }
        let k = match found {
            Some(k) => k,
            None => {
                return None;
            },
        };
        let n = &items[k];
        let id = owned(n.id.as_str());
        let label = owned(n.label.as_str());
        let text = match self.engine.get_narrative_text(ch.as_str(), id.as_str()) {
            Some(t) => owned(t),
            None => String::new(),
        };
        self.record_voice(id.as_str(), text.as_str());
        Some(Outcome::Narrative { label, text })
    }

    /// Put the narrative items due in front of `base`: when one is due it is
    /// shown and `base` waits until the last is acknowledged; otherwise
    /// `base` itself is given.
    pub(crate) fn then_narrative(&mut self, base: Outcome) -> (r: Outcome)
        ensures
            extends(old(self).written@, final(self).written@),
            same_progress(old(self).save, final(self).save),
            match next_narrative(old(self).engine, old(self).save) {
                None => r == base && *final(self) == *old(self),
                Some(n) => (r matches Outcome::Narrative { label, .. } && label@ == n.label@)
                    && records_voice(final(self).save, old(self).save.current_chapter@, n.id@)
                    && same_progress(old(self).save, final(self).save)
                    && final(self).state == SessionState::ShowingNarrative
                    && final(self).pending == (PendingAction::Narrative { follow_up: Some(FollowUp::Show(base)) }),
            },
            final(self).engine == old(self).engine,
            final(self).hints == old(self).hints,
    {
        match self.pop_narrative() {
            Some(narr) => {
                self.pending = PendingAction::Narrative { follow_up: Some(FollowUp::Show(base)) };
                self.state = SessionState::ShowingNarrative;
                narr
            },
            None => base,
        }
    }

    /// After a completed judgment: the narrative items due come first (a
    /// fragment usually waits for the judgment), and the chapter advances
    /// once the last is acknowledged; with none due it advances now.
    pub(crate) fn drain_or_advance(&mut self, prelude: Option<String>, map_hint: Option<String>) -> (r: Outcome)
        requires
            old(self).inv(),
        ensures
            final(self).inv(),
            final(self).engine == old(self).engine,
            next_narrative(old(self).engine, old(self).save) matches Some(n) ==> (
                r matches Outcome::Narrative { label, .. } && label@ == n.label@)
                && final(self).state == SessionState::ShowingNarrative
                && final(self).pending == (PendingAction::Narrative {
                    follow_up: Some(FollowUp::Advance { prelude, map_hint }),
                })
                && same_progress(old(self).save, final(self).save),
            next_narrative(old(self).engine, old(self).save) is None ==> exists|o: Outcome|
                #[trigger] advanced(prelude, o, *old(self), *final(self)),
            keeps_records(old(self).save, final(self).save),
    {
        let ghost pre = prelude;
        match self.pop_narrative() {
            Some(narr) => {
                self.pending = PendingAction::Narrative { follow_up: Some(FollowUp::Advance { prelude, map_hint }) };
                self.state = SessionState::ShowingNarrative;
                narr
            },
            None => {
                let r = self.advance_with_hint(prelude, map_hint);
                proof {
                    let o = choose|o: Outcome| #[trigger] advanced(pre, o, *old(self), *self);
                    assert(advanced(pre, o, *old(self), *self));
                }
                r
            },
        }
    }

    /// Acknowledge the narrative shown: the next one due follows; after the
    /// last, the follow-up runs.
    pub(crate) fn ack_narrative(&mut self) -> (r: Outcome)
        requires
            old(self).inv(),
        ensures
            final(self).inv(),
            final(self).engine == old(self).engine,
            next_narrative(old(self).engine, old(self).save) matches Some(n) ==> (
                r matches Outcome::Narrative { label, .. } && label@ == n.label@)
                && final(self).state == SessionState::ShowingNarrative,
            next_narrative(old(self).engine, old(self).save) is None ==> match old(self).pending {
                PendingAction::Narrative { follow_up: Some(FollowUp::Show(base)) } => r == base
                    && final(self).state == SessionState::Exploring && final(self).save == old(self).save,
                PendingAction::Narrative { follow_up: None } => r is SceneDescription
                    && final(self).state == SessionState::Exploring && final(self).save == old(self).save,
                PendingAction::Narrative { follow_up: Some(FollowUp::Advance { prelude, .. }) } => exists|o: Outcome|
                    #[trigger] advanced(prelude, o, *old(self), *final(self)),
                _ => true,
            },
    {
        let mut pending = PendingAction::Idle;
        std::mem::swap(&mut pending, &mut self.pending);
        let follow_up = match pending {
            PendingAction::Narrative { follow_up } => follow_up,
            _ => None,
        };
        match self.pop_narrative() {
            Some(narr) => {
                self.pending = PendingAction::Narrative { follow_up };
                self.state = SessionState::ShowingNarrative;
                return narr;
            },
            None => {},
        }
        match follow_up {
            Some(FollowUp::Show(base)) => {
                self.state = SessionState::Exploring;
                base
            },
            Some(FollowUp::Advance { prelude, map_hint }) => {
                self.state = SessionState::Exploring;
                let ghost at = *self;
                let ghost pre = prelude;
                let r = self.advance_with_hint(prelude, map_hint);
                proof {
                    let o = choose|o: Outcome| #[trigger] advanced(pre, o, at, *self);
                    assert(advanced(pre, o, *old(self), *self));
                }
                r
            },
            None => {
                self.state = SessionState::Exploring;
                Outcome::SceneDescription { text: self.scene_description_text() }
            },
        }
    }

    /// Try to leave town from an edge scene: the first time the full text is
    /// shown and recorded; afterwards a short line. The player stays.
    pub(crate) fn attempt_leave(&mut self) -> (r: Outcome)
        requires
            old(self).inv(),
        ensures
            final(self).inv(),
            leave_answer(r, *old(self), *final(self)),
    {
        proof {
            reveal_strlit("leave_attempt");
        }
        if self.save.discovered.triggered(LEAVE_ATTEMPT_TRIGGER) {
            self.state = SessionState::Exploring;
            return info_line("你试着朝镇外走，脚步却把你带回原处。");
        }
        let text = match self.engine.scene_exit_attempt_text(self.save.current_scene.as_str()) {
            Some(t) => owned(t),
            None => String::new(),
        };
        self.record_voice(LEAVE_ATTEMPT_TRIGGER, text.as_str());
        self.pending = PendingAction::Narrative { follow_up: Some(FollowUp::Show(Outcome::Ignored)) };
        self.state = SessionState::ShowingNarrative;
        Outcome::Narrative { label: owned("旁白"), text }
    }
}

} // verus!
