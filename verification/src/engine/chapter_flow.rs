//! Chapter entry, the automatic advance after the needed judgments, endings,
//! new games and continuing a saved game.

use vstd::prelude::*;

use crate::content::condition::all_in;
use crate::content::engine::ContentEngine;
use crate::content::models::{lookup_key, Judgment};
use crate::engine::condition::{build_factset, chapter_complete, spec_factset};
use crate::engine::logic::{reconcile_save, reconcile_warnings, reconciled};
use crate::engine::outcome::{Message, MessageLevel, Outcome, SessionState};
use crate::engine::state::{quit_answer, stamped, FollowUp, PendingAction, Session, error_line, info_line, is_error, is_info, is_message};
use crate::engine::hints::Hints;
use crate::engine::navigation::description_or_missing;
use crate::engine::trigger::same_progress;
use crate::save::backend::{holds_save, SaveBackend};
use crate::save::checkpoint::create_chapter_start;
use crate::save::schema::{lemma_same_save_equivalence, same_save, push_dedup_spec, Discovered, JudgmentMade, NarrativeSeen, Save, ViewedDialogue, CURRENT_VERSION};
use crate::save::snapshot::{intro_snapshot_path, outro_snapshot_path};
use crate::save::store::{resolve_load, LoadResult};
use crate::text::{join, join3, owned, str_eq, strs};
use crate::world::World;

verus! {

/// `b` starts with `a`.
pub open spec fn extends<T>(a: Seq<T>, b: Seq<T>) -> bool {
    a.len() <= b.len() && forall|i: int| 0 <= i < a.len() ==> #[trigger] b[i] == a[i]
}

/// `b` keeps the records of `a`: the same clues, dialogues and judgments,
/// and the checkpoints of `a` followed by any new ones.
pub open spec fn keeps_records(a: Save, b: Save) -> bool {
    &&& b.collected_clues == a.collected_clues
    &&& b.viewed_dialogues == a.viewed_dialogues
    &&& b.judgments_made == a.judgments_made
    &&& extends(a.checkpoints@, b.checkpoints@)
}

/// Every judgment of the list is a fact.
pub open spec fn all_judged(js: Seq<Judgment>, facts: Set<Seq<char>>) -> bool {
    forall|i: int| 0 <= i < js.len() ==> facts.contains(#[trigger] js[i].id@)
}

/// The chapter's needed judgments are all made: those it lists, or every
/// judgment of the chapter when it lists none.
pub open spec fn chapter_done(e: ContentEngine, save: Save, ch: Seq<char>) -> bool {
    match lookup_key(e.chapters@, ch) {
        None => false,
        Some(c) => match c.required_judgments {
            Some(req) => all_in(req@, spec_factset(save)),
            None => all_judged(e.spec_judgments(ch), spec_factset(save)),
        },
    }
}

/// The prelude put in front of a text, separated by a blank line.
pub open spec fn with_prelude(prelude: Option<String>, text: Seq<char>) -> Seq<char> {
    match prelude {
        Some(p) => if p@.len() > 0 {
            p@ + "\n\n"@ + text
        } else {
            text
        },
        None => text,
    }
}

/// The chapter entered sits at its starting scene on the surface.
pub open spec fn at_chapter_start(e: ContentEngine, save: Save, ch: Seq<char>) -> bool {
    &&& save.current_chapter@ == ch
    &&& lookup_key(e.chapters@, ch) matches Some(c) && save.current_scene@ == c.starting_scene@
    &&& save.current_world == World::Surface
}

/// The content has a first chapter to start a game in: it exists and names
/// its starting scene.
pub open spec fn can_start(e: ContentEngine) -> bool {
    &&& e.root_chapter is Some
    &&& lookup_key(e.chapters@, e.root_chapter->0@) matches Some(c) && c.starting_scene@.len() > 0
}

/// `s` is the save of a new game of `e`: at the first chapter's starting
/// scene on the surface, at the current version, with that chapter as the
/// whole path and the only one discovered, and nothing else recorded.
pub open spec fn fresh_save(e: ContentEngine, s: Save) -> bool {
    &&& e.root_chapter matches Some(root) && s.current_chapter@ == root@
    &&& at_chapter_start(e, s, s.current_chapter@)
    &&& s.version == CURRENT_VERSION
    &&& strs(s.chapter_path@) == seq![s.current_chapter@]
    &&& strs(s.discovered.chapters@) == seq![s.current_chapter@]
    &&& s.discovered.endings@.len() == 0
    &&& s.discovered.triggers@.len() == 0
    &&& s.discovered.topics@ == Map::<Seq<char>, Vec<String>>::empty()
    &&& s.collected_clues@ == Map::<Seq<char>, Vec<String>>::empty()
    &&& s.viewed_dialogues@ == Map::<Seq<char>, Vec<ViewedDialogue>>::empty()
    &&& s.judgments_made@ == Map::<Seq<char>, Vec<JudgmentMade>>::empty()
    &&& s.viewed_intros@ == Map::<Seq<char>, String>::empty()
    &&& s.viewed_outros@ == Map::<Seq<char>, String>::empty()
    &&& s.viewed_narrative@ == Map::<Seq<char>, Vec<NarrativeSeen>>::empty()
    &&& s.checkpoints@.len() == 0
}

/// The answer when the slot could not be prepared for a new game.
pub open spec fn init_failed(r: Outcome) -> bool {
    exists|d: Seq<char>| #[trigger] is_info(r, "无法初始化新游戏："@ + d)
}

/// What starting a new game does: content without a usable first chapter is
/// refused with a message and nothing changes; otherwise either the slot
/// could not be prepared (a message, the save unchanged; never with a
/// modeled backend), or a fresh save was
/// written and the first chapter entered from it, its intro shown when it
/// has one. Saves written before stay on record.
pub open spec fn new_game_answer<B: SaveBackend>(r: Outcome, before: Session<B>, after: Session<B>) -> bool {
    let e = before.engine;
    &&& after.engine == e
    &&& extends(before.written@, after.written@)
    &&& e.root_chapter is None ==> is_info(r, "找不到首章（内容校验未通过）。"@) && after.save == before.save
    &&& e.root_chapter is Some && lookup_key(e.chapters@, e.root_chapter->0@) is None ==> is_info(r, "首章数据缺失。"@)
        && after.save == before.save
    &&& e.root_chapter is Some && lookup_key(e.chapters@, e.root_chapter->0@) is Some && lookup_key(
        e.chapters@,
        e.root_chapter->0@,
    )->0.starting_scene@.len() == 0 ==> is_info(r, "首章缺少 starting_scene。"@) && after.save == before.save
    &&& can_start(e) ==> (init_failed(r) && !before.store.modeled() && after.save == before.save) || ({
        let n = before.written@.len() as int;
        let root = e.root_chapter->0@;
        &&& after.written@.len() > n
        &&& fresh_save(e, after.written@[n])
        &&& at_chapter_start(e, after.save, root)
        &&& strs(after.save.chapter_path@) == seq![root]
        &&& keeps_records(after.written@[n], after.save)
        &&& e.spec_intro(root) matches Some(t) ==> r is ChapterIntro && r->ChapterIntro_text@ == t && after.state
            == SessionState::ShowingIntro
        &&& e.spec_intro(root) is None ==> scene_shown(r, after, e, after.save)
    })
}

/// A continued game's message: the repairs made to the save and the scene,
/// as a warning when there were repairs, possibly after the note that the
/// save came from its backup.
pub open spec fn continued_lines(r: Outcome, repairs: Seq<Seq<char>>, scene: Seq<char>) -> bool {
    let body = repairs + seq![scene];
    &&& r is Message
    &&& r->Message_0.level == if repairs.len() > 0 {
        MessageLevel::Warning
    } else {
        MessageLevel::Info
    }
    &&& strs(r->Message_0.lines@) == body || strs(r->Message_0.lines@) == seq!["存档文件损坏，已从备份恢复"@] + body
}

/// `after` is `before` with the ending `ch` recorded (once) among the
/// discovered endings and, possibly, the snapshot of its outro recorded
/// when none was; nothing else changes.
pub open spec fn ending_saved(before: Save, after: Save, ch: Seq<char>) -> bool {
    &&& strs(after.discovered.endings@) == push_dedup_spec(strs(before.discovered.endings@), ch)
    &&& after.discovered == (Discovered { endings: after.discovered.endings, ..before.discovered })
    &&& after.viewed_outros@.remove(ch) == before.viewed_outros@.remove(ch)
    &&& before.viewed_outros@.contains_key(ch) ==> after.viewed_outros@ == before.viewed_outros@
    &&& after == (Save { discovered: after.discovered, viewed_outros: after.viewed_outros, ..before })
}

/// What acknowledging a chapter intro does: the entry is finished in place
/// (the chapter-start checkpoint taken when the intro asked for one), the
/// records are kept, and the scene is described, unless a narrative item
/// due comes first.
pub open spec fn intro_acked<B: SaveBackend>(r: Outcome, before: Session<B>, after: Session<B>) -> bool {
    let create = before.pending matches PendingAction::Intro { create_checkpoint } && create_checkpoint;
    &&& extends(before.written@, after.written@)
    &&& after.engine == before.engine
    &&& after.save.current_chapter == before.save.current_chapter
    &&& after.save.current_scene == before.save.current_scene
    &&& after.save.current_world == before.save.current_world
    &&& after.save.chapter_path == before.save.chapter_path
    &&& after.state == SessionState::Exploring || after.state == SessionState::ShowingNarrative
    &&& after.state == SessionState::Exploring ==> is_info(r, description_or_missing(before.engine, before.save))
        && after.pending is Idle
    &&& after.state == SessionState::ShowingNarrative ==> r is Narrative
    &&& create && before.save.checkpoints@.len() < usize::MAX ==> after.save.checkpoints@.len()
        == before.save.checkpoints@.len() + 1 && after.save.checkpoints@.last().chapter@ == before.save.current_chapter@
        && after.save.checkpoints@.last().kind == crate::save::schema::CheckpointKind::ChapterStart
    &&& !create ==> after.save.checkpoints == before.save.checkpoints
    &&& keeps_records(before.save, after.save)
}

/// What "continue" on the title screen does: a save that cannot be loaded
/// is refused with nothing changed; otherwise the loaded save is repaired
/// and either the advance it was left before is made, or the scene is
/// described after the repairs (and the note of a recovery from the backup).
pub open spec fn continued<B: SaveBackend>(r: Outcome, before: Session<B>, after: Session<B>) -> bool {
    let refused = is_error(r, "存档加载失败。"@) && after.save == before.save && after.state == before.state
        && after.pending == before.pending;
    &&& after.engine == before.engine
    &&& refused || continued_from_load(r, before, after)
    &&& before.store.modeled() && !holds_save(before.store) ==> refused
    &&& before.store.modeled() && holds_save(before.store) ==> continued_from_load(r, before, after)
}

/// `save` is what loading from a modeled backend gives: the main file's
/// save, else the backup's, brought to the current version.
pub open spec fn loaded_from<B: SaveBackend>(store: B, save: Save) -> bool {
    store.modeled() ==> match (store.main_save(), store.backup_save()) {
        (Some(m), _) => same_save(save, Save { version: CURRENT_VERSION, ..m }),
        (None, Some(b)) => same_save(save, Save { version: CURRENT_VERSION, ..b }),
        _ => true,
    }
}

/// Quitting writes the working save, and continuing afterwards loads it
/// back: with a modeled backend, the save that "continue" loads holds the
/// data of the save written on quitting (the working save with the current
/// version and a fresh time).
pub proof fn lemma_quit_then_continue<B: SaveBackend>(
    r1: Outcome,
    r2: Outcome,
    s0: Session<B>,
    s1: Session<B>,
    s2: Session<B>,
    save: Save,
)
    requires
        s0.store.modeled(),
        quit_answer(r1, s0, s1),
        continued(r2, s1, s2),
        loaded_from(s1.store, save),
    ensures
        r1 is QuitRequested,
        continued_from_load(r2, s1, s2),
        stamped(s0.save, s1.written@.last()),
        same_save(save, s1.written@.last()),
{
    let w = s1.written@.last();
    let m = s1.store.main_save()->0;
    lemma_same_save_equivalence(save, Save { version: CURRENT_VERSION, ..m }, w);
}

/// A loaded save was continued: repaired; the advance it was left before is
/// made when its chapter is complete, otherwise the scene is described after
/// the repairs (and the note of a recovery from the backup).
pub open spec fn continued_from_load<B: SaveBackend>(r: Outcome, before: Session<B>, after: Session<B>) -> bool {
    exists|save: Save, s1: Save| #[trigger] reconciled(before.engine, save, s1) && loaded_from(before.store, save) && (chapter_done(
        before.engine,
        s1,
        s1.current_chapter@,
    ) ==> exists|o: Outcome| #[trigger] advanced(None, o, (Session { save: s1, ..before }), after)) && (!chapter_done(
        before.engine,
        s1,
        s1.current_chapter@,
    ) ==> after.save == s1 && after.state == SessionState::Exploring && after.pending is Idle && continued_lines(
        r,
        reconcile_warnings(before.engine, save),
        description_or_missing(before.engine, s1),
    ))
}

/// The scene of `save` described as the answer: directly while exploring,
/// or, when a narrative item due comes first, kept as what follows it.
pub open spec fn scene_shown<B: SaveBackend>(r: Outcome, after: Session<B>, e: ContentEngine, save: Save) -> bool {
    &&& after.state == SessionState::Exploring || after.state == SessionState::ShowingNarrative
    &&& after.state == SessionState::Exploring ==> is_info(r, description_or_missing(e, save)) && after.pending is Idle
    &&& after.state == SessionState::ShowingNarrative ==> r is Narrative && match after.pending {
        PendingAction::Narrative { follow_up: Some(FollowUp::Show(b)) } => is_info(b, description_or_missing(e, save)),
        _ => false,
    }
}

/// The path after entering chapter `ch` anew: `ch` is appended unless the
/// path already ends with it.
pub open spec fn path_entered(path: Seq<Seq<char>>, ch: Seq<char>) -> Seq<Seq<char>> {
    if path.len() > 0 && path.last() == ch {
        path
    } else {
        path.push(ch)
    }
}

/// The line that heads the message of an automatic advance.
pub open spec fn advance_head(prelude: Option<String>) -> Seq<Seq<char>> {
    match prelude {
        Some(p) => seq![p@, "[必要审判已完成，自动推进章节]"@],
        None => seq!["[必要审判已完成，自动推进章节]"@],
    }
}

/// The prelude as lines (none without one).
pub open spec fn prelude_lines(prelude: Option<String>) -> Seq<Seq<char>> {
    match prelude {
        Some(p) => seq![p@],
        None => Seq::empty(),
    }
}

/// What entering the next chapter `next` answers: its intro after the
/// prelude; without an intro, the scene described under the advance
/// heading, or a narrative item due first (the description follows it).
pub open spec fn next_entered<B: SaveBackend>(prelude: Option<String>, r: Outcome, after: Session<B>, e: ContentEngine, next: Seq<char>) -> bool {
    match e.spec_intro(next) {
        Some(t) => r is ChapterIntro && r->ChapterIntro_text@ == with_prelude(prelude, t) && after.state
            == SessionState::ShowingIntro,
        None => {
            &&& after.state == SessionState::Exploring || after.state == SessionState::ShowingNarrative
            &&& after.state == SessionState::Exploring ==> is_message(
                r,
                MessageLevel::Info,
                advance_head(prelude) + seq![description_or_missing(e, after.save)],
            ) && after.pending is Idle
            &&& after.state == SessionState::ShowingNarrative ==> r is Narrative && match after.pending {
                PendingAction::Narrative { follow_up: Some(FollowUp::Show(b)) } => is_info(
                    b,
                    description_or_missing(e, after.save),
                ),
                _ => false,
            }
        },
    }
}

/// What the advance after a chapter's last needed judgment does: an ending
/// chapter is reached (its outro shown, or the ending screen); otherwise the
/// next chapter is entered, or, with none to go to, the player stays and is
/// told; the records are kept.
pub open spec fn advanced<B: SaveBackend>(prelude: Option<String>, r: Outcome, before: Session<B>, after: Session<B>) -> bool {
    let ch = before.save.current_chapter@;
    &&& after.engine == before.engine
    &&& lookup_key(before.engine.chapters@, ch) is None ==> is_info(r, "无法定位当前章节。"@) && after.state
        == SessionState::Exploring && after.save == before.save
    &&& lookup_key(before.engine.chapters@, ch) is Some && lookup_key(before.engine.chapters@, ch)->0.ending ==> (
    strs(after.save.discovered.endings@).contains(ch) && after.save.current_chapter == before.save.current_chapter
        && ending_saved(before.save, after.save, ch) && match before.engine.spec_outro(ch) {
        Some(t) => after.state == SessionState::ShowingOutro && r is ChapterOutro && r->ChapterOutro_text@
            == with_prelude(prelude, t),
        None => after.state == SessionState::Ending && r is EndingReached,
    })
    &&& lookup_key(before.engine.chapters@, ch) is Some && !lookup_key(before.engine.chapters@, ch)->0.ending ==> match before.engine.spec_next_chapter(
        ch,
        spec_factset(before.save),
    ) {
        Some(next) => lookup_key(before.engine.chapters@, next) is Some ==> at_chapter_start(
            before.engine,
            after.save,
            next,
        ) && strs(after.save.discovered.chapters@).contains(next) && strs(after.save.chapter_path@) == path_entered(
            strs(before.save.chapter_path@),
            next,
        ) && next_entered(prelude, r, after, before.engine, next),
        None => after.state == SessionState::Exploring && after.save == before.save && is_message(
            r,
            MessageLevel::Info,
            prelude_lines(prelude) + seq!["[无法推进到下一章节]"@],
        ),
    }
    &&& keeps_records(before.save, after.save)
}

impl<B: SaveBackend> Session<B> {
    /// Whether the current chapter's needed judgments are all made.
    pub(crate) fn current_chapter_done(&self) -> (r: bool)
        ensures
            r == chapter_done(self.engine, self.save, self.save.current_chapter@),
    {
        let ch = self.save.current_chapter.as_str();
        let chapter = match self.engine.get_chapter(ch) {
            Some(c) => c,
            None => {
                return false;
            },
        };
        let facts = build_factset(&self.save);
        let js = self.engine.get_judgments(ch);
        let mut ids: Vec<String> = Vec::new();
        let mut i: usize = 0;
        while i < js.len()
            invariant
                i <= js@.len(),
                ids@.len() == i,
                forall|k: int| 0 <= k < i ==> #[trigger] ids@[k]@ == js@[k].id@,
            decreases js@.len() - i,
        {
            ids.push(owned(js[i].id.as_str()));
            i += 1;
        }
        let r = chapter_complete(chapter, &facts, ids.as_slice());
        proof {
            if chapter.required_judgments is None {
                assert(all_in(ids@, facts@) == all_judged(js@, facts@)) by {
                    if all_in(ids@, facts@) {
                        assert forall|k: int| 0 <= k < js@.len() implies facts@.contains(#[trigger] js@[k].id@) by {
                            assert(facts@.contains(ids@[k]@));
                        }
                    }
                    if all_judged(js@, facts@) {
                        assert forall|k: int| 0 <= k < ids@.len() implies facts@.contains(#[trigger] ids@[k]@) by {
                            assert(facts@.contains(js@[k].id@));
                        }
                    }
                }
            }
        }
        r
    }

    /// Start a new game: the slot is cleared and a fresh save is written at
    /// the first chapter, which is then entered.
    pub fn start_new_game(&mut self) -> (r: Outcome)
        requires
            old(self).inv(),
        ensures
            final(self).inv(),
            new_game_answer(r, *old(self), *final(self)),
    {
        let first = match self.engine.first_chapter_id() {
            Some(c) => owned(c),
            None => {
                return info_line("找不到首章（内容校验未通过）。");
            },
        };
        let scene = match self.engine.get_chapter(first.as_str()) {
            Some(ch) => owned(ch.starting_scene.as_str()),
            None => {
                return info_line("首章数据缺失。");
            },
        };
        if scene.unicode_len() == 0 {
            return info_line("首章缺少 starting_scene。");
        }
        match self.store.clear() {
            Ok(()) => {},
            Err(e) => {
                let d = e.describe();
                let r = info_line(join("无法初始化新游戏：", d.as_str()).as_str());
                assert(is_info(r, "无法初始化新游戏："@ + d@));
                return r;
            },
        }
        let now = self.store.now_iso();
        let fresh = Save::new_game(first.as_str(), scene.as_str(), now);
        match self.store.write_save(&fresh) {
            Ok(()) => {},
            Err(e) => {
                let d = e.describe();
                let r = info_line(join("无法初始化新游戏：", d.as_str()).as_str());
                assert(is_info(r, "无法初始化新游戏："@ + d@));
                return r;
            },
        }
        proof {
            self.written = Ghost(self.written@.push(fresh));
            assert(fresh_save(self.engine, fresh));
        }
        let ghost n = old(self).written@.len() as int;
        self.save = fresh;
        self.pending = PendingAction::Idle;
        self.state = SessionState::Title;
        self.hints = Hints::new();
        let r = self.enter_chapter(first.as_str(), false);
        assert(self.written@[n] == fresh);
        r
    }

    /// Enter a chapter at its starting scene on the surface. A new entry also
    /// extends the path and the discovered chapters. The intro, when there is
    /// one, is recorded and shown first (the chapter-start checkpoint is taken
    /// once it is acknowledged); otherwise the entry is finished at once.
    pub(crate) fn enter_chapter(&mut self, chapter_id: &str, new_entry: bool) -> (r: Outcome)
        requires
            old(self).inv(),
        ensures
            extends(old(self).written@, final(self).written@),
            final(self).inv(),
            final(self).engine == old(self).engine,
            lookup_key(old(self).engine.chapters@, chapter_id@) is None ==> is_info(
                r,
                "章节不存在："@ + chapter_id@,
            ) && *final(self) == *old(self),
            lookup_key(old(self).engine.chapters@, chapter_id@) is Some ==> at_chapter_start(
                old(self).engine,
                final(self).save,
                chapter_id@,
            ),
            lookup_key(old(self).engine.chapters@, chapter_id@) is Some && new_entry ==> strs(
                final(self).save.chapter_path@,
            ) == path_entered(strs(old(self).save.chapter_path@), chapter_id@) && strs(
                final(self).save.discovered.chapters@,
            ).contains(chapter_id@),
            lookup_key(old(self).engine.chapters@, chapter_id@) is Some && !new_entry ==> final(self).save.chapter_path
                == old(self).save.chapter_path,
            lookup_key(old(self).engine.chapters@, chapter_id@) is Some && old(self).engine.spec_intro(chapter_id@) is Some
                ==> r is ChapterIntro && r->ChapterIntro_text@ == old(self).engine.spec_intro(chapter_id@)->0
                && final(self).state == SessionState::ShowingIntro
                && final(self).pending == (PendingAction::Intro { create_checkpoint: true }),
            lookup_key(old(self).engine.chapters@, chapter_id@) is Some && old(self).engine.spec_intro(chapter_id@) is None
                ==> scene_shown(r, *final(self), old(self).engine, final(self).save),
            keeps_records(old(self).save, final(self).save),
    {
        let chapter = match self.engine.get_chapter(chapter_id) {
            Some(c) => c,
            None => {
                return info_line(join("章节不存在：", chapter_id).as_str());
            },
        };
        let scene = owned(chapter.starting_scene.as_str());
        if new_entry {
            let n = self.save.chapter_path.len();
            let same_last = n > 0 && str_eq(self.save.chapter_path[n - 1].as_str(), chapter_id);
            if !same_last {
                self.save.chapter_path.push(owned(chapter_id));
            }
            proof {
                assert(strs(self.save.chapter_path@) =~= path_entered(strs(old(self).save.chapter_path@), chapter_id@));
            }
            self.save.discovered.add_chapter(chapter_id);
            proof {
                assert(strs(self.save.discovered.chapters@).contains(chapter_id@)) by {
                    let d = strs(self.save.discovered.chapters@);
                    if d.len() > 0 && d.last() == chapter_id@ {
                        assert(d[d.len() - 1] == chapter_id@);
                    }
                }
            }
        }
        self.save.current_chapter = owned(chapter_id);
        self.save.current_scene = scene;
        self.save.current_world = World::Surface;
        match self.engine.get_intro_text(chapter_id) {
            Some(t) => {
                let text = owned(t);
                if !self.save.viewed_intros.contains_key(chapter_id) {
                    let rel = intro_snapshot_path(chapter_id);
                    match self.store.write_snapshot(rel.as_str(), text.as_str()) {
                        Ok(path) => {
                            self.save.viewed_intros.insert(owned(chapter_id), path);
                        },
                        Err(_) => {},
                    }
                }
                self.pending = PendingAction::Intro { create_checkpoint: true };
                self.state = SessionState::ShowingIntro;
                self.persist();
                Outcome::ChapterIntro { text }
            },
            None => self.finalize_chapter_entry(true),
        }
    }

    /// Acknowledge an intro: the entry is finished, with the chapter-start
    /// checkpoint when the intro asked for one.
    pub(crate) fn ack_intro(&mut self) -> (r: Outcome)
        requires
            old(self).inv(),
        ensures
            final(self).inv(),
            intro_acked(r, *old(self), *final(self)),
    {
        let mut pending = PendingAction::Idle;
        std::mem::swap(&mut pending, &mut self.pending);
        let create = match pending {
            PendingAction::Intro { create_checkpoint } => create_checkpoint,
            _ => false,
        };
        self.state = SessionState::Exploring;
        self.finalize_chapter_entry(create)
    }

    /// Finish entering a chapter: take the chapter-start checkpoint if asked,
    /// write the save and describe the scene (narrative items due first).
    pub(crate) fn finalize_chapter_entry(&mut self, create_ckpt: bool) -> (r: Outcome)
        requires
            old(self).inv(),
        ensures
            extends(old(self).written@, final(self).written@),
            final(self).inv(),
            final(self).engine == old(self).engine,
            final(self).save.current_chapter == old(self).save.current_chapter,
            final(self).save.current_scene == old(self).save.current_scene,
            final(self).save.current_world == old(self).save.current_world,
            final(self).save.chapter_path == old(self).save.chapter_path,
            final(self).save.discovered.chapters == old(self).save.discovered.chapters,
            final(self).state == SessionState::Exploring || final(self).state == SessionState::ShowingNarrative,
            create_ckpt && old(self).save.checkpoints@.len() < usize::MAX ==> final(self).save.checkpoints@.len()
                == old(self).save.checkpoints@.len() + 1 && final(self).save.checkpoints@.last().chapter@
                == old(self).save.current_chapter@ && final(self).save.checkpoints@.last().kind
                == crate::save::schema::CheckpointKind::ChapterStart,
            !create_ckpt ==> final(self).save.checkpoints == old(self).save.checkpoints,
            keeps_records(old(self).save, final(self).save),
            scene_shown(r, *final(self), old(self).engine, old(self).save),
    {
        if create_ckpt && self.save.checkpoints.len() < usize::MAX {
            let ch = owned(self.save.current_chapter.as_str());
            let scene = owned(self.save.current_scene.as_str());
            let world = self.save.current_world;
            let now = self.store.now_iso();
            let ghost before = self.save;
            create_chapter_start(&mut self.save, ch.as_str(), scene.as_str(), world, now.as_str());
            proof {
                assert forall|i: int| 0 <= i < before.checkpoints@.len() implies #[trigger] self.save.checkpoints@[i]
                    == before.checkpoints@[i] by {
                    assert(self.save.checkpoints@.take(before.checkpoints@.len() as int)[i] == before.checkpoints@[i]);
                }
            }
        }
        self.pending = PendingAction::Idle;
        self.state = SessionState::Exploring;
        self.persist();
        let lines = self.scene_description_messages();
        self.then_narrative(Outcome::Message(Message::info(lines)))
    }

    /// Show the ending screen.
    pub(crate) fn to_ending(&mut self) -> (r: Outcome)
        requires
            old(self).inv(),
        ensures
            final(self).inv(),
            final(self).state == SessionState::Ending,
            final(self).save == old(self).save,
            final(self).engine == old(self).engine,
            r matches Outcome::EndingReached { found, .. } && found == old(self).save.discovered.endings@.len(),
    {
        self.state = SessionState::Ending;
        self.ending_outcome()
    }

    /// The ending screen: the chapter's title and how many endings of all
    /// were found.
    pub(crate) fn ending_outcome(&self) -> (r: Outcome)
        ensures
            r matches Outcome::EndingReached { title, found, total } && found == self.save.discovered.endings@.len()
                && total == self.engine.endings_upto(self.engine.chapters@.len() as int).len()
                && title@ == crate::engine::note_view::chapter_title(self.engine, self.save.current_chapter@),
    {
        let title = match self.engine.get_chapter(self.save.current_chapter.as_str()) {
            Some(c) => owned(c.title.as_str()),
            None => String::new(),
        };
        let total = self.engine.ending_chapter_ids().len();
        let found = self.save.discovered.endings.len();
        Outcome::EndingReached { title, found, total }
    }

    /// Advance past a completed chapter. An ending chapter is recorded as
    /// found and shows its outro (after `prelude`) or the ending screen;
    /// another chapter enters the next chapter its branches pick, with
    /// `prelude` in front of what that entry shows.
    pub(crate) fn advance_after_judgment(&mut self, prelude: Option<String>) -> (r: Outcome)
        requires
            old(self).inv(),
        ensures
            final(self).inv(),
            advanced(prelude, r, *old(self), *final(self)),
    {
        let ghost pre = prelude;
        let ch = owned(self.save.current_chapter.as_str());
        let chapter = match self.engine.get_chapter(ch.as_str()) {
            Some(c) => c,
            None => {
                self.state = SessionState::Exploring;
                return info_line("无法定位当前章节。");
            },
        };
        if chapter.ending {
            self.save.discovered.add_ending(ch.as_str());
            proof {
                let d = strs(self.save.discovered.endings@);
                if d.len() > 0 && d.last() == ch@ {
                    assert(d[d.len() - 1] == ch@);
                }
            }
            self.persist();
            match self.engine.get_outro_text(ch.as_str()) {
                Some(t) => {
                    let outro = owned(t);
                    if !self.save.viewed_outros.contains_key(ch.as_str()) {
                        let rel = outro_snapshot_path(ch.as_str());
                        match self.store.write_snapshot(rel.as_str(), outro.as_str()) {
                            Ok(path) => {
                                let ghost v0 = self.save.viewed_outros@;
                                self.save.viewed_outros.insert(owned(ch.as_str()), path);
                                assert(self.save.viewed_outros@.remove(ch@) =~= v0.remove(ch@));
                            },
                            Err(_) => {},
                        }
                    }
                    self.pending = PendingAction::Idle;
                    self.state = SessionState::ShowingOutro;
                    self.persist();
                    let text = match prelude {
                        Some(p) => if p.unicode_len() > 0 {
                            join3(p.as_str(), "\n\n", outro.as_str())
                        } else {
                            outro
                        },
                        None => outro,
                    };
                    return Outcome::ChapterOutro { text };
                },
                None => {
                    self.pending = PendingAction::Idle;
                    self.state = SessionState::Ending;
                    return self.ending_outcome();
                },
            }
        }
        let facts = build_factset(&self.save);
        let next = match self.engine.get_next_chapter(ch.as_str(), &facts) {
            Some(n) => owned(n),
            None => {
                self.state = SessionState::Exploring;
                let mut msgs: Vec<String> = Vec::new();
                match prelude {
                    Some(p) => msgs.push(p),
                    None => {},
                }
                msgs.push(owned("[无法推进到下一章节]"));
                assert(strs(msgs@) =~= prelude_lines(pre) + seq!["[无法推进到下一章节]"@]);
                return Outcome::Message(Message::info(msgs));
            },
        };
        let outcome = self.enter_chapter(next.as_str(), true);
        let head_line = "[必要审判已完成，自动推进章节]";
        proof {
            reveal_strlit("[必要审判已完成，自动推进章节]");
        }
        match prelude {
            Some(p) => match outcome {
                Outcome::ChapterIntro { text } => {
                    if p.unicode_len() > 0 {
                        Outcome::ChapterIntro { text: join3(p.as_str(), "\n\n", text.as_str()) }
                    } else {
                        Outcome::ChapterIntro { text }
                    }
                },
                Outcome::Message(message) => {
                    let ghost base = strs(message.lines@);
                    let ghost pv = p@;
                    let mut lines: Vec<String> = vec![p, owned(head_line)];
                    let mut rest = message.lines;
                    lines.append(&mut rest);
                    assert(strs(lines@) =~= seq![pv, "[必要审判已完成，自动推进章节]"@] + base);
                    Outcome::Message(Message { level: message.level, lines })
                },
                other => other,
            },
            None => match outcome {
                Outcome::Message(message) => {
                    let ghost base = strs(message.lines@);
                    let mut lines = message.lines;
                    lines.insert(0, owned(head_line));
                    assert(strs(lines@) =~= seq!["[必要审判已完成，自动推进章节]"@] + base);
                    Outcome::Message(Message { level: message.level, lines })
                },
                other => other,
            },
        }
    }

    /// Advance, then add the map hint to the message the advance gave.
    pub(crate) fn advance_with_hint(&mut self, prelude: Option<String>, map_hint: Option<String>) -> (r: Outcome)
        requires
            old(self).inv(),
        ensures
            final(self).inv(),
            final(self).engine == old(self).engine,
            keeps_records(old(self).save, final(self).save),
            exists|o: Outcome| #[trigger] advanced(prelude, o, *old(self), *final(self)) && if map_hint is Some
                && o is Message {
                r is Message && r->Message_0.level == o->Message_0.level && strs(r->Message_0.lines@) == strs(
                    o->Message_0.lines@,
                ).push(map_hint->0@)
            } else {
                r == o
            },
    {
        let ghost pre = prelude;
        let outcome = self.advance_after_judgment(prelude);
        let ghost o = outcome;
        proof {
            assert(advanced(pre, o, *old(self), *self));
        }
        match map_hint {
            Some(hint) => match outcome {
                Outcome::Message(message) => {
                    let ghost before = strs(message.lines@);
                    let mut lines = message.lines;
                    lines.push(hint);
                    proof {
                        assert(strs(lines@) =~= before.push(map_hint->0@));
                    }
                    Outcome::Message(Message { level: message.level, lines })
                },
                other => other,
            },
            None => outcome,
        }
    }

    /// Continue a loaded save: stale content references are repaired first
    /// (the repairs are shown as a warning). A save whose current chapter is
    /// already complete was left between a judgment and the advance it
    /// caused; the advance is made now. Otherwise the scene is described.
    pub fn continue_with(&mut self, save: Save) -> (r: Outcome)
        requires
            old(self).inv(),
        ensures
            final(self).inv(),
            final(self).engine == old(self).engine,
            exists|s1: Save| #[trigger] reconciled(old(self).engine, save, s1) && (chapter_done(
                old(self).engine,
                s1,
                s1.current_chapter@,
            ) ==> advanced(None, r, (Session { save: s1, ..*old(self) }), *final(self))) && (!chapter_done(
                old(self).engine,
                s1,
                s1.current_chapter@,
            ) ==> final(self).save == s1 && final(self).state == SessionState::Exploring && final(self).pending is Idle
                && is_message(
                r,
                if reconcile_warnings(old(self).engine, save).len() > 0 {
                    MessageLevel::Warning
                } else {
                    MessageLevel::Info
                },
                reconcile_warnings(old(self).engine, save) + seq![description_or_missing(old(self).engine, s1)],
            )),
    {
        self.save = save;
        self.pending = PendingAction::Idle;
        self.hints = Hints::new();
        let warnings = reconcile_save(&mut self.save, &self.engine);
        let ghost s1 = self.save;
        self.state = SessionState::Exploring;
        if self.current_chapter_done() {
            let ghost at = *self;
            let r = self.advance_after_judgment(None);
            assert(reconciled(old(self).engine, save, s1));
            assert(at.save == (Session { save: s1, ..*old(self) }).save);
            assert(advanced(None, r, at, *self));
            return r;
        }
        self.state = SessionState::Exploring;
        let has_warnings = warnings.len() > 0;
        let ghost ws = strs(warnings@);
        let mut msgs = warnings;
        let mut desc = self.scene_description_messages();
        let ghost d = desc@;
        msgs.append(&mut desc);
        proof {
            assert(strs(msgs@) =~= ws + strs(d));
            assert(ws.len() == warnings@.len());
        }
        let message = if has_warnings {
            Message::warning(msgs)
        } else {
            Message::info(msgs)
        };
        assert(reconciled(old(self).engine, save, s1));
        Outcome::Message(message)
    }

    /// "Continue" on the title screen: load the save (the backup when the
    /// main file is broken) and continue it; a main file that cannot be read
    /// at all is set aside.
    pub(crate) fn continue_saved(&mut self) -> (r: Outcome)
        requires
            old(self).inv(),
        ensures
            final(self).inv(),
            continued(r, *old(self), *final(self)),
    {
        let main = self.store.read_main();
        let bak = self.store.read_backup();
        match resolve_load(main, bak) {
            LoadResult::Save(save, report) => {
                let ghost loaded = save;
                let outcome = self.continue_with(save);
                let ghost s1 = choose|s1: Save| #[trigger] reconciled(old(self).engine, loaded, s1) && (chapter_done(
                    old(self).engine,
                    s1,
                    s1.current_chapter@,
                ) ==> advanced(None, outcome, (Session { save: s1, ..*old(self) }), *self)) && (!chapter_done(
                    old(self).engine,
                    s1,
                    s1.current_chapter@,
                ) ==> self.save == s1 && self.state == SessionState::Exploring && self.pending is Idle && is_message(
                    outcome,
                    if reconcile_warnings(old(self).engine, loaded).len() > 0 {
                        MessageLevel::Warning
                    } else {
                        MessageLevel::Info
                    },
                    reconcile_warnings(old(self).engine, loaded) + seq![description_or_missing(old(self).engine, s1)],
                ));
                let ghost o = outcome;
                let warnings = report.warning_messages();
                let r = match outcome {
                    Outcome::Message(message) => {
                        let ghost base = strs(message.lines@);
                        let mut lines = message.lines;
                        let mut i: usize = 0;
                        while i < warnings.len()
                            invariant
                                i <= warnings@.len(),
                                warnings@.len() <= 1,
                                warnings@.len() == 1 ==> warnings@[0]@ == "存档文件损坏，已从备份恢复"@,
                                i == 0 ==> strs(lines@) == base,
                                i == 1 ==> strs(lines@) == seq!["存档文件损坏，已从备份恢复"@] + base,
                            decreases warnings@.len() - i,
                        {
                            lines.insert(0, owned(warnings[i].as_str()));
                            proof {
                                assert(strs(lines@) =~= seq!["存档文件损坏，已从备份恢复"@] + base);
                            }
                            i += 1;
                        }
                        Outcome::Message(Message { level: message.level, lines })
                    },
                    other => other,
                };
                proof {
                    assert(reconciled(old(self).engine, loaded, s1));
                    if chapter_done(old(self).engine, s1, s1.current_chapter@) {
                        assert(advanced(None, o, (Session { save: s1, ..*old(self) }), *self));
                    }
                    assert(continued_from_load(r, *old(self), *self));
                }
                r
            },
            LoadResult::BothCorrupt => {
                let stamp = self.store.now_stamp();
                self.store.set_aside_main(stamp.as_str());
                error_line("存档加载失败。")
            },
            LoadResult::NoSave => error_line("存档加载失败。"),
        }
    }
}

} // verus!
