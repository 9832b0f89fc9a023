//! The notes: every dialogue, intro and outro, judgment and inner voice
//! recorded along the chapter path, with the texts read back from their
//! snapshots.

use vstd::prelude::*;

use crate::content::engine::ContentEngine;
use crate::content::models::{get_key_in, lookup_key, LEAVE_ATTEMPT_TRIGGER};
use crate::engine::outcome::{NoteDialogue, NoteJudgment, NoteNarrative, NoteView, NoteVoice};
use crate::engine::state::Session;
use crate::save::backend::SaveBackend;
use crate::save::schema::{JudgmentMade, NarrativeSeen, Save, ViewedDialogue};
use crate::text::{owned, str_eq, strs};
use crate::world::World;

verus! {

/// A character's display name: its name, or its id when unknown.
pub open spec fn char_name(e: ContentEngine, id: Seq<char>) -> Seq<char> {
    match lookup_key(e.characters@, id) {
        Some(c) => c.name@,
        None => id,
    }
}

/// A topic's label in a chapter: its label, or its id when unknown.
pub open spec fn topic_label(e: ContentEngine, chapter: Seq<char>, character: Seq<char>, topic: Seq<char>) -> Seq<char> {
    match lookup_key(e.spec_topics(chapter, character), topic) {
        Some(t) => t.label@,
        None => topic,
    }
}

/// A chapter's title, or nothing when unknown.
pub open spec fn chapter_title(e: ContentEngine, chapter: Seq<char>) -> Seq<char> {
    match lookup_key(e.chapters@, chapter) {
        Some(c) => c.title@,
        None => Seq::empty(),
    }
}

/// The name of a judgment's target, or nothing when unknown.
pub open spec fn judged_name(e: ContentEngine, chapter: Seq<char>, judgment: Seq<char>) -> Seq<char> {
    match lookup_key(e.spec_judgments(chapter), judgment) {
        Some(j) => match lookup_key(e.characters@, j.target@) {
            Some(c) => c.name@,
            None => Seq::empty(),
        },
        None => Seq::empty(),
    }
}

/// A voice's label: its narrative item's label; the leave attempt and
/// unknown ids get fixed labels.
pub open spec fn voice_label(e: ContentEngine, chapter: Seq<char>, id: Seq<char>) -> Seq<char> {
    match lookup_key(e.spec_narrative(chapter), id) {
        Some(n) => n.label@,
        None => if id == "leave_attempt"@ {
            "走不出去"@
        } else {
            "旁白"@
        },
    }
}

/// What a dialogue note shows besides its text: chapter, character id and
/// name, topic id and label, world.
pub type DialogueKey = (Seq<char>, Seq<char>, Seq<char>, Seq<char>, Seq<char>, World);

pub open spec fn dialogue_key(e: ContentEngine, ch: Seq<char>, d: ViewedDialogue) -> DialogueKey {
    (ch, d.character@, char_name(e, d.character@), d.topic@, topic_label(e, ch, d.character@, d.topic@), d.world)
}

pub open spec fn chapter_dialogues(e: ContentEngine, save: Save, ch: Seq<char>) -> Seq<DialogueKey> {
    if save.viewed_dialogues@.contains_key(ch) {
        save.viewed_dialogues@[ch]@.map_values(|d: ViewedDialogue| dialogue_key(e, ch, d))
    } else {
        Seq::empty()
    }
}

/// The dialogue notes of the first `n` chapters of the path.
pub open spec fn dialogues_upto(e: ContentEngine, save: Save, n: int) -> Seq<DialogueKey>
    decreases n,
{
    if n <= 0 {
        Seq::empty()
    } else {
        dialogues_upto(e, save, n - 1) + chapter_dialogues(e, save, save.chapter_path@[n - 1]@)
    }
}

/// Chapter, title and whether it is the outro.
pub type NarrativeKey = (Seq<char>, Seq<char>, bool);

pub open spec fn chapter_narratives(e: ContentEngine, save: Save, ch: Seq<char>) -> Seq<NarrativeKey> {
    let t = chapter_title(e, ch);
    (if save.viewed_intros@.contains_key(ch) { seq![(ch, t, false)] } else { Seq::empty() }) + (
    if save.viewed_outros@.contains_key(ch) { seq![(ch, t, true)] } else { Seq::empty() })
}

pub open spec fn narratives_upto(e: ContentEngine, save: Save, n: int) -> Seq<NarrativeKey>
    decreases n,
{
    if n <= 0 {
        Seq::empty()
    } else {
        narratives_upto(e, save, n - 1) + chapter_narratives(e, save, save.chapter_path@[n - 1]@)
    }
}

/// Chapter, judgment id and target name.
pub type JudgmentKey = (Seq<char>, Seq<char>, Seq<char>);

pub open spec fn chapter_judgments(e: ContentEngine, save: Save, ch: Seq<char>) -> Seq<JudgmentKey> {
    if save.judgments_made@.contains_key(ch) {
        save.judgments_made@[ch]@.map_values(
            |j: JudgmentMade| (ch, j.judgment@, judged_name(e, ch, j.judgment@)),
        )
    } else {
        Seq::empty()
    }
}

pub open spec fn judgments_upto(e: ContentEngine, save: Save, n: int) -> Seq<JudgmentKey>
    decreases n,
{
    if n <= 0 {
        Seq::empty()
    } else {
        judgments_upto(e, save, n - 1) + chapter_judgments(e, save, save.chapter_path@[n - 1]@)
    }
}

/// Chapter and label.
pub type VoiceKey = (Seq<char>, Seq<char>);

pub open spec fn chapter_voices(e: ContentEngine, save: Save, ch: Seq<char>) -> Seq<VoiceKey> {
    if save.viewed_narrative@.contains_key(ch) {
        save.viewed_narrative@[ch]@.map_values(|n: NarrativeSeen| (ch, voice_label(e, ch, n.id@)))
    } else {
        Seq::empty()
    }
}

pub open spec fn voices_upto(e: ContentEngine, save: Save, n: int) -> Seq<VoiceKey>
    decreases n,
{
    if n <= 0 {
        Seq::empty()
    } else {
        voices_upto(e, save, n - 1) + chapter_voices(e, save, save.chapter_path@[n - 1]@)
    }
}

pub open spec fn note_dialogue_key(d: NoteDialogue) -> DialogueKey {
    (d.chapter@, d.character_id@, d.character_name@, d.topic_id@, d.topic_label@, d.world)
}

pub open spec fn note_narrative_key(n: NoteNarrative) -> NarrativeKey {
    (n.chapter@, n.title@, n.is_outro)
}

pub open spec fn note_judgment_key(j: NoteJudgment) -> JudgmentKey {
    (j.chapter@, j.judgment_id@, j.target_name@)
}

pub open spec fn note_voice_key(v: NoteVoice) -> VoiceKey {
    (v.chapter@, v.label@)
}

/// The notes list, chapter by chapter along the path and in recording
/// order, what the save recorded.
pub open spec fn notes_of(e: ContentEngine, save: Save, v: NoteView) -> bool {
    let n = save.chapter_path@.len() as int;
    &&& v.dialogues@.map_values(|d: NoteDialogue| note_dialogue_key(d)) == dialogues_upto(e, save, n)
    &&& v.narratives@.map_values(|x: NoteNarrative| note_narrative_key(x)) == narratives_upto(e, save, n)
    &&& v.judgments@.map_values(|j: NoteJudgment| note_judgment_key(j)) == judgments_upto(e, save, n)
    &&& v.voices@.map_values(|x: NoteVoice| note_voice_key(x)) == voices_upto(e, save, n)
}

impl<B: SaveBackend> Session<B> {
    pub open spec fn notes_match(&self, v: NoteView) -> bool {
        notes_of(self.engine, self.save, v)
    }

    /// Build the notes.
    pub(crate) fn build_note_view(&self) -> (v: NoteView)
        ensures
            self.notes_match(v),
    {
        let mut view = NoteView {
            dialogues: Vec::new(),
            narratives: Vec::new(),
            judgments: Vec::new(),
            voices: Vec::new(),
        };
        let mut i: usize = 0;
        while i < self.save.chapter_path.len()
            invariant
                i <= self.save.chapter_path@.len(),
                view.dialogues@.map_values(|d: NoteDialogue| note_dialogue_key(d)) == dialogues_upto(
                    self.engine,
                    self.save,
                    i as int,
                ),
                view.narratives@.map_values(|x: NoteNarrative| note_narrative_key(x)) == narratives_upto(
                    self.engine,
                    self.save,
                    i as int,
                ),
                view.judgments@.map_values(|j: NoteJudgment| note_judgment_key(j)) == judgments_upto(
                    self.engine,
                    self.save,
                    i as int,
                ),
                view.voices@.map_values(|x: NoteVoice| note_voice_key(x)) == voices_upto(
                    self.engine,
                    self.save,
                    i as int,
                ),
            decreases self.save.chapter_path@.len() - i,
        {
            let ch = self.save.chapter_path[i].as_str();
            self.push_dialogue_notes(ch, &mut view.dialogues);
            self.push_narrative_notes(ch, &mut view.narratives);
            self.push_judgment_notes(ch, &mut view.judgments);
            self.push_voice_notes(ch, &mut view.voices);
            i += 1;
        }
        view
    }

    fn push_dialogue_notes(&self, ch: &str, out: &mut Vec<NoteDialogue>)
        ensures
            final(out)@.map_values(|d: NoteDialogue| note_dialogue_key(d)) == old(out)@.map_values(
                |d: NoteDialogue| note_dialogue_key(d),
            ) + chapter_dialogues(self.engine, self.save, ch@),
    {
        let ghost start = old(out)@.map_values(|d: NoteDialogue| note_dialogue_key(d));
        let list = match self.save.viewed_dialogues.get(ch) {
            Some(l) => l,
            None => {
                assert(start + chapter_dialogues(self.engine, self.save, ch@) =~= start);
                return;
            },
        };
        let ghost f = |d: ViewedDialogue| dialogue_key(self.engine, ch@, d);
        let mut k: usize = 0;
        while k < list.len()
            invariant
                k <= list@.len(),
                f == (|d: ViewedDialogue| dialogue_key(self.engine, ch@, d)),
                out@.map_values(|d: NoteDialogue| note_dialogue_key(d)) == start + list@.take(k as int).map_values(f),
            decreases list@.len() - k,
        {
            let d = &list[k];
            let name = match self.engine.get_character(d.character.as_str()) {
                Some(c) => owned(c.name.as_str()),
                None => owned(d.character.as_str()),
            };
            let topics = self.engine.get_topics(ch, d.character.as_str());
            let label = match get_key_in(topics, d.topic.as_str()) {
                Some(t) => owned(t.label.as_str()),
                None => owned(d.topic.as_str()),
            };
            let text = self.read_snapshot_or_missing(d.snapshot.as_str());
            let ghost before = out@.map_values(|x: NoteDialogue| note_dialogue_key(x));
            out.push(NoteDialogue {
                chapter: owned(ch),
                character_id: owned(d.character.as_str()),
                character_name: name,
                topic_id: owned(d.topic.as_str()),
                topic_label: label,
                world: d.world,
                text,
            });
            proof {
                assert(out@.map_values(|x: NoteDialogue| note_dialogue_key(x)) =~= before.push(f(list@[k as int])));
                assert(list@.take(k + 1) =~= list@.take(k as int).push(list@[k as int]));
                assert(list@.take(k + 1).map_values(f) =~= list@.take(k as int).map_values(f).push(f(list@[k as int])));
            }
            k += 1;
        }
        assert(list@.take(list@.len() as int) =~= list@);
    }

    fn push_narrative_notes(&self, ch: &str, out: &mut Vec<NoteNarrative>)
        ensures
            final(out)@.map_values(|x: NoteNarrative| note_narrative_key(x)) == old(out)@.map_values(
                |x: NoteNarrative| note_narrative_key(x),
            ) + chapter_narratives(self.engine, self.save, ch@),
    {
        let ghost start = old(out)@.map_values(|x: NoteNarrative| note_narrative_key(x));
        let title = match self.engine.get_chapter(ch) {
            Some(c) => owned(c.title.as_str()),
            None => String::new(),
        };
        let ghost t = chapter_title(self.engine, ch@);
        assert(title@ == t);
        if let Some(rel) = self.save.viewed_intros.get(ch) {
            let text = self.read_snapshot_or_missing(rel.as_str());
            out.push(NoteNarrative { chapter: owned(ch), title: owned(title.as_str()), is_outro: false, text });
        }
        let ghost mid = out@.map_values(|x: NoteNarrative| note_narrative_key(x));
        assert(mid =~= start + (if self.save.viewed_intros@.contains_key(ch@) { seq![(ch@, t, false)] } else { Seq::empty() }));
        if let Some(rel) = self.save.viewed_outros.get(ch) {
            let text = self.read_snapshot_or_missing(rel.as_str());
            out.push(NoteNarrative { chapter: owned(ch), title, is_outro: true, text });
        }
        assert(out@.map_values(|x: NoteNarrative| note_narrative_key(x)) =~= mid + (if self.save.viewed_outros@.contains_key(ch@) { seq![(ch@, t, true)] } else { Seq::empty() }));
    }

    fn push_judgment_notes(&self, ch: &str, out: &mut Vec<NoteJudgment>)
        ensures
            final(out)@.map_values(|j: NoteJudgment| note_judgment_key(j)) == old(out)@.map_values(
                |j: NoteJudgment| note_judgment_key(j),
            ) + chapter_judgments(self.engine, self.save, ch@),
    {
        let ghost start = old(out)@.map_values(|j: NoteJudgment| note_judgment_key(j));
        let list = match self.save.judgments_made.get(ch) {
            Some(l) => l,
            None => {
                assert(start + chapter_judgments(self.engine, self.save, ch@) =~= start);
                return;
            },
        };
        let ghost f = |j: JudgmentMade| (ch@, j.judgment@, judged_name(self.engine, ch@, j.judgment@));
        let mut k: usize = 0;
        while k < list.len()
            invariant
                k <= list@.len(),
                f == (|j: JudgmentMade| (ch@, j.judgment@, judged_name(self.engine, ch@, j.judgment@))),
                out@.map_values(|j: NoteJudgment| note_judgment_key(j)) == start + list@.take(k as int).map_values(f),
            decreases list@.len() - k,
        {
            let j = &list[k];
            let js = self.engine.get_judgments(ch);
            let target_name = match get_key_in(js, j.judgment.as_str()) {
                Some(x) => match self.engine.get_character(x.target.as_str()) {
                    Some(c) => owned(c.name.as_str()),
                    None => String::new(),
                },
                None => String::new(),
            };
            let text = self.read_snapshot_or_missing(j.result_snapshot.as_str());
            let ghost before = out@.map_values(|x: NoteJudgment| note_judgment_key(x));
            out.push(NoteJudgment {
                chapter: owned(ch),
                judgment_id: owned(j.judgment.as_str()),
                target_name,
                text,
            });
            proof {
                assert(out@.map_values(|x: NoteJudgment| note_judgment_key(x)) =~= before.push(f(list@[k as int])));
                assert(list@.take(k + 1) =~= list@.take(k as int).push(list@[k as int]));
                assert(list@.take(k + 1).map_values(f) =~= list@.take(k as int).map_values(f).push(f(list@[k as int])));
            }
            k += 1;
        }
        assert(list@.take(list@.len() as int) =~= list@);
    }

    fn push_voice_notes(&self, ch: &str, out: &mut Vec<NoteVoice>)
        ensures
            final(out)@.map_values(|x: NoteVoice| note_voice_key(x)) == old(out)@.map_values(
                |x: NoteVoice| note_voice_key(x),
            ) + chapter_voices(self.engine, self.save, ch@),
    {
        let ghost start = old(out)@.map_values(|x: NoteVoice| note_voice_key(x));
        let list = match self.save.viewed_narrative.get(ch) {
            Some(l) => l,
            None => {
                assert(start + chapter_voices(self.engine, self.save, ch@) =~= start);
                return;
            },
        };
        let ghost f = |n: NarrativeSeen| (ch@, voice_label(self.engine, ch@, n.id@));
        let mut k: usize = 0;
        while k < list.len()
            invariant
                k <= list@.len(),
                f == (|n: NarrativeSeen| (ch@, voice_label(self.engine, ch@, n.id@))),
                out@.map_values(|x: NoteVoice| note_voice_key(x)) == start + list@.take(k as int).map_values(f),
            decreases list@.len() - k,
        {
            let n = &list[k];
            let label = match self.engine.get_narrative_item(ch, n.id.as_str()) {
                Some(x) => owned(x.label.as_str()),
                None => if str_eq(n.id.as_str(), LEAVE_ATTEMPT_TRIGGER) {
                    owned("走不出去")
                } else {
                    owned("旁白")
                },
            };
            proof {
                reveal_strlit("leave_attempt");
            }
            let text = self.read_snapshot_or_missing(n.snapshot.as_str());
            let ghost before = out@.map_values(|x: NoteVoice| note_voice_key(x));
            out.push(NoteVoice { chapter: owned(ch), label, text });
            proof {
                assert(out@.map_values(|x: NoteVoice| note_voice_key(x)) =~= before.push(f(list@[k as int])));
                assert(list@.take(k + 1) =~= list@.take(k as int).push(list@[k as int]));
                assert(list@.take(k + 1).map_values(f) =~= list@.take(k as int).map_values(f).push(f(list@[k as int])));
            }
            k += 1;
        }
        assert(list@.take(list@.len() as int) =~= list@);
    }

    /// A snapshot's text, or a marker when it cannot be read.
    pub(crate) fn read_snapshot_or_missing(&self, rel: &str) -> String {
        match self.store.read_snapshot(rel) {
            Ok(text) => text,
            Err(_) => owned("该记录快照缺失"),
        }
    }
}

} // verus!
