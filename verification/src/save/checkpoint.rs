//! Checkpoints and rollback.
//!
//! The current game state is the `current_*` fields plus the three
//! authoritative per-chapter lists; `checkpoints` is only the history of
//! rollback targets. A rollback truncates the lists back to the lengths a
//! checkpoint recorded and never touches `discovered`.

use vstd::prelude::*;

use crate::error::AppError;
use crate::save::schema::{
    before_judgment_id_base, chapter_start_id_base, ckpt_ids, first_free_id, list_len,
    spec_before_judgment_base, spec_chapter_start_base, unique_checkpoint_id, Checkpoint,
    CheckpointKind, Save,
};
use crate::text::{first_index, lemma_first_index, owned, position_of, str_eq, strs};
use crate::world::World;

verus! {

/// Each list of a per-chapter map, by its view.
pub open spec fn views_of<T>(m: Map<Seq<char>, Vec<T>>) -> Map<Seq<char>, Seq<T>> {
    m.map_values(|v: Vec<T>| v@)
}

/// The chapter's list cut back to at most `n` items.
pub open spec fn truncated<T>(m: Map<Seq<char>, Seq<T>>, chapter: Seq<char>, n: nat) -> Map<
    Seq<char>,
    Seq<T>,
> {
    if m.contains_key(chapter) && n < m[chapter].len() {
        m.insert(chapter, m[chapter].take(n as int))
    } else {
        m
    }
}

/// The list a map holds for a chapter, empty when absent.
pub open spec fn list_at<T>(m: Map<Seq<char>, Seq<T>>, chapter: Seq<char>) -> Seq<T> {
    if m.contains_key(chapter) {
        m[chapter]
    } else {
        Seq::empty()
    }
}

/// `c` is the checkpoint taken of `save` with these fields.
pub open spec fn records(
    c: Checkpoint,
    save: Save,
    id: Seq<char>,
    chapter: Seq<char>,
    scene: Seq<char>,
    world: World,
    kind: CheckpointKind,
    now: Seq<char>,
) -> bool {
    &&& c.id@ == id
    &&& c.chapter@ == chapter
    &&& c.scene@ == scene
    &&& c.world == world
    &&& c.kind == kind
    &&& c.timestamp@ == now
    &&& c.state.clues_len == list_len(save.collected_clues@, chapter)
    &&& c.state.views_len == list_len(save.viewed_dialogues@, chapter)
    &&& c.state.judgments_len == list_len(save.judgments_made@, chapter)
}

/// `after` is `before` with one more checkpoint, `id`, taken of `before`.
pub open spec fn pushed(
    before: Save,
    after: Save,
    id: Seq<char>,
    chapter: Seq<char>,
    scene: Seq<char>,
    world: World,
    kind: CheckpointKind,
    now: Seq<char>,
) -> bool {
    &&& after.checkpoints@.len() == before.checkpoints@.len() + 1
    &&& after.checkpoints@.take(before.checkpoints@.len() as int) == before.checkpoints@
    &&& records(after.checkpoints@.last(), before, id, chapter, scene, world, kind, now)
    &&& after == (Save { checkpoints: after.checkpoints, ..before })
}

fn push_checkpoint(
    save: &mut Save,
    id: String,
    chapter: &str,
    scene: &str,
    world: World,
    kind: CheckpointKind,
    now: &str,
)
    ensures
        pushed(*old(save), *final(save), id@, chapter@, scene@, world, kind, now@),
{
    let state = Checkpoint::state_of(save, chapter);
    save.checkpoints.push(
        Checkpoint {
            id,
            chapter: owned(chapter),
            scene: owned(scene),
            world,
            kind,
            timestamp: owned(now),
            state,
        },
    );
    assert(save.checkpoints@.take(old(save).checkpoints@.len() as int) =~= old(save).checkpoints@);
}

/// Take a `ChapterStart` checkpoint on entering a chapter; returns its id,
/// the first of `ckpt_{chapter}_start`, `ckpt_{chapter}_start_2`, ... that is
/// not taken.
pub fn create_chapter_start(save: &mut Save, chapter: &str, scene: &str, world: World, now: &str) -> (r:
    String)
    requires
        old(save).checkpoints@.len() < usize::MAX,
    ensures
        first_free_id(spec_chapter_start_base(chapter@), ckpt_ids(old(save).checkpoints@), r@),
        pushed(
            *old(save),
            *final(save),
            r@,
            chapter@,
            scene@,
            world,
            CheckpointKind::ChapterStart,
            now@,
        ),
{
    let base = chapter_start_id_base(chapter);
    let id = unique_checkpoint_id(base.as_str(), save.checkpoints.as_slice());
    let r = owned(id.as_str());
    push_checkpoint(save, id, chapter, scene, world, CheckpointKind::ChapterStart, now);
    r
}

/// Take a `BeforeJudgment` checkpoint at the current scene and world; returns
/// its id, the first free one of `ckpt_before_{judgment}`, ...
pub fn create_before_judgment(save: &mut Save, chapter: &str, judgment_id: &str, now: &str) -> (r:
    String)
    requires
        old(save).checkpoints@.len() < usize::MAX,
    ensures
        first_free_id(spec_before_judgment_base(judgment_id@), ckpt_ids(old(save).checkpoints@), r@),
        pushed(
            *old(save),
            *final(save),
            r@,
            chapter@,
            old(save).current_scene@,
            old(save).current_world,
            CheckpointKind::BeforeJudgment,
            now@,
        ),
{
    let base = before_judgment_id_base(judgment_id);
    let id = unique_checkpoint_id(base.as_str(), save.checkpoints.as_slice());
    let r = owned(id.as_str());
    let scene = owned(save.current_scene.as_str());
    let world = save.current_world;
    push_checkpoint(save, id, chapter, scene.as_str(), world, CheckpointKind::BeforeJudgment, now);
    r
}

fn truncate_list<T>(m: &mut crate::strmap::StrMap<Vec<T>>, chapter: &str, n: usize)
    ensures
        views_of(final(m)@) == truncated(views_of(old(m)@), chapter@, n as nat),
{
    if m.contains_key(chapter) {
        let ghost m0 = m@;
        let ghost v0 = m0[chapter@]@;
        let v = m.get_or_insert_mut(chapter, Vec::new());
        v.truncate(n);
        proof {
            if n < v0.len() {
                assert(v@ == v0.take(n as int));
            } else {
                assert(v@ =~= v0);
            }
        }
        proof {
            assert(views_of(m@) =~= truncated(views_of(m0), chapter@, n as nat));
        }
    }
}

/// Restore the position a checkpoint recorded and cut its chapter's three
/// lists back to the recorded lengths.
pub fn rollback_to(save: &mut Save, ckpt: &Checkpoint)
    ensures
        final(save).current_chapter@ == ckpt.chapter@,
        final(save).current_scene@ == ckpt.scene@,
        final(save).current_world == ckpt.world,
        views_of(final(save).collected_clues@) == truncated(
            views_of(old(save).collected_clues@),
            ckpt.chapter@,
            ckpt.state.clues_len as nat,
        ),
        views_of(final(save).viewed_dialogues@) == truncated(
            views_of(old(save).viewed_dialogues@),
            ckpt.chapter@,
            ckpt.state.views_len as nat,
        ),
        views_of(final(save).judgments_made@) == truncated(
            views_of(old(save).judgments_made@),
            ckpt.chapter@,
            ckpt.state.judgments_len as nat,
        ),
        *final(save) == (Save {
            current_chapter: final(save).current_chapter,
            current_scene: final(save).current_scene,
            current_world: final(save).current_world,
            collected_clues: final(save).collected_clues,
            viewed_dialogues: final(save).viewed_dialogues,
            judgments_made: final(save).judgments_made,
            ..*old(save)
        }),
{
    save.current_chapter = owned(ckpt.chapter.as_str());
    save.current_scene = owned(ckpt.scene.as_str());
    save.current_world = ckpt.world;
    let ch = ckpt.chapter.as_str();
    truncate_list(&mut save.collected_clues, ch, ckpt.state.clues_len);
    truncate_list(&mut save.viewed_dialogues, ch, ckpt.state.views_len);
    truncate_list(&mut save.judgments_made, ch, ckpt.state.judgments_len);
}

/// Chapters a rollback to `chapter` drops from the path: those after the
/// chapter's first occurrence (none when the path lacks it).
pub open spec fn dropped_chapters(path: Seq<Seq<char>>, chapter: Seq<char>) -> Seq<Seq<char>> {
    if path.contains(chapter) {
        path.skip(first_index(path, chapter) + 1)
    } else {
        Seq::empty()
    }
}

/// The path a rollback to `chapter` keeps.
pub open spec fn kept_path(path: Seq<Seq<char>>, chapter: Seq<char>) -> Seq<Seq<char>> {
    if path.contains(chapter) {
        path.take(first_index(path, chapter) + 1)
    } else {
        path
    }
}

/// How many checkpoints stay after rolling back to the one at `idx`: a
/// chapter start keeps itself, a before-judgment one goes with the judgment.
pub open spec fn kept_checkpoints(kind: CheckpointKind, idx: int) -> int {
    match kind {
        CheckpointKind::ChapterStart => idx + 1,
        CheckpointKind::BeforeJudgment => idx,
    }
}

/// Everything a successful rollback to the checkpoint at `idx` of `before`
/// leaves in `after`.
pub open spec fn rolled_back(before: Save, after: Save, idx: int) -> bool {
    let ck = before.checkpoints@[idx];
    let dropped = dropped_chapters(strs(before.chapter_path@), ck.chapter@).to_set();
    &&& after.current_chapter@ == ck.chapter@
    &&& after.current_scene@ == ck.scene@
    &&& after.current_world == ck.world
    &&& views_of(after.collected_clues@) == truncated(
        views_of(before.collected_clues@),
        ck.chapter@,
        ck.state.clues_len as nat,
    ).remove_keys(dropped)
    &&& views_of(after.viewed_dialogues@) == truncated(
        views_of(before.viewed_dialogues@),
        ck.chapter@,
        ck.state.views_len as nat,
    ).remove_keys(dropped)
    &&& views_of(after.judgments_made@) == truncated(
        views_of(before.judgments_made@),
        ck.chapter@,
        ck.state.judgments_len as nat,
    ).remove_keys(dropped)
    &&& after.viewed_intros@ == before.viewed_intros@.remove_keys(dropped)
    &&& after.viewed_outros@ == before.viewed_outros@.remove_keys(dropped)
    &&& after.viewed_narrative@ == before.viewed_narrative@.remove_keys(dropped)
    &&& strs(after.chapter_path@) == kept_path(strs(before.chapter_path@), ck.chapter@)
    &&& after.checkpoints@ == before.checkpoints@.take(kept_checkpoints(ck.kind, idx))
    &&& after.version == before.version
    &&& after.timestamp == before.timestamp
    &&& after.discovered == before.discovered
}

proof fn lemma_remove_keys_step<V>(m: Map<Seq<char>, V>, ks: Seq<Seq<char>>, i: int)
    requires
        0 <= i < ks.len(),
    ensures
        m.remove_keys(ks.take(i + 1).to_set()) == m.remove_keys(ks.take(i).to_set()).remove(ks[i]),
{
    assert(ks.take(i + 1) =~= ks.take(i).push(ks[i]));
    assert(ks.take(i + 1).to_set() =~= ks.take(i).to_set().insert(ks[i])) by {
        crate::text::lemma_push_contains(ks.take(i), ks[i]);
    }
    assert(m.remove_keys(ks.take(i + 1).to_set()) =~= m.remove_keys(ks.take(i).to_set()).remove(
        ks[i],
    ));
}

proof fn lemma_views_remove<T>(m: Map<Seq<char>, Vec<T>>, k: Seq<char>)
    ensures
        views_of(m.remove(k)) == views_of(m).remove(k),
{
    assert(views_of(m.remove(k)) =~= views_of(m).remove(k));
}

pub(crate) fn checkpoint_index(cs: &[Checkpoint], id: &str) -> (r: Option<usize>)
    ensures
        r is None <==> !ckpt_ids(cs@).contains(id@),
        r matches Some(i) ==> i < cs@.len() && i as int == first_index(ckpt_ids(cs@), id@),
{
    let ghost ids = ckpt_ids(cs@);
    let mut i: usize = 0;
    while i < cs.len()
        invariant
            ids == ckpt_ids(cs@),
            i <= cs@.len(),
            forall|k: int| 0 <= k < i ==> cs@[k].id@ != id@,
        decreases cs@.len() - i,
    {
        if str_eq(cs[i].id.as_str(), id) {
            proof {
                assert(ids[i as int] == id@);
                assert forall|k: int| 0 <= k < i implies ids[k] != id@ by {
                    assert(ids[k] == cs@[k].id@);
                }
                lemma_first_index(ids, id@, i as int);
            }
            return Some(i);
        }
        i += 1;
    }
    proof {
        if ids.contains(id@) {
            let k = choose|k: int| 0 <= k < ids.len() && ids[k] == id@;
            assert(cs@[k].id@ == id@);
        }
    }
    None
}

fn copy_checkpoint(c: &Checkpoint) -> (r: Checkpoint)
    ensures
        r.id@ == c.id@,
        r.chapter@ == c.chapter@,
        r.scene@ == c.scene@,
        r.world == c.world,
        r.kind == c.kind,
        r.timestamp@ == c.timestamp@,
        r.state == c.state,
{
    Checkpoint {
        id: owned(c.id.as_str()),
        chapter: owned(c.chapter.as_str()),
        scene: owned(c.scene.as_str()),
        world: c.world,
        kind: c.kind,
        timestamp: owned(c.timestamp.as_str()),
        state: c.state,
    }
}

/// Roll back to the checkpoint `checkpoint_id` (its first occurrence): restore
/// its position and lists, drop the chapters after its chapter from the path
/// together with their facts, and drop the checkpoints it invalidates.
/// `discovered` is kept. An unknown id fails with a save error and changes
/// nothing.
pub fn map_checkpoint_rollback(save: &mut Save, checkpoint_id: &str) -> (r: Result<(), AppError>)
    ensures
        r is Err <==> !ckpt_ids(old(save).checkpoints@).contains(checkpoint_id@),
        r matches Err(e) ==> e matches AppError::Save(m) && m@ == "这个节点已经无法回到"@,
        r is Err ==> *final(save) == *old(save),
        r is Ok ==> rolled_back(
            *old(save),
            *final(save),
            first_index(ckpt_ids(old(save).checkpoints@), checkpoint_id@),
        ),
{
    let ghost s0 = *save;
    let idx = match checkpoint_index(save.checkpoints.as_slice(), checkpoint_id) {
        Some(i) => i,
        None => {
            return Err(AppError::Save(owned("这个节点已经无法回到")));
        },
    };
    let ck = copy_checkpoint(&save.checkpoints[idx]);
    rollback_to(save, &ck);
    let ghost s1 = *save;
    let ghost path = strs(s0.chapter_path@);
    match position_of(save.chapter_path.as_slice(), ck.chapter.as_str()) {
        Some(pidx) => {
            let ghost dropped = path.skip(pidx + 1);
            let n = save.chapter_path.len();
            let mut j: usize = pidx + 1;
            while j < n
                invariant
                    pidx < n,
                    pidx + 1 <= j <= n,
                    n == save.chapter_path@.len(),
                    strs(save.chapter_path@) == path,
                    dropped == path.skip(pidx + 1),
                    views_of(save.collected_clues@) == views_of(s1.collected_clues@).remove_keys(
                        dropped.take(j - pidx - 1).to_set(),
                    ),
                    views_of(save.viewed_dialogues@) == views_of(s1.viewed_dialogues@).remove_keys(
                        dropped.take(j - pidx - 1).to_set(),
                    ),
                    views_of(save.judgments_made@) == views_of(s1.judgments_made@).remove_keys(
                        dropped.take(j - pidx - 1).to_set(),
                    ),
                    save.viewed_intros@ == s1.viewed_intros@.remove_keys(
                        dropped.take(j - pidx - 1).to_set(),
                    ),
                    save.viewed_outros@ == s1.viewed_outros@.remove_keys(
                        dropped.take(j - pidx - 1).to_set(),
                    ),
                    save.viewed_narrative@ == s1.viewed_narrative@.remove_keys(
                        dropped.take(j - pidx - 1).to_set(),
                    ),
                    *save == (Save {
                        collected_clues: save.collected_clues,
                        viewed_dialogues: save.viewed_dialogues,
                        judgments_made: save.judgments_made,
                        viewed_intros: save.viewed_intros,
                        viewed_outros: save.viewed_outros,
                        viewed_narrative: save.viewed_narrative,
                        ..s1
                    }),
                decreases n - j,
            {
                let ch = owned(save.chapter_path[j].as_str());
                let ghost i: int = j - pidx - 1;
                proof {
                    assert(dropped[i] == ch@);
                    lemma_remove_keys_step(views_of(s1.collected_clues@), dropped, i);
                    lemma_remove_keys_step(views_of(s1.viewed_dialogues@), dropped, i);
                    lemma_remove_keys_step(views_of(s1.judgments_made@), dropped, i);
                    lemma_remove_keys_step(s1.viewed_intros@, dropped, i);
                    lemma_remove_keys_step(s1.viewed_outros@, dropped, i);
                    lemma_remove_keys_step(s1.viewed_narrative@, dropped, i);
                    lemma_views_remove(save.collected_clues@, ch@);
                    lemma_views_remove(save.viewed_dialogues@, ch@);
                    lemma_views_remove(save.judgments_made@, ch@);
                }
                save.collected_clues.remove(ch.as_str());
                save.viewed_dialogues.remove(ch.as_str());
                save.judgments_made.remove(ch.as_str());
                save.viewed_intros.remove(ch.as_str());
                save.viewed_outros.remove(ch.as_str());
                save.viewed_narrative.remove(ch.as_str());
                j += 1;
            }
            assert(dropped.take(n - pidx - 1) =~= dropped);
            save.chapter_path.truncate(pidx + 1);
            assert(strs(save.chapter_path@) =~= path.take(pidx + 1));
        },
        None => {
            assert(dropped_chapters(path, ck.chapter@).to_set() =~= Set::empty());
            assert(views_of(s1.collected_clues@).remove_keys(Set::empty()) =~= views_of(
                s1.collected_clues@,
            ));
            assert(views_of(s1.viewed_dialogues@).remove_keys(Set::empty()) =~= views_of(
                s1.viewed_dialogues@,
            ));
            assert(views_of(s1.judgments_made@).remove_keys(Set::empty()) =~= views_of(
                s1.judgments_made@,
            ));
            assert(s1.viewed_intros@.remove_keys(Set::empty()) =~= s1.viewed_intros@);
            assert(s1.viewed_outros@.remove_keys(Set::empty()) =~= s1.viewed_outros@);
            assert(s1.viewed_narrative@.remove_keys(Set::empty()) =~= s1.viewed_narrative@);
        },
    }
    assert(save.checkpoints@ == s0.checkpoints@);
    let total = save.checkpoints.len();
    assert(idx < total);
    let cutoff = match ck.kind {
        CheckpointKind::ChapterStart => idx + 1,
        CheckpointKind::BeforeJudgment => idx,
    };
    save.checkpoints.truncate(cutoff);
    Ok(())
}

proof fn lemma_truncate_restores<T>(at: Seq<T>, m: Map<Seq<char>, Seq<T>>, chapter: Seq<char>)
    requires
        at.is_prefix_of(list_at(m, chapter)),
    ensures
        list_at(truncated(m, chapter, at.len()), chapter) == at,
{
    if m.contains_key(chapter) {
        if at.len() < m[chapter].len() {
            assert(m[chapter].take(at.len() as int) =~= at);
        } else {
            assert(m[chapter] =~= at);
        }
    } else {
        assert(at =~= Seq::<T>::empty());
    }
}

/// Rolling back to a checkpoint gives its chapter's three lists back as they
/// were when the checkpoint was taken, whatever was appended to them since,
/// provided the chapter was not entered again later on the path.
pub proof fn lemma_rollback_restores_lists(at: Save, before: Save, after: Save, idx: int)
    requires
        0 <= idx < before.checkpoints@.len(),
        before.checkpoints@[idx].state.clues_len == list_len(
            at.collected_clues@,
            before.checkpoints@[idx].chapter@,
        ),
        before.checkpoints@[idx].state.views_len == list_len(
            at.viewed_dialogues@,
            before.checkpoints@[idx].chapter@,
        ),
        before.checkpoints@[idx].state.judgments_len == list_len(
            at.judgments_made@,
            before.checkpoints@[idx].chapter@,
        ),
        list_at(views_of(at.collected_clues@), before.checkpoints@[idx].chapter@).is_prefix_of(
            list_at(views_of(before.collected_clues@), before.checkpoints@[idx].chapter@),
        ),
        list_at(views_of(at.viewed_dialogues@), before.checkpoints@[idx].chapter@).is_prefix_of(
            list_at(views_of(before.viewed_dialogues@), before.checkpoints@[idx].chapter@),
        ),
        list_at(views_of(at.judgments_made@), before.checkpoints@[idx].chapter@).is_prefix_of(
            list_at(views_of(before.judgments_made@), before.checkpoints@[idx].chapter@),
        ),
        !dropped_chapters(strs(before.chapter_path@), before.checkpoints@[idx].chapter@).contains(
            before.checkpoints@[idx].chapter@,
        ),
        rolled_back(before, after, idx),
    ensures
        list_at(views_of(after.collected_clues@), before.checkpoints@[idx].chapter@) == list_at(
            views_of(at.collected_clues@),
            before.checkpoints@[idx].chapter@,
        ),
        list_at(views_of(after.viewed_dialogues@), before.checkpoints@[idx].chapter@) == list_at(
            views_of(at.viewed_dialogues@),
            before.checkpoints@[idx].chapter@,
        ),
        list_at(views_of(after.judgments_made@), before.checkpoints@[idx].chapter@) == list_at(
            views_of(at.judgments_made@),
            before.checkpoints@[idx].chapter@,
        ),
{
    let ch = before.checkpoints@[idx].chapter@;
    let dropped = dropped_chapters(strs(before.chapter_path@), ch).to_set();
    assert(!dropped.contains(ch));
    let a1 = list_at(views_of(at.collected_clues@), ch);
    let a2 = list_at(views_of(at.viewed_dialogues@), ch);
    let a3 = list_at(views_of(at.judgments_made@), ch);
    assert(a1.len() == list_len(at.collected_clues@, ch));
    assert(a2.len() == list_len(at.viewed_dialogues@, ch));
    assert(a3.len() == list_len(at.judgments_made@, ch));
    lemma_truncate_restores(a1, views_of(before.collected_clues@), ch);
    lemma_truncate_restores(a2, views_of(before.viewed_dialogues@), ch);
    lemma_truncate_restores(a3, views_of(before.judgments_made@), ch);
}

/// Taking a checkpoint keeps checkpoint ids distinct.
pub proof fn lemma_checkpoint_ids_stay_distinct(
    before: Save,
    after: Save,
    base: Seq<char>,
    id: Seq<char>,
    chapter: Seq<char>,
    scene: Seq<char>,
    world: World,
    kind: CheckpointKind,
    now: Seq<char>,
)
    requires
        ckpt_ids(before.checkpoints@).no_duplicates(),
        first_free_id(base, ckpt_ids(before.checkpoints@), id),
        pushed(before, after, id, chapter, scene, world, kind, now),
    ensures
        ckpt_ids(after.checkpoints@).no_duplicates(),
{
    let b = ckpt_ids(before.checkpoints@);
    let a = ckpt_ids(after.checkpoints@);
    assert(a =~= b.push(id)) by {
        assert forall|i: int| 0 <= i < b.len() implies a[i] == b[i] by {
            assert(after.checkpoints@.take(before.checkpoints@.len() as int)[i] == before.checkpoints@[i]);
        }
    }
    assert(!b.contains(id));
    assert forall|i: int, j: int| 0 <= i < a.len() && 0 <= j < a.len() && i != j implies a[i] != a[j] by {
        if i < b.len() && j < b.len() {
        } else if i < b.len() {
            assert(b[i] == a[i]);
        } else {
            assert(b[j] == a[j]);
        }
    }
}

} // verus!
