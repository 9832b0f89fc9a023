//! Menu candidates and save reconciliation.
//!
//! - `ask_topic_options`, `unjudged_character_options` and `move_options`
//!   give the `(id, label)` candidates of each menu in the current context.
//! - `reconcile_save` repairs a save whose content references went stale
//!   after a content update, and says what it repaired.

use vstd::prelude::*;

use crate::content::condition::{spec_topic_visible, topic_visible};
use crate::content::engine::ContentEngine;
use crate::content::models::{lookup_key, Chapter, Judgment, Topic};
use crate::engine::condition::{build_factset, spec_factset};
use crate::save::schema::{Checkpoint, Save};
use crate::text::{owned, position_of, strs, strs_ref};
use crate::world::World;

verus! {

/// The views of a list of `(id, label)` pairs.
pub open spec fn pairs(v: Seq<(String, String)>) -> Seq<(Seq<char>, Seq<char>)> {
    v.map_values(|p: (String, String)| (p.0@, p.1@))
}

proof fn lemma_filter_map_push<A, B>(s: Seq<A>, x: A, p: spec_fn(A) -> bool, f: spec_fn(A) -> B)
    ensures
        s.push(x).filter(p).map_values(f) == if p(x) {
            s.filter(p).map_values(f).push(f(x))
        } else {
            s.filter(p).map_values(f)
        },
{
    s.lemma_filter_push(x, p);
    if p(x) {
        assert(s.push(x).filter(p).map_values(f) =~= s.filter(p).map_values(f).push(f(x)));
    }
}

/// A topic of `character` can be asked now: it is visible under the save's
/// facts and has a version in the current world.
pub open spec fn askable(e: ContentEngine, save: Save, character: Seq<char>, t: Topic) -> bool {
    &&& spec_topic_visible(t, spec_factset(save))
    &&& e.spec_dialogue(save.current_chapter@, character, t.id@, save.current_world) is Some
}

/// Topics of `character` that can be asked now, as `(id, label)`, in data order.
pub open spec fn spec_ask_topic_options(e: ContentEngine, save: Save, character: Seq<char>) -> Seq<
    (Seq<char>, Seq<char>),
> {
    e.spec_topics(save.current_chapter@, character).filter(|t: Topic| askable(e, save, character, t)).map_values(
        |t: Topic| (t.id@, t.label@),
    )
}

/// The topics a character can be asked in the current world: unlocked
/// (`available`, or `unlock_after` holds) and with a version in that world. A
/// topic with one world only is missing on the other side.
pub fn ask_topic_options(engine: &ContentEngine, save: &Save, character: &str) -> (r: Vec<
    (String, String),
>)
    ensures
        pairs(r@) == spec_ask_topic_options(*engine, *save, character@),
{
    let ch = save.current_chapter.as_str();
    let facts = build_factset(save);
    let topics = engine.get_topics(ch, character);
    let ghost p = |t: Topic| askable(*engine, *save, character@, t);
    let ghost f = |t: Topic| (t.id@, t.label@);
    let mut out: Vec<(String, String)> = Vec::new();
    let mut i: usize = 0;
    while i < topics.len()
        invariant
            i <= topics@.len(),
            topics@ == engine.spec_topics(save.current_chapter@, character@),
            facts@ == spec_factset(*save),
            ch@ == save.current_chapter@,
            p == (|t: Topic| askable(*engine, *save, character@, t)),
            f == (|t: Topic| (t.id@, t.label@)),
            pairs(out@) == topics@.take(i as int).filter(p).map_values(f),
        decreases topics@.len() - i,
    {
        let t = &topics[i];
        proof {
            assert(topics@.take(i + 1) =~= topics@.take(i as int).push(topics@[i as int]));
            lemma_filter_map_push(topics@.take(i as int), topics@[i as int], p, f);
        }
        let ghost before = out@;
        if topic_visible(t, &facts) && engine.get_dialogue(ch, character, t.id.as_str(), save.current_world).is_some() {
            out.push((owned(t.id.as_str()), owned(t.label.as_str())));
            assert(pairs(out@) =~= pairs(before).push(f(topics@[i as int])));
        }
        i += 1;
    }
    assert(topics@.take(topics@.len() as int) =~= topics@);
    out
}

/// A judgment of the current chapter can still be made: not judged yet, and
/// its target is a known character.
pub open spec fn judge_candidate(e: ContentEngine, save: Save, j: Judgment) -> bool {
    !save.spec_judged(save.current_chapter@, j.id@) && lookup_key(e.characters@, j.target@) is Some
}

/// The characters still to be judged in the current chapter, as
/// `(character id, name)`, in judgment order.
pub open spec fn spec_unjudged(e: ContentEngine, save: Save) -> Seq<(Seq<char>, Seq<char>)> {
    e.spec_judgments(save.current_chapter@).filter(|j: Judgment| judge_candidate(e, save, j)).map_values(
        |j: Judgment| (j.target@, lookup_key(e.characters@, j.target@)->0.name@),
    )
}

/// The characters of this chapter with a judgment not yet made.
pub fn unjudged_character_options(engine: &ContentEngine, save: &Save) -> (r: Vec<(String, String)>)
    ensures
        pairs(r@) == spec_unjudged(*engine, *save),
{
    let ch = save.current_chapter.as_str();
    let js = engine.get_judgments(ch);
    let ghost p = |j: Judgment| judge_candidate(*engine, *save, j);
    let ghost f = |j: Judgment| (j.target@, lookup_key(engine.characters@, j.target@)->0.name@);
    let mut out: Vec<(String, String)> = Vec::new();
    let mut i: usize = 0;
    while i < js.len()
        invariant
            i <= js@.len(),
            js@ == engine.spec_judgments(save.current_chapter@),
            ch@ == save.current_chapter@,
            p == (|j: Judgment| judge_candidate(*engine, *save, j)),
            f == (|j: Judgment| (j.target@, lookup_key(engine.characters@, j.target@)->0.name@)),
            pairs(out@) == js@.take(i as int).filter(p).map_values(f),
        decreases js@.len() - i,
    {
        let j = &js[i];
        proof {
            assert(js@.take(i + 1) =~= js@.take(i as int).push(js@[i as int]));
            lemma_filter_map_push(js@.take(i as int), js@[i as int], p, f);
        }
        let ghost before = out@;
        if !save.judged(ch, j.id.as_str()) {
            match engine.get_character(j.target.as_str()) {
                Some(c) => {
                    out.push((owned(j.target.as_str()), owned(c.name.as_str())));
                    assert(pairs(out@) =~= pairs(before).push(f(js@[i as int])));
                },
                None => {},
            }
        }
        i += 1;
    }
    assert(js@.take(js@.len() as int) =~= js@);
    out
}

/// The label of the pseudo-exit of an edge scene.
pub open spec fn leave_option() -> (Seq<char>, Seq<char>) {
    ("__leave"@, "试着离开镇子"@)
}

/// Destinations from the current scene, as `(scene id, name)`, in the sorted
/// order of the scene graph; an edge scene adds the pseudo-exit `__leave`.
pub open spec fn spec_move_options(e: ContentEngine, save: Save) -> Seq<(Seq<char>, Seq<char>)> {
    let scene = save.current_scene@;
    let reach = if e.reachable@.contains_key(scene) {
        strs(e.reachable@[scene]@)
    } else {
        Seq::empty()
    };
    let base = reach.filter(|sid: Seq<char>| lookup_key(e.scenes@, sid) is Some).map_values(
        |sid: Seq<char>| (sid, lookup_key(e.scenes@, sid)->0.name@),
    );
    if lookup_key(e.scenes@, scene) matches Some(s) && s.exit_attempt is Some {
        base.push(leave_option())
    } else {
        base
    }
}

/// The destinations reachable from the current scene; an edge scene adds
/// "try to leave town" (`__leave`), which carries the "you cannot get out"
/// text.
pub fn move_options(engine: &ContentEngine, save: &Save) -> (r: Vec<(String, String)>)
    ensures
        pairs(r@) == spec_move_options(*engine, *save),
{
    let scene = save.current_scene.as_str();
    let reach = engine.get_reachable_scenes(scene);
    let ghost rs = strs_ref(reach@);
    let ghost p = |sid: Seq<char>| lookup_key(engine.scenes@, sid) is Some;
    let ghost f = |sid: Seq<char>| (sid, lookup_key(engine.scenes@, sid)->0.name@);
    let mut out: Vec<(String, String)> = Vec::new();
    let mut i: usize = 0;
    while i < reach.len()
        invariant
            i <= reach@.len(),
            rs == strs_ref(reach@),
            p == (|sid: Seq<char>| lookup_key(engine.scenes@, sid) is Some),
            f == (|sid: Seq<char>| (sid, lookup_key(engine.scenes@, sid)->0.name@)),
            pairs(out@) == rs.take(i as int).filter(p).map_values(f),
        decreases reach@.len() - i,
    {
        let sid = reach[i];
        proof {
            assert(rs.take(i + 1) =~= rs.take(i as int).push(rs[i as int]));
            lemma_filter_map_push(rs.take(i as int), rs[i as int], p, f);
        }
        let ghost before = out@;
        match engine.get_scene(sid) {
            Some(s) => {
                out.push((owned(sid), owned(s.name.as_str())));
                assert(pairs(out@) =~= pairs(before).push(f(rs[i as int])));
            },
            None => {},
        }
        i += 1;
    }
    assert(rs.take(rs.len() as int) =~= rs);
    if engine.scene_has_exit_attempt(scene) {
        let ghost before = out@;
        out.push((owned("__leave"), owned("试着离开镇子")));
        assert(pairs(out@) =~= pairs(before).push(leave_option()));
    }
    out
}

/// The chapter exists in the content.
pub open spec fn chapter_known(e: ContentEngine, c: Seq<char>) -> bool {
    lookup_key(e.chapters@, c) is Some
}

/// The path a reconciliation keeps: the chapters that still exist, in order.
pub open spec fn kept_path(e: ContentEngine, path: Seq<Seq<char>>) -> Seq<Seq<char>> {
    path.filter(|c: Seq<char>| chapter_known(e, c))
}

/// The chapter a reconciliation settles on: the current one when it still
/// exists, else the last existing chapter of the path, else (none left) the
/// stale current one.
pub open spec fn settled_chapter(e: ContentEngine, save: Save) -> Seq<char> {
    let kept = kept_path(e, strs(save.chapter_path@));
    if chapter_known(e, save.current_chapter@) || kept.len() == 0 {
        save.current_chapter@
    } else {
        kept.last()
    }
}

/// The current scene is reset to the settled chapter's starting scene: that
/// chapter exists and does not list the scene.
pub open spec fn scene_reset(e: ContentEngine, save: Save) -> bool {
    lookup_key(e.chapters@, settled_chapter(e, save)) matches Some(c) && !strs(c.scenes@).contains(
        save.current_scene@,
    )
}

/// Checkpoints a reconciliation keeps: those of existing chapters.
pub open spec fn ckpt_known(e: ContentEngine, c: Checkpoint) -> bool {
    chapter_known(e, c.chapter@)
}

/// The warnings of a reconciliation, in order.
pub open spec fn reconcile_warnings(e: ContentEngine, save: Save) -> Seq<Seq<char>> {
    let path = strs(save.chapter_path@);
    let kept = kept_path(e, path);
    let w1: Seq<Seq<char>> = if kept.len() < path.len() {
        seq!["部分已访问的章节因内容更新而失效，已忽略。"@]
    } else {
        Seq::empty()
    };
    let w2: Seq<Seq<char>> = if !chapter_known(e, save.current_chapter@) {
        if kept.len() == 0 {
            seq!["存档中没有可达章节，内容可能已大幅更新。"@, "当前章节已失效，已回退到最近的有效章节。"@]
        } else {
            seq!["当前章节已失效，已回退到最近的有效章节。"@]
        }
    } else {
        Seq::empty()
    };
    let w3: Seq<Seq<char>> = if scene_reset(e, save) {
        seq!["当前场景已失效，已重置到章节起始场景。"@]
    } else {
        Seq::empty()
    };
    let w4: Seq<Seq<char>> = if save.checkpoints@.filter(|c: Checkpoint| ckpt_known(e, c)).len()
        < save.checkpoints@.len() {
        seq!["部分检查点因内容更新而失效，已从地图中移除。"@]
    } else {
        Seq::empty()
    };
    w1 + w2 + w3 + w4
}

/// `after` is `before` reconciled with the content of `e`.
pub open spec fn reconciled(e: ContentEngine, before: Save, after: Save) -> bool {
    let kept = kept_path(e, strs(before.chapter_path@));
    let fell_back = !chapter_known(e, before.current_chapter@) && kept.len() > 0;
    &&& strs(after.chapter_path@) == kept
    &&& after.current_chapter@ == settled_chapter(e, before)
    &&& after.current_scene@ == if scene_reset(e, before) {
        lookup_key(e.chapters@, settled_chapter(e, before))->0.starting_scene@
    } else {
        before.current_scene@
    }
    &&& after.current_world == if scene_reset(e, before) || fell_back {
        World::Surface
    } else {
        before.current_world
    }
    &&& after.checkpoints@ == before.checkpoints@.filter(|c: Checkpoint| ckpt_known(e, c))
    &&& after == (Save {
        current_chapter: after.current_chapter,
        current_scene: after.current_scene,
        current_world: after.current_world,
        chapter_path: after.chapter_path,
        checkpoints: after.checkpoints,
        ..before
    })
}

/// The reconciled save sits in an existing chapter that lists its own
/// starting scene among its scenes.
pub open spec fn settles_cleanly(e: ContentEngine, save: Save) -> bool {
    lookup_key(e.chapters@, save.current_chapter@) matches Some(c) && strs(c.scenes@).contains(c.starting_scene@)
}

proof fn lemma_filter_keeps_all<A>(s: Seq<A>, p: spec_fn(A) -> bool)
    requires
        forall|i: int| 0 <= i < s.len() ==> #[trigger] p(s[i]),
    ensures
        s.filter(p) == s,
    decreases s.len(),
{
    reveal(Seq::filter);
    if s.len() > 0 {
        lemma_filter_keeps_all(s.drop_last(), p);
        assert(s.drop_last().push(s.last()) =~= s);
    }
}

/// Reconciling a save a second time changes nothing more: the same path,
/// position and checkpoints. When the first reconciliation settled in a
/// chapter that exists and lists its starting scene, the second one warns of
/// nothing.
pub proof fn lemma_reconcile_idempotent(e: ContentEngine, s0: Save, s1: Save, s2: Save)
    requires
        reconciled(e, s0, s1),
        reconciled(e, s1, s2),
    ensures
        strs(s2.chapter_path@) == strs(s1.chapter_path@),
        s2.current_chapter@ == s1.current_chapter@,
        s2.current_scene@ == s1.current_scene@,
        s2.current_world == s1.current_world,
        s2.checkpoints@ == s1.checkpoints@,
        s2 == (Save {
            current_chapter: s2.current_chapter,
            current_scene: s2.current_scene,
            chapter_path: s2.chapter_path,
            checkpoints: s2.checkpoints,
            ..s1
        }),
        settles_cleanly(e, s1) ==> reconcile_warnings(e, s1).len() == 0,
{
    let p = |c: Seq<char>| chapter_known(e, c);
    let q = |c: Checkpoint| ckpt_known(e, c);
    let path0 = strs(s0.chapter_path@);
    path0.filter_lemma(p);
    lemma_filter_keeps_all(path0.filter(p), p);
    s0.checkpoints@.filter_lemma(q);
    lemma_filter_keeps_all(s0.checkpoints@.filter(q), q);
    let kept0 = kept_path(e, path0);
    assert(kept_path(e, strs(s1.chapter_path@)) == kept0);
    if !chapter_known(e, s0.current_chapter@) && kept0.len() > 0 {
        assert(p(kept0[kept0.len() - 1]));
    }
    assert(settled_chapter(e, s1) == s1.current_chapter@);
    assert(s2.checkpoints@ =~= s1.checkpoints@);
    if settles_cleanly(e, s1) {
        assert(!scene_reset(e, s1));
        assert(s1.checkpoints@.filter(q) =~= s1.checkpoints@);
    }
}

proof fn lemma_filter_len_le<A>(s: Seq<A>, p: spec_fn(A) -> bool)
    ensures
        s.filter(p).len() <= s.len(),
{
    s.lemma_filter_len(p);
}

/// Repair a save whose references went stale after a content update, with
/// the least loss, and return the warnings to show: stale chapters leave the
/// path; a stale current chapter falls back to the last existing chapter of
/// the path (on the surface); a scene the chapter does not list is reset to
/// its starting scene (on the surface); checkpoints of stale chapters are
/// dropped. `discovered` and everything else are kept.
pub fn reconcile_save(save: &mut Save, engine: &ContentEngine) -> (r: Vec<String>)
    ensures
        reconciled(*engine, *old(save), *final(save)),
        strs(r@) == reconcile_warnings(*engine, *old(save)),
{
    let ghost s0 = *save;
    let ghost path0 = strs(s0.chapter_path@);
    let ghost pp = |c: Seq<char>| chapter_known(*engine, c);
    let mut warnings: Vec<String> = Vec::new();

    // chapter path: keep the chapters that exist, in order
    let mut kept: Vec<String> = Vec::new();
    let mut i: usize = 0;
    while i < save.chapter_path.len()
        invariant
            i <= save.chapter_path@.len(),
            save.chapter_path@ == s0.chapter_path@,
            path0 == strs(s0.chapter_path@),
            pp == (|c: Seq<char>| chapter_known(*engine, c)),
            strs(kept@) == path0.take(i as int).filter(pp),
        decreases save.chapter_path@.len() - i,
    {
        proof {
            assert(path0.take(i + 1) =~= path0.take(i as int).push(path0[i as int]));
            path0.take(i as int).lemma_filter_push(path0[i as int], pp);
        }
        let ghost before = strs(kept@);
        if engine.chapter_exists(save.chapter_path[i].as_str()) {
            kept.push(owned(save.chapter_path[i].as_str()));
            assert(strs(kept@) =~= before.push(path0[i as int]));
        }
        i += 1;
    }
    assert(path0.take(path0.len() as int) =~= path0);
    let ghost kept0 = strs(kept@);
    assert(kept0 == kept_path(*engine, path0));
    proof {
        lemma_filter_len_le(path0, pp);
    }
    if kept.len() < save.chapter_path.len() {
        warnings.push(owned("部分已访问的章节因内容更新而失效，已忽略。"));
    }
    save.chapter_path = kept;

    // current chapter falls back
    let ghost w_before = strs(warnings@);
    if !engine.chapter_exists(save.current_chapter.as_str()) {
        let n = save.chapter_path.len();
        if n > 0 {
            save.current_chapter = owned(save.chapter_path[n - 1].as_str());
            save.current_world = World::Surface;
        } else {
            warnings.push(owned("存档中没有可达章节，内容可能已大幅更新。"));
        }
        warnings.push(owned("当前章节已失效，已回退到最近的有效章节。"));
    }
    assert(save.current_chapter@ == settled_chapter(*engine, s0));

    // current scene is reset when the chapter does not list it
    let ghost s1 = *save;
    match engine.get_chapter(save.current_chapter.as_str()) {
        Some(ch) => {
            match position_of(ch.scenes.as_slice(), save.current_scene.as_str()) {
                Some(_) => {},
                None => {
                    save.current_scene = owned(ch.starting_scene.as_str());
                    save.current_world = World::Surface;
                    warnings.push(owned("当前场景已失效，已重置到章节起始场景。"));
                },
            }
        },
        None => {},
    }

    // checkpoints of stale chapters are dropped
    let ghost cs0 = s0.checkpoints@;
    let ghost cp = |c: Checkpoint| ckpt_known(*engine, c);
    let before_len = save.checkpoints.len();
    let ghost s2 = *save;
    let mut j: usize = save.checkpoints.len();
    while j > 0
        invariant
            j <= cs0.len(),
            *save == (Save { checkpoints: save.checkpoints, ..s2 }),
            cp == (|c: Checkpoint| ckpt_known(*engine, c)),
            save.checkpoints@ == cs0.take(j as int) + cs0.skip(j as int).filter(cp),
        decreases j,
    {
        j -= 1;
        proof {
            assert(cs0.skip(j as int) =~= seq![cs0[j as int]] + cs0.skip(j + 1));
            cs0.skip(j + 1).lemma_filter_prepend(cs0[j as int], cp);
            assert(save.checkpoints@[j as int] == cs0[j as int]);
        }
        let ghost before = save.checkpoints@;
        if !engine.chapter_exists(save.checkpoints[j].chapter.as_str()) {
            let _ = save.checkpoints.remove(j);
            assert(save.checkpoints@ =~= cs0.take(j as int) + cs0.skip(j as int).filter(cp)) by {
                assert(cs0.take(j + 1) =~= cs0.take(j as int).push(cs0[j as int]));
            }
        } else {
            assert(save.checkpoints@ =~= cs0.take(j as int) + cs0.skip(j as int).filter(cp)) by {
                assert(cs0.take(j + 1) =~= cs0.take(j as int).push(cs0[j as int]));
            }
        }
    }
    assert(cs0.skip(0) =~= cs0);
    assert(save.checkpoints@ =~= cs0.filter(cp));
    proof {
        lemma_filter_len_le(cs0, cp);
    }
    if save.checkpoints.len() != before_len {
        warnings.push(owned("部分检查点因内容更新而失效，已从地图中移除。"));
    }
    proof {
        assert(strs(warnings@) =~= reconcile_warnings(*engine, s0));
        assert(strs(save.chapter_path@) == kept_path(*engine, path0));
        assert(save.current_chapter@ == settled_chapter(*engine, s0));
        assert(save.current_scene@ == if scene_reset(*engine, s0) {
            lookup_key(engine.chapters@, settled_chapter(*engine, s0))->0.starting_scene@
        } else {
            s0.current_scene@
        });
        assert(save.checkpoints@ == s0.checkpoints@.filter(|c: Checkpoint| ckpt_known(*engine, c)));
    }
    warnings
}

/// After a reconciliation, every chapter on the path and every checkpoint's
/// chapter exist in the content.
pub proof fn lemma_reconciled_references_exist(e: ContentEngine, before: Save, after: Save)
    requires
        reconciled(e, before, after),
    ensures
        forall|i: int| 0 <= i < after.chapter_path@.len() ==> chapter_known(e, #[trigger] after.chapter_path@[i]@),
        forall|i: int| 0 <= i < after.checkpoints@.len() ==> chapter_known(e, #[trigger] after.checkpoints@[i].chapter@),
{
    let pp = |c: Seq<char>| chapter_known(e, c);
    let cp = |c: Checkpoint| ckpt_known(e, c);
    assert forall|i: int| 0 <= i < after.chapter_path@.len() implies chapter_known(e, #[trigger] after.chapter_path@[i]@) by {
        strs(before.chapter_path@).lemma_filter_pred(pp, i);
        assert(strs(after.chapter_path@)[i] == after.chapter_path@[i]@);
    }
    assert forall|i: int| 0 <= i < after.checkpoints@.len() implies chapter_known(e, #[trigger] after.checkpoints@[i].chapter@) by {
        before.checkpoints@.lemma_filter_pred(cp, i);
    }
}

} // verus!
