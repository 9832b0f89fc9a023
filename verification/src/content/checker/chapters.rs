//! Scene checks (connections, exit attempts, one-way dead ends) and the
//! per-chapter checks (metadata, scenes, characters and topics, judgments,
//! clues, narrative items).

use vstd::prelude::*;

use crate::content::checker::graph::{known, targets_of};
use crate::content::checker::{
    a1, cids, e1, each, each_index, iv, lemma_each_all, lemma_each_index_step, lemma_each_step,
    only_if, referenced_targets, sids, spec_cond_issues, w1, Checker, IssueView,
};
use crate::content::engine::ContentEngine;
use crate::content::models::{
    get_key, lookup_key, parse_dialogue_source, spec_dialogue_source, Chapter, ChapterCharacter, Clue,
    Judgment, NarrativeItem, Topic,
};
use crate::text::{join, join3, owned, position_of, str_eq, strs, strs_ref, trim, trim_seq};
use crate::world::World;

verus! {

/// The scene exists.
pub open spec fn scene_known(e: ContentEngine, s: Seq<char>) -> bool {
    lookup_key(e.scenes@, s) is Some
}

/// Connection issues of a scene: each target must exist.
pub open spec fn spec_conn_issues(e: ContentEngine, sid: Seq<char>) -> Seq<IssueView> {
    match lookup_key(e.scenes@, sid) {
        Some(s) => each(
            strs(s.connections@) + strs(s.one_way_connections@),
            |c: Seq<char>| only_if(!scene_known(e, c), e1("场景 "@ + sid + " 的连接引用了未定义的场景："@ + c)),
        ),
        None => Seq::empty(),
    }
}

/// Exit-attempt issue of a scene: a declared exit attempt needs its text.
pub open spec fn spec_exit_issues(e: ContentEngine, sid: Seq<char>) -> Seq<IssueView> {
    match lookup_key(e.scenes@, sid) {
        Some(s) => only_if(
            s.exit_attempt is Some && !e.exit_attempt_text@.contains_key(sid),
            e1("场景 "@ + sid + " 的 exit_attempt 文件缺失"@),
        ),
        None => Seq::empty(),
    }
}

/// Dead-end issues of a scene: a one-way target without any exit.
pub open spec fn spec_dead_end_issues(e: ContentEngine, sid: Seq<char>) -> Seq<IssueView> {
    match lookup_key(e.scenes@, sid) {
        Some(s) => each(
            strs(s.one_way_connections@),
            |t: Seq<char>|
                match lookup_key(e.scenes@, t) {
                    Some(ts) => only_if(
                        ts.connections@.len() == 0 && ts.one_way_connections@.len() == 0,
                        e1("场景 "@ + sid + " 的单向连接 "@ + t + " 无任何出口，构成死胡同陷阱"@),
                    ),
                    None => Seq::empty(),
                },
        ),
        None => Seq::empty(),
    }
}

/// Issues of the scene checks: connections and exit attempt of each scene,
/// then dead ends of each scene.
pub open spec fn spec_scenes_issues(e: ContentEngine) -> Seq<IssueView> {
    each(sids(e), |sid: Seq<char>| spec_conn_issues(e, sid) + spec_exit_issues(e, sid)) + each(
        sids(e),
        |sid: Seq<char>| spec_dead_end_issues(e, sid),
    )
}

/// Metadata issues: title, `next` against `ending`, outro, intro and
/// starting scene.
pub open spec fn spec_metadata_issues(e: ContentEngine, cid: Seq<char>, ch: Chapter) -> Seq<IssueView> {
    only_if(trim_seq(ch.title@).len() == 0, w1("章节 "@ + cid + " 缺少标题"@)) + (if ch.ending {
        only_if(ch.next is Some, e1("终章 "@ + cid + " 不得定义 next"@))
    } else {
        only_if(ch.next is None, e1("非终章 "@ + cid + " 必须提供 next"@))
    }) + only_if(!ch.ending && ch.outro is Some, e1("非终章 "@ + cid + " 定义了 outro（仅终章有效）"@))
        + only_if(
        ch.ending && ch.outro is Some && e.spec_outro(cid) is None,
        e1("终章 "@ + cid + " 的 outro 文件缺失"@),
    ) + only_if(ch.intro is Some && e.spec_intro(cid) is None, e1("章节 "@ + cid + " 的 intro 文件缺失"@))
        + only_if(
        !strs(ch.scenes@).contains(ch.starting_scene@),
        e1("章节 "@ + cid + " 的 starting_scene "@ + ch.starting_scene@ + " 不在 scenes 列表中"@),
    )
}

/// Issues of one scene a chapter lists: it must exist and have both
/// descriptions.
pub open spec fn spec_chapter_scene_issues(e: ContentEngine, cid: Seq<char>, s: Seq<char>) -> Seq<IssueView> {
    if !scene_known(e, s) {
        e1("章节 "@ + cid + " 引用了未定义的场景："@ + s)
    } else {
        only_if(
            e.spec_scene_description(cid, s, World::Surface) is None,
            e1("章节 "@ + cid + " 场景 "@ + s + " 缺少 surface 描述"@),
        ) + only_if(
            e.spec_scene_description(cid, s, World::Shadow) is None,
            e1("章节 "@ + cid + " 场景 "@ + s + " 缺少 shadow 描述"@),
        )
    }
}

/// The scene has no stored connection.
pub open spec fn no_reach(e: ContentEngine, s: Seq<char>) -> bool {
    !e.reachable@.contains_key(s) || e.reachable@[s]@.len() == 0
}

/// Issues of a chapter's scenes; with more than one scene, a scene with no
/// connection that nothing connects to is reported as isolated.
pub open spec fn spec_scenes_of_chapter(e: ContentEngine, cid: Seq<char>, ch: Chapter) -> Seq<IssueView> {
    each(strs(ch.scenes@), |s: Seq<char>| spec_chapter_scene_issues(e, cid, s)) + only_if(
        ch.scenes@.len() > 1,
        each(
            strs(ch.scenes@),
            |s: Seq<char>|
                only_if(
                    no_reach(e, s) && !referenced_targets(e).contains(s),
                    w1("章节 "@ + cid + " 场景 "@ + s + " 无任何可达连接，疑似孤立场景"@),
                ),
        ),
    )
}

/// Issues of a character's `appears_in`.
pub open spec fn spec_appears_issues(e: ContentEngine, cid: Seq<char>, ch: Chapter, cc: ChapterCharacter) -> Seq<
    IssueView,
> {
    match cc.appears_in {
        Some(list) => each(
            strs(list@),
            |s: Seq<char>|
                only_if(
                    !strs(ch.scenes@).contains(s),
                    w1("章节 "@ + cid + " 角色 "@ + cc.id@ + " 的 appears_in 引用了非本章场景："@ + s),
                ) + only_if(
                    !scene_known(e, s),
                    e1("章节 "@ + cid + " 角色 "@ + cc.id@ + " 的 appears_in 引用了未定义场景："@ + s),
                ),
        ),
        None => Seq::empty(),
    }
}

/// Ids of the first `k` topics.
pub open spec fn topic_ids(ts: Seq<Topic>, k: int) -> Seq<Seq<char>> {
    ts.take(k).map_values(|t: Topic| t.id@)
}

/// Issues of the `k`-th topic of a character.
pub open spec fn spec_topic_issues(e: ContentEngine, cid: Seq<char>, cc: ChapterCharacter, k: int) -> Seq<IssueView> {
    let t = cc.topics@[k];
    only_if(
        topic_ids(cc.topics@, k).contains(t.id@),
        e1("章节 "@ + cid + " 角色 "@ + cc.id@ + " 的话题 id 重复："@ + t.id@),
    ) + only_if(
        !e.spec_topic_exists(cid, cc.id@, t.id@),
        e1("章节 "@ + cid + " 角色 "@ + cc.id@ + " 的话题 "@ + t.id@ + " 在对话文件中不存在"@),
    ) + only_if(
        e.spec_dialogue(cid, cc.id@, t.id@, World::Shadow) is Some && e.spec_dialogue(cid, cc.id@, t.id@, World::Surface) is None,
        a1("章节 "@ + cid + " 角色 "@ + cc.id@ + " 话题 "@ + t.id@ + " 仅有影子版本，缺少表面对照"@),
    )
}

/// Ids of the first `k` characters of a chapter.
pub open spec fn char_ids(cs: Seq<ChapterCharacter>, k: int) -> Seq<Seq<char>> {
    cs.take(k).map_values(|c: ChapterCharacter| c.id@)
}

/// Issues of the `k`-th character of a chapter.
pub open spec fn spec_character_issues(e: ContentEngine, cid: Seq<char>, ch: Chapter, k: int) -> Seq<IssueView> {
    let cc = ch.characters@[k];
    only_if(
        lookup_key(e.characters@, cc.id@) is None,
        e1("章节 "@ + cid + " 引用了未定义的角色："@ + cc.id@),
    ) + only_if(
        char_ids(ch.characters@, k).contains(cc.id@),
        e1("章节 "@ + cid + " 角色重复声明："@ + cc.id@),
    ) + spec_appears_issues(e, cid, ch, cc) + each_index(
        cc.topics@.len() as int,
        |t: int| spec_topic_issues(e, cid, cc, t),
    )
}

/// Ids of the first `k` judgments.
pub open spec fn judgment_ids(js: Seq<Judgment>, k: int) -> Seq<Seq<char>> {
    js.take(k).map_values(|j: Judgment| j.id@)
}

/// Targets of the first `k` judgments.
pub open spec fn judgment_targets(js: Seq<Judgment>, k: int) -> Seq<Seq<char>> {
    js.take(k).map_values(|j: Judgment| j.target@)
}

/// The judgment's result text is loaded.
pub open spec fn has_result(e: ContentEngine, cid: Seq<char>, jid: Seq<char>) -> bool {
    e.content@.contains_key(cid) && e.content@[cid].result_text@.contains_key(jid)
}

/// Issues of the `k`-th judgment of a chapter.
pub open spec fn spec_judgment_issues(e: ContentEngine, cid: Seq<char>, ch: Chapter, k: int) -> Seq<IssueView> {
    let js = e.spec_judgments(cid);
    let j = js[k];
    only_if(judgment_ids(js, k).contains(j.id@), e1("章节 "@ + cid + " 审判点 id 重复："@ + j.id@)) + only_if(
        lookup_key(ch.characters@, j.target@) is None,
        e1("章节 "@ + cid + " 审判 "@ + j.id@ + " 的 target "@ + j.target@ + " 未在本章 characters 中声明"@),
    ) + only_if(
        judgment_targets(js, k).contains(j.target@),
        e1("章节 "@ + cid + " 角色 "@ + j.target@ + " 被多个审判点指向（一章内一个角色一个审判点）"@),
    ) + only_if(!has_result(e, cid, j.id@), e1("章节 "@ + cid + " 审判 "@ + j.id@ + " 的 result 文件缺失"@))
}

/// Issues of `required_judgments`: an explicit empty list is invalid, and
/// every listed judgment must be one of the chapter's.
pub open spec fn spec_required_issues(e: ContentEngine, cid: Seq<char>, ch: Chapter) -> Seq<IssueView> {
    match ch.required_judgments {
        None => Seq::empty(),
        Some(req) => if req@.len() == 0 {
            e1("章节 "@ + cid + " 的 required_judgments 显式为空数组（不合法）"@)
        } else {
            each(
                strs(req@),
                |r: Seq<char>|
                    only_if(
                        !e.spec_judgments(cid).map_values(|j: Judgment| j.id@).contains(r),
                        e1("章节 "@ + cid + " 的 required_judgments 引用了未知审判点："@ + r),
                    ),
            )
        },
    }
}

/// Issues of a chapter's judgments, `required_judgments` and, unless it is
/// an ending, its `next` targets.
pub open spec fn spec_judgments_of_chapter(e: ContentEngine, cid: Seq<char>, ch: Chapter) -> Seq<IssueView> {
    let js = e.spec_judgments(cid);
    only_if(js.len() == 0, e1("章节 "@ + cid + " 必须至少定义一个审判点"@)) + each_index(
        js.len() as int,
        |k: int| spec_judgment_issues(e, cid, ch, k),
    ) + spec_required_issues(e, cid, ch) + only_if(
        !ch.ending,
        each(targets_of(e, cid), |t: Seq<char>| only_if(!known(e, t), e1("章节 "@ + cid + " 的跳转目标不存在："@ + t))),
    )
}

/// Issues of one clue: its source must be `{character}.{topic}` with a
/// declared character and an existing topic that has the clue's world.
pub open spec fn spec_clue_issues(e: ContentEngine, cid: Seq<char>, ch: Chapter, c: Clue) -> Seq<IssueView> {
    match spec_dialogue_source(c.source@) {
        None => e1("章节 "@ + cid + " 线索 "@ + c.id@ + " 的 source 格式非法："@ + c.source@),
        Some((cc, ct)) => only_if(
            lookup_key(ch.characters@, cc) is None,
            e1("章节 "@ + cid + " 线索 "@ + c.id@ + " 的 source 引用了未知角色："@ + cc),
        ) + only_if(
            !e.spec_topic_exists(cid, cc, ct),
            e1("章节 "@ + cid + " 线索 "@ + c.id@ + " 的 source 引用了不存在的话题："@ + cc + "."@ + ct),
        ) + only_if(
            e.spec_dialogue(cid, cc, ct, c.world) is None,
            e1(
                "章节 "@ + cid + " 线索 "@ + c.id@ + " 的 world("@ + c.world.spec_label() + ") 与对话 "@ + cc + "."@
                    + ct + " 实际存在的世界不一致"@,
            ),
        ),
    }
}

/// The narrative item's text is loaded.
pub open spec fn has_narrative_text(e: ContentEngine, cid: Seq<char>, id: Seq<char>) -> bool {
    e.content@.contains_key(cid) && e.content@[cid].narrative_text@.contains_key(id)
}

/// Issues of one narrative item: a label, valid condition ids, a text.
pub open spec fn spec_narrative_issues(e: ContentEngine, cid: Seq<char>, n: NarrativeItem) -> Seq<IssueView> {
    only_if(trim_seq(n.label@).len() == 0, w1("章节 "@ + cid + " 叙事触发器 "@ + n.id@ + " 缺少 label"@)) + match n.when {
        Some(c) => spec_cond_issues(e, cid, c),
        None => Seq::empty(),
    } + only_if(
        !has_narrative_text(e, cid, n.id@),
        e1("章节 "@ + cid + " 叙事触发器 "@ + n.id@ + " 的 text 文件缺失"@),
    )
}

/// Issues of one chapter, by section.
pub open spec fn spec_chapter_issues(e: ContentEngine, cid: Seq<char>) -> Seq<IssueView> {
    match lookup_key(e.chapters@, cid) {
        Some(ch) => spec_metadata_issues(e, cid, ch) + spec_scenes_of_chapter(e, cid, ch) + each_index(
            ch.characters@.len() as int,
            |k: int| spec_character_issues(e, cid, ch, k),
        ) + spec_judgments_of_chapter(e, cid, ch) + each(e.spec_clues(cid), |c: Clue| spec_clue_issues(e, cid, ch, c))
            + each(ch.narrative@, |n: NarrativeItem| spec_narrative_issues(e, cid, n)),
        None => Seq::empty(),
    }
}

/// Issues of the chapter checks.
pub open spec fn spec_chapters_issues(e: ContentEngine) -> Seq<IssueView> {
    each(cids(e), |cid: Seq<char>| spec_chapter_issues(e, cid))
}

proof fn lemma_each_concat<A>(a: Seq<A>, b: Seq<A>, f: spec_fn(A) -> Seq<IssueView>)
    ensures
        each(a + b, f) == each(a, f) + each(b, f),
{
    assert((a + b).map_values(f) =~= a.map_values(f) + b.map_values(f));
    vstd::seq_lib::lemma_flatten_concat(a.map_values(f), b.map_values(f));
}

impl<'a> Checker<'a> {
    fn check_scene_connections(&mut self, sid: &str)
        requires
            old(self).wf(),
        ensures
            final(self).same_but_issues(old(self)),
            final(self).wf(),
            iv(final(self).issues@) == iv(old(self).issues@) + spec_conn_issues(*old(self).eng, sid@),
    {
        let ghost e = *self.eng;
        let ghost i0 = iv(self.issues@);
        match self.eng.get_scene(sid) {
            Some(scene) => {
                let ghost f = |c: Seq<char>| only_if(!scene_known(e, c), e1("场景 "@ + sid@ + " 的连接引用了未定义的场景："@ + c));
                self.check_targets_exist(sid, &scene.connections);
                let ghost i1 = iv(self.issues@);
                self.check_targets_exist(sid, &scene.one_way_connections);
                proof {
                    lemma_each_concat(strs(scene.connections@), strs(scene.one_way_connections@), f);
                }
            },
            None => {
                assert(iv(self.issues@) =~= i0 + Seq::<IssueView>::empty());
            },
        }
    }

    fn check_targets_exist(&mut self, sid: &str, targets: &Vec<String>)
        requires
            old(self).wf(),
        ensures
            final(self).same_but_issues(old(self)),
            final(self).wf(),
            iv(final(self).issues@) == iv(old(self).issues@) + each(
                strs(targets@),
                |c: Seq<char>| only_if(!scene_known(*old(self).eng, c), e1("场景 "@ + sid@ + " 的连接引用了未定义的场景："@ + c)),
            ),
    {
        let ghost e = *self.eng;
        let ghost i0 = iv(self.issues@);
        let ghost all = strs(targets@);
        let ghost f = |c: Seq<char>| only_if(!scene_known(e, c), e1("场景 "@ + sid@ + " 的连接引用了未定义的场景："@ + c));
        let mut i: usize = 0;
        while i < targets.len()
            invariant
                *self.eng == e,
                self.wf(),
                self.same_but_issues(old(self)),
                all == strs(targets@),
                i <= all.len(),
                f == (|c: Seq<char>| only_if(!scene_known(e, c), e1("场景 "@ + sid@ + " 的连接引用了未定义的场景："@ + c))),
                iv(self.issues@) == i0 + each(all.take(i as int), f),
            decreases all.len() - i,
        {
            proof {
                lemma_each_step(all, i as int, f);
            }
            let c = targets[i].as_str();
            assert(all[i as int] == c@);
            if !self.eng.scene_exists(c) {
                self.err(join(join3("场景 ", sid, " 的连接引用了未定义的场景：").as_str(), c));
            } else {
                assert(iv(self.issues@) =~= iv(self.issues@) + Seq::<IssueView>::empty());
            }
            i += 1;
        }
        proof {
            lemma_each_all(all, f);
        }
    }

    fn check_scene_exit_attempt(&mut self, sid: &str)
        requires
            old(self).wf(),
        ensures
            final(self).same_but_issues(old(self)),
            final(self).wf(),
            iv(final(self).issues@) == iv(old(self).issues@) + spec_exit_issues(*old(self).eng, sid@),
    {
        let ghost i0 = iv(self.issues@);
        match self.eng.get_scene(sid) {
            Some(scene) => {
                if scene.exit_attempt.is_some() && self.eng.scene_exit_attempt_text(sid).is_none() {
                    self.err(join3("场景 ", sid, " 的 exit_attempt 文件缺失"));
                } else {
                    assert(iv(self.issues@) =~= i0 + Seq::<IssueView>::empty());
                }
            },
            None => {
                assert(iv(self.issues@) =~= i0 + Seq::<IssueView>::empty());
            },
        }
    }

    fn check_dead_end(&mut self, sid: &str)
        requires
            old(self).wf(),
        ensures
            final(self).same_but_issues(old(self)),
            final(self).wf(),
            iv(final(self).issues@) == iv(old(self).issues@) + spec_dead_end_issues(*old(self).eng, sid@),
    {
        let ghost e = *self.eng;
        let ghost i0 = iv(self.issues@);
        match self.eng.get_scene(sid) {
            Some(scene) => {
                let ghost all = strs(scene.one_way_connections@);
                let ghost f = |t: Seq<char>|
                    match lookup_key(e.scenes@, t) {
                        Some(ts) => only_if(
                            ts.connections@.len() == 0 && ts.one_way_connections@.len() == 0,
                            e1("场景 "@ + sid@ + " 的单向连接 "@ + t + " 无任何出口，构成死胡同陷阱"@),
                        ),
                        None => Seq::empty(),
                    };
                let mut i: usize = 0;
                while i < scene.one_way_connections.len()
                    invariant
                        *self.eng == e,
                        self.wf(),
                        self.same_but_issues(old(self)),
                        all == strs(scene.one_way_connections@),
                        i <= all.len(),
                        f == (|t: Seq<char>|
                            match lookup_key(e.scenes@, t) {
                                Some(ts) => only_if(
                                    ts.connections@.len() == 0 && ts.one_way_connections@.len() == 0,
                                    e1("场景 "@ + sid@ + " 的单向连接 "@ + t + " 无任何出口，构成死胡同陷阱"@),
                                ),
                                None => Seq::empty(),
                            }),
                        iv(self.issues@) == i0 + each(all.take(i as int), f),
                    decreases all.len() - i,
                {
                    proof {
                        lemma_each_step(all, i as int, f);
                    }
                    let t = scene.one_way_connections[i].as_str();
                    assert(all[i as int] == t@);
                    match self.eng.get_scene(t) {
                        Some(target) => {
                            if target.connections.len() == 0 && target.one_way_connections.len() == 0 {
                                let mut m = join3("场景 ", sid, " 的单向连接 ");
                                m.append(t);
                                m.append(" 无任何出口，构成死胡同陷阱");
                                self.err(m);
                            } else {
                                assert(iv(self.issues@) =~= iv(self.issues@) + Seq::<IssueView>::empty());
                            }
                        },
                        None => {
                            assert(iv(self.issues@) =~= iv(self.issues@) + Seq::<IssueView>::empty());
                        },
                    }
                    i += 1;
                }
                proof {
                    lemma_each_all(all, f);
                }
            },
            None => {
                assert(iv(self.issues@) =~= i0 + Seq::<IssueView>::empty());
            },
        }
    }

    /// Scene connections, exit attempts and one-way dead ends.
    pub fn check_scenes(&mut self)
        requires
            old(self).wf(),
        ensures
            final(self).same_but_issues(old(self)),
            final(self).wf(),
            iv(final(self).issues@) == iv(old(self).issues@) + spec_scenes_issues(*old(self).eng),
    {
        let ghost e = *self.eng;
        let ghost i0 = iv(self.issues@);
        let ids = self.eng.scene_ids();
        let ghost f = |sid: Seq<char>| spec_conn_issues(e, sid) + spec_exit_issues(e, sid);
        let mut i: usize = 0;
        while i < ids.len()
            invariant
                *self.eng == e,
                self.wf(),
                self.same_but_issues(old(self)),
                i <= ids@.len(),
                strs_ref(ids@) == sids(e),
                f == (|sid: Seq<char>| spec_conn_issues(e, sid) + spec_exit_issues(e, sid)),
                iv(self.issues@) == i0 + each(sids(e).take(i as int), f),
            decreases ids@.len() - i,
        {
            proof {
                lemma_each_step(sids(e), i as int, f);
            }
            assert(ids@[i as int]@ == sids(e)[i as int]);
            self.check_scene_connections(ids[i]);
            self.check_scene_exit_attempt(ids[i]);
            i += 1;
        }
        proof {
            lemma_each_all(sids(e), f);
        }
        let ghost i1 = iv(self.issues@);
        let ghost g = |sid: Seq<char>| spec_dead_end_issues(e, sid);
        let mut i: usize = 0;
        while i < ids.len()
            invariant
                *self.eng == e,
                self.wf(),
                self.same_but_issues(old(self)),
                i <= ids@.len(),
                strs_ref(ids@) == sids(e),
                g == (|sid: Seq<char>| spec_dead_end_issues(e, sid)),
                iv(self.issues@) == i1 + each(sids(e).take(i as int), g),
            decreases ids@.len() - i,
        {
            proof {
                lemma_each_step(sids(e), i as int, g);
            }
            assert(ids@[i as int]@ == sids(e)[i as int]);
            self.check_dead_end(ids[i]);
            i += 1;
        }
        proof {
            lemma_each_all(sids(e), g);
        }
    }

    /// Every chapter's own checks, in chapter order.
    pub fn check_chapters(&mut self)
        requires
            old(self).wf(),
        ensures
            final(self).same_but_issues(old(self)),
            final(self).wf(),
            iv(final(self).issues@) == iv(old(self).issues@) + spec_chapters_issues(*old(self).eng),
    {
        let ghost e = *self.eng;
        let ghost i0 = iv(self.issues@);
        let ids = self.eng.chapter_ids();
        let ghost f = |cid: Seq<char>| spec_chapter_issues(e, cid);
        let mut i: usize = 0;
        while i < ids.len()
            invariant
                *self.eng == e,
                self.wf(),
                self.same_but_issues(old(self)),
                i <= ids@.len(),
                strs_ref(ids@) == cids(e),
                f == (|cid: Seq<char>| spec_chapter_issues(e, cid)),
                iv(self.issues@) == i0 + each(cids(e).take(i as int), f),
            decreases ids@.len() - i,
        {
            proof {
                lemma_each_step(cids(e), i as int, f);
            }
            assert(ids@[i as int]@ == cids(e)[i as int]);
            self.check_one_chapter(ids[i]);
            i += 1;
        }
        proof {
            lemma_each_all(cids(e), f);
        }
    }

    fn check_one_chapter(&mut self, cid: &str)
        requires
            old(self).wf(),
        ensures
            final(self).same_but_issues(old(self)),
            final(self).wf(),
            iv(final(self).issues@) == iv(old(self).issues@) + spec_chapter_issues(*old(self).eng, cid@),
    {
        let ghost i0 = iv(self.issues@);
        match self.eng.get_chapter(cid) {
            Some(ch) => {
                self.check_chapter_metadata(cid, ch);
                self.check_chapter_scenes(cid, ch);
                self.check_chapter_characters(cid, ch);
                self.check_chapter_judgments(cid, ch);
                self.check_chapter_clues(cid, ch);
                self.check_chapter_narrative(cid, ch);
                assert(iv(self.issues@) =~= i0 + spec_chapter_issues(*self.eng, cid@));
            },
            None => {
                assert(iv(self.issues@) =~= i0 + Seq::<IssueView>::empty());
            },
        }
    }

    /// Title, `next` against `ending`, outro, intro and starting scene.
    fn check_chapter_metadata(&mut self, cid: &str, ch: &Chapter)
        requires
            old(self).wf(),
        ensures
            final(self).same_but_issues(old(self)),
            final(self).wf(),
            iv(final(self).issues@) == iv(old(self).issues@) + spec_metadata_issues(*old(self).eng, cid@, *ch),
    {
        let ghost i0 = iv(self.issues@);
        if trim(ch.title.as_str()).unicode_len() == 0 {
            self.warn(join3("章节 ", cid, " 缺少标题"));
        }
        let ghost i1 = iv(self.issues@);
        if ch.ending {
            if ch.next.is_some() {
                self.err(join3("终章 ", cid, " 不得定义 next"));
            }
        } else if ch.next.is_none() {
            self.err(join3("非终章 ", cid, " 必须提供 next"));
        }
        let ghost i2 = iv(self.issues@);
        if !ch.ending && ch.outro.is_some() {
            self.err(join3("非终章 ", cid, " 定义了 outro（仅终章有效）"));
        }
        let ghost i3 = iv(self.issues@);
        if ch.ending && ch.outro.is_some() && self.eng.get_outro_text(cid).is_none() {
            self.err(join3("终章 ", cid, " 的 outro 文件缺失"));
        }
        let ghost i4 = iv(self.issues@);
        if ch.intro.is_some() && self.eng.get_intro_text(cid).is_none() {
            self.err(join3("章节 ", cid, " 的 intro 文件缺失"));
        }
        let ghost i5 = iv(self.issues@);
        if position_of(ch.scenes.as_slice(), ch.starting_scene.as_str()).is_none() {
            let mut m = join3("章节 ", cid, " 的 starting_scene ");
            m.append(ch.starting_scene.as_str());
            m.append(" 不在 scenes 列表中");
            self.err(m);
        }
        assert(iv(self.issues@) =~= i0 + spec_metadata_issues(*self.eng, cid@, *ch));
    }

    /// Scene references, both descriptions, isolated scenes.
    fn check_chapter_scenes(&mut self, cid: &str, ch: &Chapter)
        requires
            old(self).wf(),
        ensures
            final(self).same_but_issues(old(self)),
            final(self).wf(),
            iv(final(self).issues@) == iv(old(self).issues@) + spec_scenes_of_chapter(*old(self).eng, cid@, *ch),
    {
        let ghost e = *self.eng;
        let ghost i0 = iv(self.issues@);
        let ghost ss = strs(ch.scenes@);
        let ghost f = |s: Seq<char>| spec_chapter_scene_issues(e, cid@, s);
        let mut i: usize = 0;
        while i < ch.scenes.len()
            invariant
                *self.eng == e,
                self.wf(),
                self.same_but_issues(old(self)),
                ss == strs(ch.scenes@),
                i <= ss.len(),
                f == (|s: Seq<char>| spec_chapter_scene_issues(e, cid@, s)),
                iv(self.issues@) == i0 + each(ss.take(i as int), f),
            decreases ss.len() - i,
        {
            proof {
                lemma_each_step(ss, i as int, f);
            }
            let s = ch.scenes[i].as_str();
            assert(ss[i as int] == s@);
            let ghost b = iv(self.issues@);
            if !self.eng.scene_exists(s) {
                self.err(join3(join("章节 ", cid).as_str(), " 引用了未定义的场景：", s));
            } else {
                if self.eng.get_scene_description(cid, s, World::Surface).is_none() {
                    let mut m = join3("章节 ", cid, " 场景 ");
                    m.append(s);
                    m.append(" 缺少 surface 描述");
                    self.err(m);
                }
                let ghost b1 = iv(self.issues@);
                if self.eng.get_scene_description(cid, s, World::Shadow).is_none() {
                    let mut m = join3("章节 ", cid, " 场景 ");
                    m.append(s);
                    m.append(" 缺少 shadow 描述");
                    self.err(m);
                }
                assert(iv(self.issues@) =~= b + spec_chapter_scene_issues(e, cid@, s@));
            }
            i += 1;
        }
        proof {
            lemma_each_all(ss, f);
        }
        let ghost i1 = iv(self.issues@);
        if ch.scenes.len() > 1 {
            let ghost g = |s: Seq<char>|
                only_if(
                    no_reach(e, s) && !referenced_targets(e).contains(s),
                    w1("章节 "@ + cid@ + " 场景 "@ + s + " 无任何可达连接，疑似孤立场景"@),
                );
            let mut i: usize = 0;
            while i < ch.scenes.len()
                invariant
                    *self.eng == e,
                    self.wf(),
                    self.same_but_issues(old(self)),
                    ss == strs(ch.scenes@),
                    i <= ss.len(),
                    g == (|s: Seq<char>|
                        only_if(
                            no_reach(e, s) && !referenced_targets(e).contains(s),
                            w1("章节 "@ + cid@ + " 场景 "@ + s + " 无任何可达连接，疑似孤立场景"@),
                        )),
                    iv(self.issues@) == i1 + each(ss.take(i as int), g),
                decreases ss.len() - i,
            {
                proof {
                    lemma_each_step(ss, i as int, g);
                }
                let s = ch.scenes[i].as_str();
                assert(ss[i as int] == s@);
                let reachable = self.eng.get_reachable_scenes(s);
                proof {
                    assert(strs_ref(reachable@).len() == reachable@.len());
                    if e.reachable@.contains_key(s@) {
                        assert(strs(e.reachable@[s@]@).len() == e.reachable@[s@]@.len());
                    }
                }
                if reachable.len() == 0 && !self.referenced_targets.contains(s) {
                    let mut m = join3("章节 ", cid, " 场景 ");
                    m.append(s);
                    m.append(" 无任何可达连接，疑似孤立场景");
                    self.warn(m);
                } else {
                    assert(iv(self.issues@) =~= iv(self.issues@) + Seq::<IssueView>::empty());
                }
                i += 1;
            }
            proof {
                lemma_each_all(ss, g);
            }
        } else {
            assert(iv(self.issues@) =~= i1 + Seq::<IssueView>::empty());
        }
    }

    fn check_appears_in(&mut self, cid: &str, cc: &ChapterCharacter, ch: &Chapter)
        requires
            old(self).wf(),
        ensures
            final(self).same_but_issues(old(self)),
            final(self).wf(),
            iv(final(self).issues@) == iv(old(self).issues@) + spec_appears_issues(*old(self).eng, cid@, *ch, *cc),
    {
        let ghost e = *self.eng;
        let ghost i0 = iv(self.issues@);
        match &cc.appears_in {
            Some(list) => {
                let ghost ls = strs(list@);
                let ghost f = |s: Seq<char>|
                    only_if(
                        !strs(ch.scenes@).contains(s),
                        w1("章节 "@ + cid@ + " 角色 "@ + cc.id@ + " 的 appears_in 引用了非本章场景："@ + s),
                    ) + only_if(
                        !scene_known(e, s),
                        e1("章节 "@ + cid@ + " 角色 "@ + cc.id@ + " 的 appears_in 引用了未定义场景："@ + s),
                    );
                let mut i: usize = 0;
                while i < list.len()
                    invariant
                        *self.eng == e,
                        self.wf(),
                        self.same_but_issues(old(self)),
                        ls == strs(list@),
                        i <= ls.len(),
                        f == (|s: Seq<char>|
                            only_if(
                                !strs(ch.scenes@).contains(s),
                                w1("章节 "@ + cid@ + " 角色 "@ + cc.id@ + " 的 appears_in 引用了非本章场景："@ + s),
                            ) + only_if(
                                !scene_known(e, s),
                                e1("章节 "@ + cid@ + " 角色 "@ + cc.id@ + " 的 appears_in 引用了未定义场景："@ + s),
                            )),
                        iv(self.issues@) == i0 + each(ls.take(i as int), f),
                    decreases ls.len() - i,
                {
                    proof {
                        lemma_each_step(ls, i as int, f);
                    }
                    let s = list[i].as_str();
                    assert(ls[i as int] == s@);
                    let ghost b = iv(self.issues@);
                    if position_of(ch.scenes.as_slice(), s).is_none() {
                        let mut m = join3("章节 ", cid, " 角色 ");
                        m.append(cc.id.as_str());
                        m.append(" 的 appears_in 引用了非本章场景：");
                        m.append(s);
                        self.warn(m);
                    }
                    let ghost b1 = iv(self.issues@);
                    if !self.eng.scene_exists(s) {
                        let mut m = join3("章节 ", cid, " 角色 ");
                        m.append(cc.id.as_str());
                        m.append(" 的 appears_in 引用了未定义场景：");
                        m.append(s);
                        self.err(m);
                    }
                    assert(iv(self.issues@) =~= b + f(s@));
                    i += 1;
                }
                proof {
                    lemma_each_all(ls, f);
                }
            },
            None => {
                assert(iv(self.issues@) =~= i0 + Seq::<IssueView>::empty());
            },
        }
    }

    fn check_topic(&mut self, cid: &str, cc: &ChapterCharacter, k: usize)
        requires
            old(self).wf(),
            k < cc.topics@.len(),
        ensures
            final(self).same_but_issues(old(self)),
            final(self).wf(),
            iv(final(self).issues@) == iv(old(self).issues@) + spec_topic_issues(*old(self).eng, cid@, *cc, k as int),
    {
        let ghost i0 = iv(self.issues@);
        let t = &cc.topics[k];
        let mut seen = false;
        let mut m: usize = 0;
        while m < k
            invariant
                m <= k < cc.topics@.len(),
                seen == topic_ids(cc.topics@, m as int).contains(t.id@),
            decreases k - m,
        {
            proof {
                assert(topic_ids(cc.topics@, m + 1) =~= topic_ids(cc.topics@, m as int).push(cc.topics@[m as int].id@));
                crate::text::lemma_push_contains(topic_ids(cc.topics@, m as int), cc.topics@[m as int].id@);
            }
            if str_eq(cc.topics[m].id.as_str(), t.id.as_str()) {
                seen = true;
            }
            m += 1;
        }
        if seen {
            let mut m = join3("章节 ", cid, " 角色 ");
            m.append(cc.id.as_str());
            m.append(" 的话题 id 重复：");
            m.append(t.id.as_str());
            self.err(m);
        }
        let ghost i1 = iv(self.issues@);
        if !self.eng.dialogue_topic_exists(cid, cc.id.as_str(), t.id.as_str()) {
            let mut m = join3("章节 ", cid, " 角色 ");
            m.append(cc.id.as_str());
            m.append(" 的话题 ");
            m.append(t.id.as_str());
            m.append(" 在对话文件中不存在");
            self.err(m);
        }
        let ghost i2 = iv(self.issues@);
        let has_surf = self.eng.get_dialogue(cid, cc.id.as_str(), t.id.as_str(), World::Surface).is_some();
        let has_shadow = self.eng.get_dialogue(cid, cc.id.as_str(), t.id.as_str(), World::Shadow).is_some();
        if has_shadow && !has_surf {
            let mut m = join3("章节 ", cid, " 角色 ");
            m.append(cc.id.as_str());
            m.append(" 话题 ");
            m.append(t.id.as_str());
            m.append(" 仅有影子版本，缺少表面对照");
            self.advice(m);
        }
        assert(iv(self.issues@) =~= i0 + spec_topic_issues(*self.eng, cid@, *cc, k as int));
    }

    fn check_character(&mut self, cid: &str, ch: &Chapter, k: usize)
        requires
            old(self).wf(),
            k < ch.characters@.len(),
        ensures
            final(self).same_but_issues(old(self)),
            final(self).wf(),
            iv(final(self).issues@) == iv(old(self).issues@) + spec_character_issues(*old(self).eng, cid@, *ch, k as int),
    {
        let ghost e = *self.eng;
        let ghost i0 = iv(self.issues@);
        let cc = &ch.characters[k];
        if !self.eng.character_exists(cc.id.as_str()) {
            self.err(join3(join("章节 ", cid).as_str(), " 引用了未定义的角色：", cc.id.as_str()));
        }
        let ghost i1 = iv(self.issues@);
        let mut seen = false;
        let mut m: usize = 0;
        while m < k
            invariant
                m <= k < ch.characters@.len(),
                *cc == ch.characters@[k as int],
                seen == char_ids(ch.characters@, m as int).contains(cc.id@),
            decreases k - m,
        {
            proof {
                assert(char_ids(ch.characters@, m + 1) =~= char_ids(ch.characters@, m as int).push(ch.characters@[m as int].id@));
                crate::text::lemma_push_contains(char_ids(ch.characters@, m as int), ch.characters@[m as int].id@);
            }
            if str_eq(ch.characters[m].id.as_str(), cc.id.as_str()) {
                seen = true;
            }
            m += 1;
        }
        if seen {
            self.err(join3(join("章节 ", cid).as_str(), " 角色重复声明：", cc.id.as_str()));
        }
        let ghost i2 = iv(self.issues@);
        self.check_appears_in(cid, cc, ch);
        let ghost i3 = iv(self.issues@);
        let ghost f = |t: int| spec_topic_issues(e, cid@, *cc, t);
        let mut t: usize = 0;
        while t < cc.topics.len()
            invariant
                *self.eng == e,
                self.wf(),
                self.same_but_issues(old(self)),
                t <= cc.topics@.len(),
                f == (|t: int| spec_topic_issues(e, cid@, *cc, t)),
                iv(self.issues@) == i3 + each_index(t as int, f),
            decreases cc.topics@.len() - t,
        {
            proof {
                lemma_each_index_step(t as int, f);
            }
            self.check_topic(cid, cc, t);
            t += 1;
        }
        assert(iv(self.issues@) =~= i0 + spec_character_issues(e, cid@, *ch, k as int));
    }

    /// Declared characters exist and are unique, `appears_in`, topics.
    fn check_chapter_characters(&mut self, cid: &str, ch: &Chapter)
        requires
            old(self).wf(),
        ensures
            final(self).same_but_issues(old(self)),
            final(self).wf(),
            iv(final(self).issues@) == iv(old(self).issues@) + each_index(
                ch.characters@.len() as int,
                |k: int| spec_character_issues(*old(self).eng, cid@, *ch, k),
            ),
    {
        let ghost e = *self.eng;
        let ghost i0 = iv(self.issues@);
        let ghost f = |k: int| spec_character_issues(e, cid@, *ch, k);
        let mut k: usize = 0;
        while k < ch.characters.len()
            invariant
                *self.eng == e,
                self.wf(),
                self.same_but_issues(old(self)),
                k <= ch.characters@.len(),
                f == (|k: int| spec_character_issues(e, cid@, *ch, k)),
                iv(self.issues@) == i0 + each_index(k as int, f),
            decreases ch.characters@.len() - k,
        {
            proof {
                lemma_each_index_step(k as int, f);
            }
            self.check_character(cid, ch, k);
            k += 1;
        }
    }

    fn check_judgment(&mut self, cid: &str, ch: &Chapter, js: &[Judgment], k: usize)
        requires
            old(self).wf(),
            js@ == old(self).eng.spec_judgments(cid@),
            k < js@.len(),
        ensures
            final(self).same_but_issues(old(self)),
            final(self).wf(),
            iv(final(self).issues@) == iv(old(self).issues@) + spec_judgment_issues(*old(self).eng, cid@, *ch, k as int),
    {
        let ghost i0 = iv(self.issues@);
        let j = &js[k];
        let mut seen_id = false;
        let mut seen_target = false;
        let mut m: usize = 0;
        while m < k
            invariant
                m <= k < js@.len(),
                *j == js@[k as int],
                seen_id == judgment_ids(js@, m as int).contains(j.id@),
                seen_target == judgment_targets(js@, m as int).contains(j.target@),
            decreases k - m,
        {
            proof {
                assert(judgment_ids(js@, m + 1) =~= judgment_ids(js@, m as int).push(js@[m as int].id@));
                crate::text::lemma_push_contains(judgment_ids(js@, m as int), js@[m as int].id@);
                assert(judgment_targets(js@, m + 1) =~= judgment_targets(js@, m as int).push(js@[m as int].target@));
                crate::text::lemma_push_contains(judgment_targets(js@, m as int), js@[m as int].target@);
            }
            if str_eq(js[m].id.as_str(), j.id.as_str()) {
                seen_id = true;
            }
            if str_eq(js[m].target.as_str(), j.target.as_str()) {
                seen_target = true;
            }
            m += 1;
        }
        if seen_id {
            self.err(join3(join("章节 ", cid).as_str(), " 审判点 id 重复：", j.id.as_str()));
        }
        let ghost i1 = iv(self.issues@);
        if get_key(&ch.characters, j.target.as_str()).is_none() {
            let mut m = join3("章节 ", cid, " 审判 ");
            m.append(j.id.as_str());
            m.append(" 的 target ");
            m.append(j.target.as_str());
            m.append(" 未在本章 characters 中声明");
            self.err(m);
        }
        let ghost i2 = iv(self.issues@);
        if seen_target {
            let mut m = join3("章节 ", cid, " 角色 ");
            m.append(j.target.as_str());
            m.append(" 被多个审判点指向（一章内一个角色一个审判点）");
            self.err(m);
        }
        let ghost i3 = iv(self.issues@);
        if self.eng.get_result_text(cid, j.id.as_str()).is_none() {
            let mut m = join3("章节 ", cid, " 审判 ");
            m.append(j.id.as_str());
            m.append(" 的 result 文件缺失");
            self.err(m);
        }
        assert(iv(self.issues@) =~= i0 + spec_judgment_issues(*self.eng, cid@, *ch, k as int));
    }

    fn check_required_judgments(&mut self, cid: &str, ch: &Chapter, js: &[Judgment])
        requires
            old(self).wf(),
            js@ == old(self).eng.spec_judgments(cid@),
        ensures
            final(self).same_but_issues(old(self)),
            final(self).wf(),
            iv(final(self).issues@) == iv(old(self).issues@) + spec_required_issues(*old(self).eng, cid@, *ch),
    {
        let ghost e = *self.eng;
        let ghost i0 = iv(self.issues@);
        match &ch.required_judgments {
            None => {
                assert(iv(self.issues@) =~= i0 + Seq::<IssueView>::empty());
            },
            Some(req) => {
                if req.len() == 0 {
                    self.err(join3("章节 ", cid, " 的 required_judgments 显式为空数组（不合法）"));
                } else {
                    let ghost jids = js@.map_values(|j: Judgment| j.id@);
                    let ghost rs = strs(req@);
                    let ghost f = |r: Seq<char>|
                        only_if(
                            !e.spec_judgments(cid@).map_values(|j: Judgment| j.id@).contains(r),
                            e1("章节 "@ + cid@ + " 的 required_judgments 引用了未知审判点："@ + r),
                        );
                    let mut i: usize = 0;
                    while i < req.len()
                        invariant
                            *self.eng == e,
                            self.wf(),
                            self.same_but_issues(old(self)),
                            js@ == e.spec_judgments(cid@),
                            jids == js@.map_values(|j: Judgment| j.id@),
                            rs == strs(req@),
                            i <= rs.len(),
                            f == (|r: Seq<char>|
                                only_if(
                                    !e.spec_judgments(cid@).map_values(|j: Judgment| j.id@).contains(r),
                                    e1("章节 "@ + cid@ + " 的 required_judgments 引用了未知审判点："@ + r),
                                )),
                            iv(self.issues@) == i0 + each(rs.take(i as int), f),
                        decreases rs.len() - i,
                    {
                        proof {
                            lemma_each_step(rs, i as int, f);
                        }
                        let r = req[i].as_str();
                        assert(rs[i as int] == r@);
                        let mut found = false;
                        let mut m: usize = 0;
                        while m < js.len()
                            invariant
                                m <= js@.len(),
                                jids == js@.map_values(|j: Judgment| j.id@),
                                found == jids.take(m as int).contains(r@),
                            decreases js@.len() - m,
                        {
                            proof {
                                assert(jids.take(m + 1) =~= jids.take(m as int).push(jids[m as int]));
                                crate::text::lemma_push_contains(jids.take(m as int), jids[m as int]);
                            }
                            if str_eq(js[m].id.as_str(), r) {
                                found = true;
                            }
                            m += 1;
                        }
                        assert(jids.take(js@.len() as int) =~= jids);
                        if !found {
                            self.err(join3(join("章节 ", cid).as_str(), " 的 required_judgments 引用了未知审判点：", r));
                        } else {
                            assert(iv(self.issues@) =~= iv(self.issues@) + Seq::<IssueView>::empty());
                        }
                        i += 1;
                    }
                    proof {
                        lemma_each_all(rs, f);
                    }
                }
            },
        }
    }

    /// Judgments, `required_judgments` and `next` targets.
    fn check_chapter_judgments(&mut self, cid: &str, ch: &Chapter)
        requires
            old(self).wf(),
        ensures
            final(self).same_but_issues(old(self)),
            final(self).wf(),
            iv(final(self).issues@) == iv(old(self).issues@) + spec_judgments_of_chapter(*old(self).eng, cid@, *ch),
    {
        let ghost e = *self.eng;
        let ghost i0 = iv(self.issues@);
        let js = self.eng.get_judgments(cid);
        if js.len() == 0 {
            self.err(join3("章节 ", cid, " 必须至少定义一个审判点"));
        }
        let ghost i1 = iv(self.issues@);
        let ghost f = |k: int| spec_judgment_issues(e, cid@, *ch, k);
        let mut k: usize = 0;
        while k < js.len()
            invariant
                *self.eng == e,
                self.wf(),
                self.same_but_issues(old(self)),
                js@ == e.spec_judgments(cid@),
                k <= js@.len(),
                f == (|k: int| spec_judgment_issues(e, cid@, *ch, k)),
                iv(self.issues@) == i1 + each_index(k as int, f),
            decreases js@.len() - k,
        {
            proof {
                lemma_each_index_step(k as int, f);
            }
            self.check_judgment(cid, ch, js, k);
            k += 1;
        }
        let ghost i2 = iv(self.issues@);
        self.check_required_judgments(cid, ch, js);
        let ghost i3 = iv(self.issues@);
        if !ch.ending {
            let ts = self.eng.next_targets(cid);
            let ghost tv = strs_ref(ts@);
            let ghost g = |t: Seq<char>| only_if(!known(e, t), e1("章节 "@ + cid@ + " 的跳转目标不存在："@ + t));
            let mut i: usize = 0;
            while i < ts.len()
                invariant
                    *self.eng == e,
                    self.wf(),
                    self.same_but_issues(old(self)),
                    tv == strs_ref(ts@),
                    tv == targets_of(e, cid@),
                    i <= tv.len(),
                    g == (|t: Seq<char>| only_if(!known(e, t), e1("章节 "@ + cid@ + " 的跳转目标不存在："@ + t))),
                    iv(self.issues@) == i3 + each(tv.take(i as int), g),
                decreases tv.len() - i,
            {
                proof {
                    lemma_each_step(tv, i as int, g);
                }
                assert(tv[i as int] == ts@[i as int]@);
                if !self.eng.chapter_exists(ts[i]) {
                    self.err(join3(join("章节 ", cid).as_str(), " 的跳转目标不存在：", ts[i]));
                } else {
                    assert(iv(self.issues@) =~= iv(self.issues@) + Seq::<IssueView>::empty());
                }
                i += 1;
            }
            proof {
                lemma_each_all(tv, g);
            }
        }
        assert(iv(self.issues@) =~= i0 + spec_judgments_of_chapter(e, cid@, *ch));
    }

    fn check_clue(&mut self, cid: &str, ch: &Chapter, clue: &Clue)
        requires
            old(self).wf(),
        ensures
            final(self).same_but_issues(old(self)),
            final(self).wf(),
            iv(final(self).issues@) == iv(old(self).issues@) + spec_clue_issues(*old(self).eng, cid@, *ch, *clue),
    {
        let ghost i0 = iv(self.issues@);
        match parse_dialogue_source(clue.source.as_str()) {
            None => {
                let mut m = join3("章节 ", cid, " 线索 ");
                m.append(clue.id.as_str());
                m.append(" 的 source 格式非法：");
                m.append(clue.source.as_str());
                self.err(m);
            },
            Some((cchar, ctopic)) => {
                if get_key(&ch.characters, cchar).is_none() {
                    let mut m = join3("章节 ", cid, " 线索 ");
                    m.append(clue.id.as_str());
                    m.append(" 的 source 引用了未知角色：");
                    m.append(cchar);
                    self.err(m);
                }
                let ghost i1 = iv(self.issues@);
                if !self.eng.dialogue_topic_exists(cid, cchar, ctopic) {
                    let mut m = join3("章节 ", cid, " 线索 ");
                    m.append(clue.id.as_str());
                    m.append(" 的 source 引用了不存在的话题：");
                    m.append(cchar);
                    m.append(".");
                    m.append(ctopic);
                    self.err(m);
                }
                let ghost i2 = iv(self.issues@);
                if self.eng.get_dialogue(cid, cchar, ctopic, clue.world).is_none() {
                    let mut m = join3("章节 ", cid, " 线索 ");
                    m.append(clue.id.as_str());
                    m.append(" 的 world(");
                    m.append(clue.world.label());
                    m.append(") 与对话 ");
                    m.append(cchar);
                    m.append(".");
                    m.append(ctopic);
                    m.append(" 实际存在的世界不一致");
                    self.err(m);
                }
                assert(iv(self.issues@) =~= i0 + spec_clue_issues(*self.eng, cid@, *ch, *clue));
            },
        }
    }

    /// Clue sources and worlds.
    fn check_chapter_clues(&mut self, cid: &str, ch: &Chapter)
        requires
            old(self).wf(),
        ensures
            final(self).same_but_issues(old(self)),
            final(self).wf(),
            iv(final(self).issues@) == iv(old(self).issues@) + each(
                old(self).eng.spec_clues(cid@),
                |c: Clue| spec_clue_issues(*old(self).eng, cid@, *ch, c),
            ),
    {
        let ghost e = *self.eng;
        let ghost i0 = iv(self.issues@);
        let cs = self.eng.get_clues(cid);
        let ghost f = |c: Clue| spec_clue_issues(e, cid@, *ch, c);
        let mut i: usize = 0;
        while i < cs.len()
            invariant
                *self.eng == e,
                self.wf(),
                self.same_but_issues(old(self)),
                cs@ == e.spec_clues(cid@),
                i <= cs@.len(),
                f == (|c: Clue| spec_clue_issues(e, cid@, *ch, c)),
                iv(self.issues@) == i0 + each(cs@.take(i as int), f),
            decreases cs@.len() - i,
        {
            proof {
                lemma_each_step(cs@, i as int, f);
            }
            self.check_clue(cid, ch, &cs[i]);
            i += 1;
        }
        proof {
            lemma_each_all(cs@, f);
        }
    }

    /// Narrative items: a label, valid condition ids, a text.
    fn check_chapter_narrative(&mut self, cid: &str, ch: &Chapter)
        requires
            old(self).wf(),
        ensures
            final(self).same_but_issues(old(self)),
            final(self).wf(),
            iv(final(self).issues@) == iv(old(self).issues@) + each(
                ch.narrative@,
                |n: NarrativeItem| spec_narrative_issues(*old(self).eng, cid@, n),
            ),
    {
        let ghost e = *self.eng;
        let ghost i0 = iv(self.issues@);
        let ghost f = |n: NarrativeItem| spec_narrative_issues(e, cid@, n);
        let mut i: usize = 0;
        while i < ch.narrative.len()
            invariant
                *self.eng == e,
                self.wf(),
                self.same_but_issues(old(self)),
                i <= ch.narrative@.len(),
                f == (|n: NarrativeItem| spec_narrative_issues(e, cid@, n)),
                iv(self.issues@) == i0 + each(ch.narrative@.take(i as int), f),
            decreases ch.narrative@.len() - i,
        {
            proof {
                lemma_each_step(ch.narrative@, i as int, f);
            }
            let n = &ch.narrative[i];
            let ghost b = iv(self.issues@);
            if trim(n.label.as_str()).unicode_len() == 0 {
                let mut m = join3("章节 ", cid, " 叙事触发器 ");
                m.append(n.id.as_str());
                m.append(" 缺少 label");
                self.warn(m);
            }
            let ghost b1 = iv(self.issues@);
            match &n.when {
                Some(c) => {
                    self.validate_condition(cid, c);
                },
                None => {
                    assert(iv(self.issues@) =~= b1 + Seq::<IssueView>::empty());
                },
            }
            let ghost b2 = iv(self.issues@);
            if self.eng.get_narrative_text(cid, n.id.as_str()).is_none() {
                let mut m = join3("章节 ", cid, " 叙事触发器 ");
                m.append(n.id.as_str());
                m.append(" 的 text 文件缺失");
                self.err(m);
            }
            assert(iv(self.issues@) =~= b + f(*n));
            i += 1;
        }
        proof {
            lemma_each_all(ch.narrative@, f);
        }
    }
}

} // verus!
