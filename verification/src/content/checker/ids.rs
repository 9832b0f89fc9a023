//! Global ids: non-empty, outside the engine's reserved names, and unique
//! across scenes, characters, chapters, clues, judgments and narrative items.

use vstd::prelude::*;

use crate::content::checker::{
    cids, defs, e1, each, iv, lemma_each_all, lemma_each_step, only_if, sids, Checker, DefKind,
    IssueView,
};
use crate::content::engine::ContentEngine;
use crate::content::models::{Character, LEAVE_ATTEMPT_TRIGGER};
use crate::strmap::StrMap;
use crate::text::{dec, join, join3, owned, seq_starts_with, starts_with, str_eq, strs, strs_ref, usize_str};

verus! {

/// Ids the engine reserves: the `__` prefix (the move pseudo-exit
/// `__leave`) and the leave-attempt narrative id.
pub open spec fn reserved(id: Seq<char>) -> bool {
    seq_starts_with(id, "__"@) || id == "leave_attempt"@
}

/// Whether an id is reserved by the engine.
pub fn is_reserved_id(id: &str) -> (r: bool)
    ensures
        r == reserved(id@),
{
    proof {
        reveal_strlit("leave_attempt");
    }
    starts_with(id, "__") || str_eq(id, LEAVE_ATTEMPT_TRIGGER)
}

/// Every global id with the label of its kind, in check order: scenes,
/// characters, chapters, then per chapter its clues, judgments and
/// narrative items.
pub open spec fn all_ids(e: ContentEngine) -> Seq<(Seq<char>, Seq<char>)> {
    sids(e).map_values(|s: Seq<char>| (s, "场景"@)) + e.characters@.map_values(
        |c: Character| (c.id@, "角色"@),
    ) + cids(e).map_values(|c: Seq<char>| (c, "章节"@)) + cids(e).map_values(
        |c: Seq<char>|
            defs(e, DefKind::Clue, c).map_values(|i: Seq<char>| (i, "线索"@)) + defs(
                e,
                DefKind::Judgment,
                c,
            ).map_values(|i: Seq<char>| (i, "审判点"@)) + defs(e, DefKind::Narrative, c).map_values(
                |i: Seq<char>| (i, "叙事触发器"@),
            ),
    ).flatten()
}

/// Issues of one id: empty, or reserved.
pub open spec fn id_shape_issues(p: (Seq<char>, Seq<char>)) -> Seq<IssueView> {
    only_if(p.0.len() == 0, e1("存在空的 "@ + p.1 + " id"@)) + only_if(
        reserved(p.0),
        e1(
            p.1 + " id \""@ + p.0
                + "\" 占用了引擎保留命名空间（\"__\" 前缀或走不出去触发器 \"leave_attempt\"），禁止作者使用"@,
        ),
    )
}

/// The distinct values of `s`, in order of first appearance.
pub open spec fn firsts(s: Seq<Seq<char>>) -> Seq<Seq<char>>
    decreases s.len(),
{
    if s.len() == 0 {
        s
    } else {
        let r = firsts(s.drop_last());
        if s.drop_last().contains(s.last()) {
            r
        } else {
            r.push(s.last())
        }
    }
}

/// Equality with `x`, as a predicate.
pub open spec fn eq_to(x: Seq<char>) -> spec_fn(Seq<char>) -> bool {
    |y: Seq<char>| y == x
}

/// How many times `x` occurs in `s`.
pub open spec fn count(s: Seq<Seq<char>>, x: Seq<char>) -> nat {
    s.filter(eq_to(x)).len()
}

/// The duplicate-id issue of a distinct id.
pub open spec fn dup_issue(ids: Seq<Seq<char>>, d: Seq<char>) -> Seq<IssueView> {
    only_if(count(ids, d) > 1, e1("id 全局重复："@ + d + " 出现 "@ + dec(count(ids, d)) + " 次"@))
}

/// Issues of the id checks: each id's shape, then each id that occurs more
/// than once, in order of first appearance.
pub open spec fn spec_id_issues(e: ContentEngine) -> Seq<IssueView> {
    let ps = all_ids(e);
    let ids = ps.map_values(|p: (Seq<char>, Seq<char>)| p.0);
    each(ps, |p: (Seq<char>, Seq<char>)| id_shape_issues(p)) + each(firsts(ids), |d: Seq<char>| dup_issue(ids, d))
}

fn push_labeled<'a>(out: &mut Vec<(&'a str, &'static str)>, ids: &Vec<&'a str>, label: &'static str)
    ensures
        final(out)@.map_values(|p: (&str, &str)| (p.0@, p.1@)) == old(out)@.map_values(
            |p: (&str, &str)| (p.0@, p.1@),
        ) + strs_ref(ids@).map_values(|s: Seq<char>| (s, label@)),
{
    let ghost o0 = old(out)@.map_values(|p: (&str, &str)| (p.0@, p.1@));
    let mut i: usize = 0;
    while i < ids.len()
        invariant
            i <= ids@.len(),
            out@.map_values(|p: (&str, &str)| (p.0@, p.1@)) == o0 + strs_ref(ids@).take(i as int).map_values(
                |s: Seq<char>| (s, label@),
            ),
        decreases ids@.len() - i,
    {
        let ghost before = out@.map_values(|p: (&str, &str)| (p.0@, p.1@));
        out.push((ids[i], label));
        proof {
            assert(out@.map_values(|p: (&str, &str)| (p.0@, p.1@)) =~= before.push((ids@[i as int]@, label@)));
            assert(strs_ref(ids@).take(i + 1) =~= strs_ref(ids@).take(i as int).push(ids@[i as int]@));
            assert(out@.map_values(|p: (&str, &str)| (p.0@, p.1@)) =~= o0 + strs_ref(ids@).take(i + 1).map_values(
                |s: Seq<char>| (s, label@),
            ));
        }
        i += 1;
    }
    assert(strs_ref(ids@).take(ids@.len() as int) =~= strs_ref(ids@));
}

/// Every global id with its kind label, in check order.
fn labeled_ids(eng: &ContentEngine) -> (r: Vec<(&str, &'static str)>)
    ensures
        r@.map_values(|p: (&str, &str)| (p.0@, p.1@)) == all_ids(*eng),
{
    let mut out: Vec<(&str, &'static str)> = Vec::new();
    let scenes = eng.scene_ids();
    push_labeled(&mut out, &scenes, "场景");
    let chars = eng.character_ids();
    push_labeled(&mut out, &chars, "角色");
    let chapters = eng.chapter_ids();
    push_labeled(&mut out, &chapters, "章节");
    let ghost head = out@.map_values(|p: (&str, &str)| (p.0@, p.1@));
    let ghost f = |c: Seq<char>|
        defs(*eng, DefKind::Clue, c).map_values(|i: Seq<char>| (i, "线索"@)) + defs(*eng, DefKind::Judgment, c).map_values(
            |i: Seq<char>| (i, "审判点"@),
        ) + defs(*eng, DefKind::Narrative, c).map_values(|i: Seq<char>| (i, "叙事触发器"@));
    proof {
        assert(strs_ref(scenes@) == sids(*eng));
        assert(head =~= sids(*eng).map_values(|s: Seq<char>| (s, "场景"@)) + eng.characters@.map_values(
            |c: Character| (c.id@, "角色"@),
        ) + cids(*eng).map_values(|c: Seq<char>| (c, "章节"@)));
    }
    let mut i: usize = 0;
    while i < chapters.len()
        invariant
            i <= chapters@.len(),
            strs_ref(chapters@) == cids(*eng),
            f == (|c: Seq<char>|
                defs(*eng, DefKind::Clue, c).map_values(|i: Seq<char>| (i, "线索"@)) + defs(
                    *eng,
                    DefKind::Judgment,
                    c,
                ).map_values(|i: Seq<char>| (i, "审判点"@)) + defs(*eng, DefKind::Narrative, c).map_values(
                    |i: Seq<char>| (i, "叙事触发器"@),
                )),
            out@.map_values(|p: (&str, &str)| (p.0@, p.1@)) == head + cids(*eng).take(i as int).map_values(f).flatten(),
        decreases chapters@.len() - i,
    {
        let cid = chapters[i];
        assert(cid@ == cids(*eng)[i as int]);
        let ghost before = out@.map_values(|p: (&str, &str)| (p.0@, p.1@));
        let clues = super::def_ids(eng, DefKind::Clue, cid);
        push_labeled(&mut out, &clues, "线索");
        let js = super::def_ids(eng, DefKind::Judgment, cid);
        push_labeled(&mut out, &js, "审判点");
        let ns = super::def_ids(eng, DefKind::Narrative, cid);
        push_labeled(&mut out, &ns, "叙事触发器");
        proof {
            assert(cids(*eng).take(i + 1).map_values(f) =~= cids(*eng).take(i as int).map_values(f).push(f(cid@)));
            cids(*eng).take(i as int).map_values(f).lemma_flatten_push(f(cid@));
            assert(out@.map_values(|p: (&str, &str)| (p.0@, p.1@)) =~= head + cids(*eng).take(i + 1).map_values(f).flatten());
        }
        i += 1;
    }
    assert(cids(*eng).take(cids(*eng).len() as int) =~= cids(*eng));
    out
}

proof fn lemma_count_push(s: Seq<Seq<char>>, x: Seq<char>, d: Seq<char>)
    ensures
        count(s.push(x), d) == count(s, d) + if x == d { 1nat } else { 0nat },
        count(s, d) <= s.len(),
{
    let p = eq_to(d);
    s.lemma_filter_push(x, p);
    s.lemma_filter_len(p);
    assert(count(s.push(x), d) == s.push(x).filter(p).len());
    assert(count(s, d) == s.filter(p).len());
}

proof fn lemma_count_zero(s: Seq<Seq<char>>, d: Seq<char>)
    requires
        !s.contains(d),
    ensures
        count(s, d) == 0,
    decreases s.len(),
{
    if s.len() > 0 {
        assert(!s.drop_last().contains(d)) by {
            if s.drop_last().contains(d) {
                let q = choose|q: int| 0 <= q < s.drop_last().len() && s.drop_last()[q] == d;
                assert(s[q] == d);
            }
        }
        lemma_count_zero(s.drop_last(), d);
        assert(s.drop_last().push(s.last()) =~= s);
        lemma_count_push(s.drop_last(), s.last(), d);
        assert(s[s.len() - 1] != d);
    }
}

impl<'a> Checker<'a> {
    fn count_id(&mut self, id: &str, label: &str)
        ensures
            final(self).same_but_issues(old(self)),
            iv(final(self).issues@) == iv(old(self).issues@) + id_shape_issues((id@, label@)),
    {
        let ghost i0 = iv(self.issues@);
        if id.unicode_len() == 0 {
            self.err(join3("存在空的 ", label, " id"));
        }
        let ghost i1 = iv(self.issues@);
        if is_reserved_id(id) {
            let mut m = join3(label, " id \"", id);
            m.append("\" 占用了引擎保留命名空间（\"__\" 前缀或走不出去触发器 \"leave_attempt\"），禁止作者使用");
            self.err(m);
        }
        assert(iv(self.issues@) =~= i0 + id_shape_issues((id@, label@)));
    }

    /// Global ids are non-empty, outside the reserved names, and unique.
    pub fn check_id_uniqueness(&mut self)
        requires
            old(self).wf(),
        ensures
            final(self).same_but_issues(old(self)),
            final(self).wf(),
            iv(final(self).issues@) == iv(old(self).issues@) + spec_id_issues(*old(self).eng),
    {
        let ghost e = *self.eng;
        let ghost i0 = iv(self.issues@);
        let all = labeled_ids(self.eng);
        let ghost ps = all_ids(e);
        let ghost ids = ps.map_values(|p: (Seq<char>, Seq<char>)| p.0);
        let ghost f = |p: (Seq<char>, Seq<char>)| id_shape_issues(p);
        let mut order: Vec<String> = Vec::new();
        let mut counts: StrMap<usize> = StrMap::new();
        let mut i: usize = 0;
        while i < all.len()
            invariant
                *self.eng == e,
                self.wf(),
                self.same_but_issues(old(self)),
                i <= all@.len(),
                all@.map_values(|p: (&str, &str)| (p.0@, p.1@)) == ps,
                ids == ps.map_values(|p: (Seq<char>, Seq<char>)| p.0),
                f == (|p: (Seq<char>, Seq<char>)| id_shape_issues(p)),
                iv(self.issues@) == i0 + each(ps.take(i as int), f),
                strs(order@) == firsts(ids.take(i as int)),
                forall|d: Seq<char>| #[trigger] counts@.contains_key(d) <==> ids.take(i as int).contains(d),
                forall|d: Seq<char>| #[trigger] counts@.contains_key(d) ==> counts@[d] == count(ids.take(i as int), d),
            decreases all@.len() - i,
        {
            let (id, label) = all[i];
            assert(ps[i as int] == (id@, label@));
            proof {
                lemma_each_step(ps, i as int, f);
            }
            self.count_id(id, label);
            proof {
                assert(ids.take(i + 1) =~= ids.take(i as int).push(id@));
                assert(ids.take(i + 1).drop_last() =~= ids.take(i as int));
                crate::text::lemma_push_contains(ids.take(i as int), id@);
                assert forall|d: Seq<char>| count(ids.take(i + 1), d) == count(ids.take(i as int), d) + if id@ == d { 1nat } else { 0nat } by {
                    lemma_count_push(ids.take(i as int), id@, d);
                }
                lemma_count_push(ids.take(i as int), id@, id@);
            }
            let ghost c0 = counts@;
            if !counts.contains_key(id) {
                order.push(owned(id));
                proof {
                    lemma_count_zero(ids.take(i as int), id@);
                }
            }
            let c = counts.get_or_insert_mut(id, 0);
            *c = *c + 1;
            proof {
                assert(strs(order@) =~= firsts(ids.take(i + 1)));
            }
            i += 1;
        }
        assert(ps.take(ps.len() as int) =~= ps);
        assert(ids.take(ids.len() as int) =~= ids);
        let ghost i1 = iv(self.issues@);
        let ghost g = |d: Seq<char>| dup_issue(ids, d);
        let ghost fs = firsts(ids);
        proof {
            lemma_firsts_in(ids);
        }
        let mut k: usize = 0;
        while k < order.len()
            invariant
                *self.eng == e,
                self.wf(),
                self.same_but_issues(old(self)),
                k <= order@.len(),
                strs(order@) == fs,
                g == (|d: Seq<char>| dup_issue(ids, d)),
                forall|d: Seq<char>| #[trigger] counts@.contains_key(d) <==> ids.contains(d),
                forall|d: Seq<char>| #[trigger] counts@.contains_key(d) ==> counts@[d] == count(ids, d),
                forall|t: int| 0 <= t < fs.len() ==> ids.contains(#[trigger] fs[t]),
                iv(self.issues@) == i1 + each(fs.take(k as int), g),
            decreases order@.len() - k,
        {
            let d = order[k].as_str();
            assert(fs[k as int] == d@);
            proof {
                lemma_each_step(fs, k as int, g);
            }
            match counts.get(d) {
                Some(n) => {
                    if *n > 1 {
                        let ns = usize_str(*n);
                        let mut m = join3("id 全局重复：", d, " 出现 ");
                        m.append(ns.as_str());
                        m.append(" 次");
                        self.err(m);
                    } else {
                        assert(iv(self.issues@) =~= iv(self.issues@) + Seq::<IssueView>::empty());
                    }
                },
                None => {
                    assert(ids.contains(d@));
                },
            }
            k += 1;
        }
        proof {
            lemma_each_all(fs, g);
        }
    }
}

/// Every value of `firsts(s)` occurs in `s`.
pub proof fn lemma_firsts_in(s: Seq<Seq<char>>)
    ensures
        forall|t: int| 0 <= t < firsts(s).len() ==> s.contains(#[trigger] firsts(s)[t]),
    decreases s.len(),
{
    if s.len() > 0 {
        lemma_firsts_in(s.drop_last());
        assert forall|t: int| 0 <= t < firsts(s).len() implies s.contains(#[trigger] firsts(s)[t]) by {
            if t < firsts(s.drop_last()).len() {
                let x = firsts(s.drop_last())[t];
                assert(s.drop_last().contains(x));
                let q = choose|q: int| 0 <= q < s.drop_last().len() && s.drop_last()[q] == x;
                assert(s[q] == x);
            } else {
                assert(s[s.len() - 1] == s.last());
            }
        }
    }
}

} // verus!
