//! Chapter graph checks: a unique root, no cycle, every chapter reachable
//! from the root.
//!
//! The graph's nodes are chapter ids and its edges go from a chapter to each
//! existing target of its `next`. Reachability is the least relation closed
//! under the edges: `b` is reachable from `a` when every set that holds `a`
//! and is closed under the edges holds `b`.

use vstd::prelude::*;

use crate::content::checker::{
    cids, e1, each, iv, lemma_each_all, lemma_each_step, w1, only_if, Checker, IssueView,
};
use crate::content::condition::FactSet;
use crate::content::engine::{spec_next_targets, ContentEngine};
use crate::content::models::{lemma_first_key_bounds, first_key, lookup_key, Chapter};
use crate::text::{dec, join, join3, owned, strs, strs_ref, usize_str};

verus! {

/// The chapter exists.
pub open spec fn known(e: ContentEngine, c: Seq<char>) -> bool {
    lookup_key(e.chapters@, c) is Some
}

/// Declared `next` targets of a chapter (none when it is unknown).
pub open spec fn targets_of(e: ContentEngine, c: Seq<char>) -> Seq<Seq<char>> {
    match lookup_key(e.chapters@, c) {
        Some(ch) => spec_next_targets(ch),
        None => Seq::empty(),
    }
}

/// Edges out of a chapter: its targets that exist.
pub open spec fn succ(e: ContentEngine, c: Seq<char>) -> Seq<Seq<char>> {
    targets_of(e, c).filter(|t: Seq<char>| known(e, t))
}

/// `s` is closed under the edges.
pub open spec fn closed(e: ContentEngine, s: Set<Seq<char>>) -> bool {
    forall|x: Seq<char>, y: Seq<char>| s.contains(x) && #[trigger] succ(e, x).contains(y) ==> s.contains(y)
}

/// `b` is reachable from `a` (in zero or more steps).
pub open spec fn reaches(e: ContentEngine, a: Seq<char>, b: Seq<char>) -> bool {
    forall|s: Set<Seq<char>>| #[trigger] closed(e, s) && s.contains(a) ==> s.contains(b)
}

/// `u` lies on a cycle: some edge out of `u` leads back to `u`.
pub open spec fn on_cycle(e: ContentEngine, u: Seq<char>) -> bool {
    exists|x: Seq<char>| #[trigger] succ(e, u).contains(x) && reaches(e, x, u)
}

/// A cycle is reachable from `c`.
pub open spec fn cycle_from(e: ContentEngine, c: Seq<char>) -> bool {
    exists|u: Seq<char>| #[trigger] reaches(e, c, u) && on_cycle(e, u)
}

/// Some chapter has an edge to `t`.
pub open spec fn has_incoming_edge(e: ContentEngine, t: Seq<char>) -> bool {
    exists|i: int| 0 <= i < cids(e).len() && #[trigger] succ(e, cids(e)[i]).contains(t)
}

/// Chapters without incoming edge, in load order, duplicates included.
pub open spec fn roots(e: ContentEngine) -> Seq<Seq<char>> {
    cids(e).filter(|c: Seq<char>| !has_incoming_edge(e, c))
}

/// The first chapter, from position `i` on, from which a cycle is reachable.
pub open spec fn first_cycle_from(e: ContentEngine, i: int) -> Option<Seq<char>>
    decreases cids(e).len() - i,
{
    if i < 0 || i >= cids(e).len() {
        None
    } else if cycle_from(e, cids(e)[i]) {
        Some(cids(e)[i])
    } else {
        first_cycle_from(e, i + 1)
    }
}

/// Graph issues: the root count, the first chapter from which a cycle is
/// reachable, then each chapter not reachable from the first root.
pub open spec fn spec_graph_issues(e: ContentEngine) -> Seq<IssueView> {
    let n = roots(e).len();
    let root_issues = if n == 0 {
        e1("没有任何根节点（所有章节都有入度），缺少首章"@)
    } else if n > 1 {
        e1("存在 "@ + dec(n) + " 个根节点（无入度章节），首章必须唯一"@)
    } else {
        Seq::empty()
    };
    let cycle_issues = match first_cycle_from(e, 0) {
        Some(c) => e1("章节图存在环（涉及节点 "@ + c + "），next 指针不得构成循环"@),
        None => Seq::empty(),
    };
    let orphan_issues = if n > 0 {
        each(cids(e), |c: Seq<char>| only_if(!reaches(e, roots(e)[0], c), w1("章节 "@ + c + " 从首章不可达，疑似孤立章节"@)))
    } else {
        Seq::empty()
    };
    root_issues + cycle_issues + orphan_issues
}

/// A chapter that exists is among the chapter ids.
pub(crate) proof fn lemma_known_in_cids(e: ContentEngine, c: Seq<char>)
    requires
        known(e, c),
    ensures
        cids(e).contains(c),
{
    lemma_first_key_bounds(e.chapters@, c, 0);
    let j = first_key(e.chapters@, c, 0)->0;
    assert(cids(e)[j] == c);
}

/// Edges out of a chapter.
pub fn succ_of(eng: &ContentEngine, c: &str) -> (r: Vec<String>)
    ensures
        strs(r@) == succ(*eng, c@),
{
    let ts = eng.next_targets(c);
    let ghost tv = strs_ref(ts@);
    let ghost p = |t: Seq<char>| known(*eng, t);
    let mut out: Vec<String> = Vec::new();
    let mut i: usize = 0;
    while i < ts.len()
        invariant
            i <= ts@.len(),
            tv == strs_ref(ts@),
            tv == targets_of(*eng, c@),
            p == (|t: Seq<char>| known(*eng, t)),
            strs(out@) == tv.take(i as int).filter(p),
        decreases ts@.len() - i,
    {
        proof {
            assert(tv.take(i + 1) =~= tv.take(i as int).push(tv[i as int]));
            tv.take(i as int).lemma_filter_push(tv[i as int], p);
        }
        let ghost before = strs(out@);
        if eng.chapter_exists(ts[i]) {
            out.push(owned(ts[i]));
            assert(strs(out@) =~= before.push(tv[i as int]));
        }
        i += 1;
    }
    assert(tv.take(tv.len() as int) =~= tv);
    out
}

/// Every chapter reachable from `a`.
pub fn reach_set(eng: &ContentEngine, a: &str) -> (r: FactSet)
    ensures
        forall|b: Seq<char>| #[trigger] r@.contains(b) <==> reaches(*eng, a@, b),
{
    let ghost e = *eng;
    let ghost bound = cids(e).to_set().insert(a@);
    proof {
        vstd::seq_lib::seq_to_set_is_finite(cids(e));
    }
    let mut cur = FactSet::new();
    cur.insert(owned(a));
    loop
        invariant
            *eng == e,
            bound == cids(e).to_set().insert(a@),
            bound.finite(),
            cur@.contains(a@),
            forall|x: Seq<char>| #[trigger] cur@.contains(x) ==> bound.contains(x),
            forall|s: Set<Seq<char>>, x: Seq<char>|
                #[trigger] closed(e, s) && s.contains(a@) && #[trigger] cur@.contains(x) ==> s.contains(x),
        decreases bound.len() - cur@.len(),
    {
        proof {
            cur.lemma_finite();
            vstd::set_lib::lemma_len_subset(cur@, bound);
        }
        let items = cur.to_vec();
        let ghost start = cur@;
        let mut changed = false;
        let mut i: usize = 0;
        while i < items.len()
            invariant
                *eng == e,
                bound == cids(e).to_set().insert(a@),
                bound.finite(),
                i <= items@.len(),
                forall|x: Seq<char>| #[trigger] start.contains(x) <==> strs(items@).contains(x),
                forall|x: Seq<char>| #[trigger] start.contains(x) ==> cur@.contains(x),
                forall|x: Seq<char>| #[trigger] cur@.contains(x) ==> bound.contains(x),
                forall|s: Set<Seq<char>>, x: Seq<char>|
                    #[trigger] closed(e, s) && s.contains(a@) && #[trigger] cur@.contains(x) ==> s.contains(x),
                !changed ==> cur@ == start,
                changed ==> exists|y: Seq<char>| #[trigger] cur@.contains(y) && !start.contains(y),
                forall|k: int, y: Seq<char>|
                    0 <= k < i && #[trigger] succ(e, strs(items@)[k]).contains(y) ==> cur@.contains(y),
            decreases items@.len() - i,
        {
            let x = items[i].as_str();
            assert(strs(items@)[i as int] == x@);
            assert(start.contains(x@));
            let ys = succ_of(eng, x);
            let mut j: usize = 0;
            while j < ys.len()
                invariant
                    *eng == e,
                    bound == cids(e).to_set().insert(a@),
                    j <= ys@.len(),
                    strs(ys@) == succ(e, x@),
                    start.contains(x@),
                    forall|x: Seq<char>| #[trigger] start.contains(x) ==> cur@.contains(x),
                    forall|x: Seq<char>| #[trigger] cur@.contains(x) ==> bound.contains(x),
                    forall|s: Set<Seq<char>>, x: Seq<char>|
                        #[trigger] closed(e, s) && s.contains(a@) && #[trigger] cur@.contains(x) ==> s.contains(x),
                    !changed ==> cur@ == start,
                    changed ==> exists|y: Seq<char>| #[trigger] cur@.contains(y) && !start.contains(y),
                    forall|k: int, y: Seq<char>|
                        0 <= k < i && #[trigger] succ(e, strs(items@)[k]).contains(y) ==> cur@.contains(y),
                    forall|t: int| 0 <= t < j ==> cur@.contains(#[trigger] strs(ys@)[t]),
                decreases ys@.len() - j,
            {
                let y = ys[j].as_str();
                assert(strs(ys@)[j as int] == y@);
                if !cur.contains(y) {
                    let ghost prev = cur@;
                    proof {
                        targets_of(e, x@).lemma_filter_pred(|t: Seq<char>| known(e, t), j as int);
                        lemma_known_in_cids(e, y@);
                        assert forall|s: Set<Seq<char>>| #[trigger] closed(e, s) && s.contains(a@) implies s.contains(y@) by {
                            assert(prev.contains(x@));
                            assert(s.contains(x@));
                            assert(succ(e, x@).contains(y@));
                        }
                        assert(!start.contains(y@));
                    }
                    cur.insert(owned(y));
                    changed = true;
                    assert(cur@.contains(y@));
                }
                j += 1;
            }
            proof {
                assert forall|k: int, y: Seq<char>|
                    0 <= k < i + 1 && #[trigger] succ(e, strs(items@)[k]).contains(y) implies cur@.contains(y) by {
                    if k == i {
                        let t = choose|t: int| 0 <= t < strs(ys@).len() && strs(ys@)[t] == y;
                        assert(cur@.contains(strs(ys@)[t]));
                    }
                }
            }
            i += 1;
        }
        if !changed {
            proof {
                assert forall|x: Seq<char>, y: Seq<char>| cur@.contains(x) && #[trigger] succ(e, x).contains(y) implies cur@.contains(y) by {
                    assert(strs(items@).contains(x));
                    let k = choose|k: int| 0 <= k < strs(items@).len() && strs(items@)[k] == x;
                    assert(succ(e, strs(items@)[k]).contains(y));
                }
                assert(closed(e, cur@));
                assert forall|b: Seq<char>| #[trigger] cur@.contains(b) <==> reaches(e, a@, b) by {
                    if reaches(e, a@, b) {
                        assert(closed(e, cur@) && cur@.contains(a@));
                    }
                }
            }
            return cur;
        }
        proof {
            let y = choose|y: Seq<char>| #[trigger] cur@.contains(y) && !start.contains(y);
            cur.lemma_finite();
            vstd::set_lib::lemma_len_subset(start.insert(y), cur@);
            vstd::set_lib::lemma_len_subset(cur@, bound);
        }
    }
}

/// Whether a cycle is reachable from `c`.
pub fn cycle_reachable(eng: &ContentEngine, c: &str) -> (r: bool)
    ensures
        r == cycle_from(*eng, c@),
{
    let ghost e = *eng;
    let from_c = reach_set(eng, c);
    let items = from_c.to_vec();
    let mut i: usize = 0;
    while i < items.len()
        invariant
            *eng == e,
            i <= items@.len(),
            forall|b: Seq<char>| #[trigger] from_c@.contains(b) <==> reaches(e, c@, b),
            forall|b: Seq<char>| #[trigger] from_c@.contains(b) <==> strs(items@).contains(b),
            forall|k: int| 0 <= k < i ==> !on_cycle(e, #[trigger] strs(items@)[k]),
        decreases items@.len() - i,
    {
        let u = items[i].as_str();
        assert(strs(items@)[i as int] == u@);
        let xs = succ_of(eng, u);
        let mut j: usize = 0;
        while j < xs.len()
            invariant
                *eng == e,
                j <= xs@.len(),
                strs(xs@) == succ(e, u@),
                i < items@.len(),
                strs(items@)[i as int] == u@,
                forall|b: Seq<char>| #[trigger] from_c@.contains(b) <==> reaches(e, c@, b),
                forall|b: Seq<char>| #[trigger] from_c@.contains(b) <==> strs(items@).contains(b),
                forall|t: int| 0 <= t < j ==> !reaches(e, #[trigger] strs(xs@)[t], u@),
            decreases xs@.len() - j,
        {
            let x = xs[j].as_str();
            assert(strs(xs@)[j as int] == x@);
            let back = reach_set(eng, x);
            if back.contains(u) {
                proof {
                    assert(succ(e, u@).contains(x@));
                    assert(on_cycle(e, u@));
                    assert(strs(items@).contains(u@));
                    assert(from_c@.contains(u@));
                    assert(reaches(e, c@, u@));
                }
                return true;
            }
            j += 1;
        }
        proof {
            if on_cycle(e, u@) {
                let x = choose|x: Seq<char>| #[trigger] succ(e, u@).contains(x) && reaches(e, x, u@);
                let t = choose|t: int| 0 <= t < strs(xs@).len() && strs(xs@)[t] == x;
                assert(!reaches(e, strs(xs@)[t], u@));
            }
        }
        i += 1;
    }
    proof {
        if cycle_from(e, c@) {
            let u = choose|u: Seq<char>| #[trigger] reaches(e, c@, u) && on_cycle(e, u);
            assert(from_c@.contains(u));
            let k = choose|k: int| 0 <= k < strs(items@).len() && strs(items@)[k] == u;
            assert(!on_cycle(e, strs(items@)[k]));
        }
    }
    false
}

proof fn lemma_first_cycle_skip(e: ContentEngine, k: int, i: int)
    requires
        0 <= k <= i <= cids(e).len(),
        forall|m: int| k <= m < i ==> !cycle_from(e, #[trigger] cids(e)[m]),
    ensures
        first_cycle_from(e, k) == first_cycle_from(e, i),
    decreases i - k,
{
    if k < i {
        lemma_first_cycle_skip(e, k + 1, i);
    }
}

proof fn lemma_first_cycle_sound(e: ContentEngine, i: int)
    requires
        i >= 0,
    ensures
        first_cycle_from(e, i) matches Some(c) ==> cycle_from(e, c),
    decreases cids(e).len() - i,
{
    if i < cids(e).len() && !cycle_from(e, cids(e)[i]) {
        lemma_first_cycle_sound(e, i + 1);
    }
}

proof fn lemma_first_cycle_found(e: ContentEngine, k: int, i: int)
    requires
        0 <= k <= i < cids(e).len(),
        cycle_from(e, cids(e)[i]),
    ensures
        first_cycle_from(e, k) is Some,
    decreases i - k,
{
    if k < i && !cycle_from(e, cids(e)[k]) {
        lemma_first_cycle_found(e, k + 1, i);
    }
}

/// The check reports a cycle exactly when some chapter lies on a cycle of
/// the chapter graph.
pub proof fn lemma_cycle_reported_iff_cycle(e: ContentEngine)
    ensures
        (first_cycle_from(e, 0) is Some) == (exists|u: Seq<char>| #[trigger] on_cycle(e, u)),
{
    lemma_first_cycle_sound(e, 0);
    if first_cycle_from(e, 0) is Some {
        let c = first_cycle_from(e, 0)->0;
        let u = choose|u: Seq<char>| #[trigger] reaches(e, c, u) && on_cycle(e, u);
        assert(on_cycle(e, u));
    }
    if exists|u: Seq<char>| #[trigger] on_cycle(e, u) {
        let u = choose|u: Seq<char>| #[trigger] on_cycle(e, u);
        let x = choose|x: Seq<char>| #[trigger] succ(e, u).contains(x) && reaches(e, x, u);
        assert(targets_of(e, u).len() > 0) by {
            targets_of(e, u).lemma_filter_len(|t: Seq<char>| known(e, t));
        }
        assert(known(e, u));
        lemma_known_in_cids(e, u);
        let i = choose|i: int| 0 <= i < cids(e).len() && cids(e)[i] == u;
        assert(reaches(e, u, u));
        assert(cycle_from(e, cids(e)[i]));
        lemma_first_cycle_found(e, 0, i);
    }
}

impl<'a> Checker<'a> {
    /// Chapter graph: a unique root, no cycle, every chapter reachable from
    /// the root.
    pub fn check_graph(&mut self)
        requires
            old(self).wf(),
        ensures
            final(self).same_but_issues(old(self)),
            final(self).wf(),
            iv(final(self).issues@) == iv(old(self).issues@) + spec_graph_issues(*old(self).eng),
    {
        let ghost e = *self.eng;
        let ghost i0 = iv(self.issues@);
        let ids = self.eng.chapter_ids();
        assert(strs_ref(ids@) == cids(e));

        // chapters with an incoming edge
        let mut incoming = FactSet::new();
        let mut i: usize = 0;
        while i < ids.len()
            invariant
                *self.eng == e,
                i <= ids@.len(),
                strs_ref(ids@) == cids(e),
                incoming@ == Set::new(|t: Seq<char>| exists|k: int| 0 <= k < i && #[trigger] succ(e, cids(e)[k]).contains(t)),
            decreases ids@.len() - i,
        {
            assert(ids@[i as int]@ == cids(e)[i as int]);
            let ts = succ_of(self.eng, ids[i]);
            let ghost before = incoming@;
            incoming.extend(&ts);
            proof {
                assert(incoming@ =~= Set::new(|t: Seq<char>| exists|k: int| 0 <= k < i + 1 && #[trigger] succ(e, cids(e)[k]).contains(t))) by {
                    assert forall|t: Seq<char>| incoming@.contains(t) <==> exists|k: int| 0 <= k < i + 1 && #[trigger] succ(e, cids(e)[k]).contains(t) by {
                        if incoming@.contains(t) && !before.contains(t) {
                            let q = choose|q: int| 0 <= q < ts@.len() && ts@[q]@ == t;
                            assert(strs(ts@)[q] == t);
                            assert(succ(e, cids(e)[i as int]).contains(t));
                        }
                        if exists|k: int| 0 <= k < i + 1 && #[trigger] succ(e, cids(e)[k]).contains(t) {
                            let k = choose|k: int| 0 <= k < i + 1 && #[trigger] succ(e, cids(e)[k]).contains(t);
                            if k == i {
                                let q = choose|q: int| 0 <= q < strs(ts@).len() && strs(ts@)[q] == t;
                                assert(ts@[q]@ == t);
                            } else {
                                assert(before.contains(t));
                            }
                        }
                    }
                }
            }
            i += 1;
        }

        // roots: chapters nothing leads to
        let ghost rp = |c: Seq<char>| !has_incoming_edge(e, c);
        let mut roots_v: Vec<String> = Vec::new();
        let mut i: usize = 0;
        while i < ids.len()
            invariant
                *self.eng == e,
                i <= ids@.len(),
                strs_ref(ids@) == cids(e),
                forall|t: Seq<char>| #[trigger] incoming@.contains(t) <==> has_incoming_edge(e, t),
                rp == (|c: Seq<char>| !has_incoming_edge(e, c)),
                strs(roots_v@) == cids(e).take(i as int).filter(rp),
            decreases ids@.len() - i,
        {
            proof {
                assert(cids(e).take(i + 1) =~= cids(e).take(i as int).push(cids(e)[i as int]));
                cids(e).take(i as int).lemma_filter_push(cids(e)[i as int], rp);
            }
            let ghost before = strs(roots_v@);
            assert(ids@[i as int]@ == cids(e)[i as int]);
            if !incoming.contains(ids[i]) {
                roots_v.push(owned(ids[i]));
                assert(strs(roots_v@) =~= before.push(cids(e)[i as int]));
            }
            i += 1;
        }
        assert(cids(e).take(cids(e).len() as int) =~= cids(e));
        assert(strs(roots_v@) == roots(e));
        let n = roots_v.len();
        if n == 0 {
            self.err(owned("没有任何根节点（所有章节都有入度），缺少首章"));
        } else if n > 1 {
            let c = usize_str(n);
            self.err(join3("存在 ", c.as_str(), " 个根节点（无入度章节），首章必须唯一"));
        }
        let ghost i1 = iv(self.issues@);

        // the first chapter from which a cycle is reachable
        let mut found = false;
        let mut i: usize = 0;
        while i < ids.len() && !found
            invariant
                *self.eng == e,
                self.wf(),
                self.same_but_issues(old(self)),
                i <= ids@.len(),
                strs_ref(ids@) == cids(e),
                !found ==> iv(self.issues@) == i1,
                !found ==> forall|m: int| 0 <= m < i ==> !cycle_from(e, #[trigger] cids(e)[m]),
                found ==> iv(self.issues@) == i1 + match first_cycle_from(e, 0) {
                    Some(c) => e1("章节图存在环（涉及节点 "@ + c + "），next 指针不得构成循环"@),
                    None => Seq::empty(),
                },
            decreases ids@.len() - i,
        {
            assert(ids@[i as int]@ == cids(e)[i as int]);
            if cycle_reachable(self.eng, ids[i]) {
                proof {
                    lemma_first_cycle_skip(e, 0, i as int);
                }
                let mut m = join("章节图存在环（涉及节点 ", ids[i]);
                m.append("），next 指针不得构成循环");
                self.err(m);
                found = true;
            }
            i += 1;
        }
        if !found {
            proof {
                lemma_first_cycle_skip(e, 0, cids(e).len() as int);
                assert(iv(self.issues@) =~= i1 + Seq::<IssueView>::empty());
            }
        }
        let ghost i2 = iv(self.issues@);

        // chapters the first root does not reach
        if n > 0 {
            assert(roots_v@[0]@ == roots(e)[0]);
            let from_root = reach_set(self.eng, roots_v[0].as_str());
            let ghost f = |c: Seq<char>| only_if(!reaches(e, roots(e)[0], c), w1("章节 "@ + c + " 从首章不可达，疑似孤立章节"@));
            let mut i: usize = 0;
            while i < ids.len()
                invariant
                    *self.eng == e,
                    self.wf(),
                    self.same_but_issues(old(self)),
                    i <= ids@.len(),
                    strs_ref(ids@) == cids(e),
                    roots(e).len() > 0,
                    forall|b: Seq<char>| #[trigger] from_root@.contains(b) <==> reaches(e, roots(e)[0], b),
                    f == (|c: Seq<char>| only_if(!reaches(e, roots(e)[0], c), w1("章节 "@ + c + " 从首章不可达，疑似孤立章节"@))),
                    iv(self.issues@) == i2 + each(cids(e).take(i as int), f),
                decreases ids@.len() - i,
            {
                proof {
                    lemma_each_step(cids(e), i as int, f);
                }
                assert(ids@[i as int]@ == cids(e)[i as int]);
                if !from_root.contains(ids[i]) {
                    self.warn(join3("章节 ", ids[i], " 从首章不可达，疑似孤立章节"));
                } else {
                    assert(iv(self.issues@) =~= iv(self.issues@) + Seq::<IssueView>::empty());
                }
                i += 1;
            }
            proof {
                lemma_each_all(cids(e), f);
            }
        } else {
            assert(iv(self.issues@) =~= i2 + Seq::<IssueView>::empty());
        }
        assert(iv(self.issues@) =~= i0 + spec_graph_issues(e));
    }
}

} // verus!
