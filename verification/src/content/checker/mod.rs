//! Offline content check: reference integrity of the data, without starting
//! the game.
//!
//! The checker only reads the [`ContentEngine`]: loading already turned a
//! missing file into an absent text, so "the file exists" checks ask whether
//! the query gives a text. The result is a [`CheckReport`] of errors,
//! warnings and advice, in a fixed order: id checks, scenes, chapters,
//! conditions, chapter graph.
//!
//! Each check is stated as the exact list of issues it adds, over the
//! engine's records.

pub mod chapters;
pub mod graph;
pub mod ids;

use vstd::prelude::*;

use crate::content::condition::FactSet;
use crate::content::engine::ContentEngine;
use crate::content::models::{lookup_key, Chapter, Clue, Condition, Judgment, NarrativeItem, Scene};
use crate::strmap::StrMap;
use crate::text::{join, owned, strs, strs_ref};

use self::chapters::{spec_chapters_issues, spec_scenes_issues};
use self::ids::spec_id_issues;
use self::graph::spec_graph_issues;

verus! {

/// Severity of an issue.
#[derive(Debug, Clone, Copy, PartialEq, Eq, Structural)]
pub enum Severity {
    /// Blocking: the content cannot run correctly.
    Error,
    /// Not blocking, but most likely wrong.
    Warning,
    /// Authoring advice.
    Advice,
}

impl Severity {
    pub fn is_error(self) -> (r: bool)
        ensures
            r == (self == Severity::Error),
    {
        match self {
            Severity::Error => true,
            _ => false,
        }
    }

    pub open spec fn spec_label(self) -> Seq<char> {
        match self {
            Severity::Error => "error"@,
            Severity::Warning => "warning"@,
            Severity::Advice => "advice"@,
        }
    }

    pub fn label(self) -> (r: &'static str)
        ensures
            r@ == self.spec_label(),
    {
        match self {
            Severity::Error => "error",
            Severity::Warning => "warning",
            Severity::Advice => "advice",
        }
    }
}

/// One issue.
#[derive(Debug, Clone)]
pub struct Issue {
    pub severity: Severity,
    pub message: String,
}

/// An issue as severity and message text.
pub type IssueView = (Severity, Seq<char>);

/// The views of a list of issues.
pub open spec fn iv(v: Seq<Issue>) -> Seq<IssueView> {
    v.map_values(|i: Issue| (i.severity, i.message@))
}

/// One error.
pub open spec fn e1(m: Seq<char>) -> Seq<IssueView> {
    seq![(Severity::Error, m)]
}

/// One warning.
pub open spec fn w1(m: Seq<char>) -> Seq<IssueView> {
    seq![(Severity::Warning, m)]
}

/// One advice.
pub open spec fn a1(m: Seq<char>) -> Seq<IssueView> {
    seq![(Severity::Advice, m)]
}

/// `s` when `b` holds, else nothing.
pub open spec fn only_if(b: bool, s: Seq<IssueView>) -> Seq<IssueView> {
    if b {
        s
    } else {
        Seq::empty()
    }
}

/// The issues of each item, in item order.
pub open spec fn each<A>(s: Seq<A>, f: spec_fn(A) -> Seq<IssueView>) -> Seq<IssueView> {
    s.map_values(f).flatten()
}

pub proof fn lemma_each_step<A>(s: Seq<A>, i: int, f: spec_fn(A) -> Seq<IssueView>)
    requires
        0 <= i < s.len(),
    ensures
        each(s.take(i + 1), f) == each(s.take(i), f) + f(s[i]),
{
    assert(s.take(i + 1).map_values(f) =~= s.take(i).map_values(f).push(f(s[i])));
    s.take(i).map_values(f).lemma_flatten_push(f(s[i]));
}

pub proof fn lemma_each_all<A>(s: Seq<A>, f: spec_fn(A) -> Seq<IssueView>)
    ensures
        each(s.take(s.len() as int), f) == each(s, f),
{
    assert(s.take(s.len() as int) =~= s);
}

/// The issues of each position `0..n`, in order.
pub open spec fn each_index(n: int, f: spec_fn(int) -> Seq<IssueView>) -> Seq<IssueView> {
    Seq::new(n as nat, |k: int| f(k)).flatten()
}

pub proof fn lemma_each_index_step(k: int, f: spec_fn(int) -> Seq<IssueView>)
    requires
        0 <= k,
    ensures
        each_index(k + 1, f) == each_index(k, f) + f(k),
{
    assert(Seq::new((k + 1) as nat, |m: int| f(m)) =~= Seq::new(k as nat, |m: int| f(m)).push(f(k)));
    Seq::new(k as nat, |m: int| f(m)).lemma_flatten_push(f(k));
}

/// Result of a check.
#[derive(Debug, Clone)]
pub struct CheckReport {
    pub issues: Vec<Issue>,
}

impl Default for CheckReport {
    fn default() -> (r: CheckReport)
        ensures
            r.issues@.len() == 0,
    {
        CheckReport { issues: Vec::new() }
    }
}

impl CheckReport {
    /// Some issue is an error.
    pub fn has_errors(&self) -> (r: bool)
        ensures
            r == exists|i: int| 0 <= i < self.issues@.len() && #[trigger] self.issues@[i].severity == Severity::Error,
    {
        let mut i: usize = 0;
        while i < self.issues.len()
            invariant
                i <= self.issues@.len(),
                forall|k: int| 0 <= k < i ==> #[trigger] self.issues@[k].severity != Severity::Error,
            decreases self.issues@.len() - i,
        {
            if self.issues[i].severity.is_error() {
                return true;
            }
            i += 1;
        }
        false
    }

    /// The errors, in order.
    pub fn errors(&self) -> (r: Vec<&Issue>)
        ensures
            r@ == self.issues@.filter(|i: Issue| i.severity == Severity::Error).map_values(|i: Issue| &i),
    {
        let r = self.select(true);
        assert((|i: Issue| (i.severity == Severity::Error) == true) =~= (|i: Issue| i.severity == Severity::Error));
        r
    }

    /// The warnings and advice, in order.
    pub fn warnings(&self) -> (r: Vec<&Issue>)
        ensures
            r@ == self.issues@.filter(|i: Issue| i.severity != Severity::Error).map_values(|i: Issue| &i),
    {
        let r = self.select(false);
        assert((|i: Issue| (i.severity == Severity::Error) == false) =~= (|i: Issue| i.severity != Severity::Error));
        r
    }

    fn select(&self, errors: bool) -> (r: Vec<&Issue>)
        ensures
            r@ == self.issues@.filter(|i: Issue| (i.severity == Severity::Error) == errors).map_values(
                |i: Issue| &i,
            ),
    {
        let ghost p = |i: Issue| (i.severity == Severity::Error) == errors;
        let mut out: Vec<&Issue> = Vec::new();
        let mut k: usize = 0;
        while k < self.issues.len()
            invariant
                k <= self.issues@.len(),
                p == (|i: Issue| (i.severity == Severity::Error) == errors),
                out@ == self.issues@.take(k as int).filter(p).map_values(|i: Issue| &i),
            decreases self.issues@.len() - k,
        {
            proof {
                assert(self.issues@.take(k + 1) =~= self.issues@.take(k as int).push(self.issues@[k as int]));
                self.issues@.take(k as int).lemma_filter_push(self.issues@[k as int], p);
            }
            if self.issues[k].severity.is_error() == errors {
                out.push(&self.issues[k]);
            }
            proof {
                assert(out@ =~= self.issues@.take(k + 1).filter(p).map_values(|i: Issue| &i));
            }
            k += 1;
        }
        assert(self.issues@.take(self.issues@.len() as int) =~= self.issues@);
        out
    }
}

/// The ids of the chapters, in load order, duplicates included.
pub open spec fn cids(e: ContentEngine) -> Seq<Seq<char>> {
    e.chapters@.map_values(|c: Chapter| c.id@)
}

/// The ids of the scenes, in load order, duplicates included.
pub open spec fn sids(e: ContentEngine) -> Seq<Seq<char>> {
    e.scenes@.map_values(|s: Scene| s.id@)
}

/// What a record id names.
#[derive(Debug, Clone, Copy, PartialEq, Eq, Structural)]
pub enum DefKind {
    Clue,
    Judgment,
    Narrative,
}

/// Ids a chapter defines of one kind.
pub open spec fn defs(e: ContentEngine, kind: DefKind, cid: Seq<char>) -> Seq<Seq<char>> {
    match kind {
        DefKind::Clue => e.spec_clues(cid).map_values(|c: Clue| c.id@),
        DefKind::Judgment => e.spec_judgments(cid).map_values(|j: Judgment| j.id@),
        DefKind::Narrative => e.spec_narrative(cid).map_values(|n: NarrativeItem| n.id@),
    }
}

/// The first of the chapters `cids(e)[..n]` that defines `id`.
pub open spec fn owner_upto(e: ContentEngine, kind: DefKind, id: Seq<char>, n: int) -> Option<Seq<char>>
    decreases n,
{
    if n <= 0 {
        None
    } else {
        match owner_upto(e, kind, id, n - 1) {
            Some(o) => Some(o),
            None => if defs(e, kind, cids(e)[n - 1]).contains(id) {
                Some(cids(e)[n - 1])
            } else {
                None
            },
        }
    }
}

/// The first chapter, in load order, that defines `id`.
pub open spec fn owner(e: ContentEngine, kind: DefKind, id: Seq<char>) -> Option<Seq<char>> {
    owner_upto(e, kind, id, cids(e).len() as int)
}

/// Connection targets of a scene (two-way, then one-way).
pub open spec fn scene_conns(e: ContentEngine, sid: Seq<char>) -> Seq<Seq<char>> {
    match lookup_key(e.scenes@, sid) {
        Some(s) => strs(s.connections@) + strs(s.one_way_connections@),
        None => Seq::empty(),
    }
}

/// Scenes some scene connects to (one-way targets count).
pub open spec fn referenced_targets(e: ContentEngine) -> Set<Seq<char>> {
    Set::new(|t: Seq<char>| exists|i: int| 0 <= i < sids(e).len() && #[trigger] scene_conns(e, sids(e)[i]).contains(t))
}

/// The record ids of one kind that a chapter defines.
fn def_ids<'a>(eng: &'a ContentEngine, kind: DefKind, cid: &str) -> (r: Vec<&'a str>)
    ensures
        strs_ref(r@) == defs(*eng, kind, cid@),
{
    let mut out: Vec<&str> = Vec::new();
    match kind {
        DefKind::Clue => {
            let v = eng.get_clues(cid);
            let mut i: usize = 0;
            while i < v.len()
                invariant
                    i <= v@.len(),
                    v@ == eng.spec_clues(cid@),
                    strs_ref(out@) == v@.take(i as int).map_values(|c: Clue| c.id@),
                decreases v@.len() - i,
            {
                let ghost before = strs_ref(out@);
                out.push(v[i].id.as_str());
                assert(v@.take(i + 1) =~= v@.take(i as int).push(v@[i as int]));
                assert(strs_ref(out@) =~= before.push(v@[i as int].id@));
                assert(strs_ref(out@) =~= v@.take(i + 1).map_values(|c: Clue| c.id@));
                i += 1;
            }
            assert(v@.take(v@.len() as int) =~= v@);
        },
        DefKind::Judgment => {
            let v = eng.get_judgments(cid);
            let mut i: usize = 0;
            while i < v.len()
                invariant
                    i <= v@.len(),
                    v@ == eng.spec_judgments(cid@),
                    strs_ref(out@) == v@.take(i as int).map_values(|j: Judgment| j.id@),
                decreases v@.len() - i,
            {
                let ghost before = strs_ref(out@);
                out.push(v[i].id.as_str());
                assert(v@.take(i + 1) =~= v@.take(i as int).push(v@[i as int]));
                assert(strs_ref(out@) =~= before.push(v@[i as int].id@));
                assert(strs_ref(out@) =~= v@.take(i + 1).map_values(|j: Judgment| j.id@));
                i += 1;
            }
            assert(v@.take(v@.len() as int) =~= v@);
        },
        DefKind::Narrative => {
            let v = eng.get_narrative(cid);
            let mut i: usize = 0;
            while i < v.len()
                invariant
                    i <= v@.len(),
                    v@ == eng.spec_narrative(cid@),
                    strs_ref(out@) == v@.take(i as int).map_values(|n: NarrativeItem| n.id@),
                decreases v@.len() - i,
            {
                let ghost before = strs_ref(out@);
                out.push(v[i].id.as_str());
                assert(v@.take(i + 1) =~= v@.take(i as int).push(v@[i as int]));
                assert(strs_ref(out@) =~= before.push(v@[i as int].id@));
                assert(strs_ref(out@) =~= v@.take(i + 1).map_values(|n: NarrativeItem| n.id@));
                i += 1;
            }
            assert(v@.take(v@.len() as int) =~= v@);
        },
    }
    out
}

/// The owner map of one kind: each id to the first chapter defining it.
fn owners(eng: &ContentEngine, kind: DefKind) -> (m: StrMap<String>)
    ensures
        forall|id: Seq<char>| #[trigger] m@.contains_key(id) <==> owner(*eng, kind, id) is Some,
        forall|id: Seq<char>| #[trigger] m@.contains_key(id) ==> m@[id]@ == owner(*eng, kind, id)->0,
{
    let ids = eng.chapter_ids();
    let mut m: StrMap<String> = StrMap::new();
    let mut i: usize = 0;
    while i < ids.len()
        invariant
            i <= ids@.len(),
            strs_ref(ids@) == cids(*eng),
            forall|id: Seq<char>| #[trigger] m@.contains_key(id) <==> owner_upto(*eng, kind, id, i as int) is Some,
            forall|id: Seq<char>| #[trigger] m@.contains_key(id) ==> m@[id]@ == owner_upto(*eng, kind, id, i as int)->0,
        decreases ids@.len() - i,
    {
        let cid = ids[i];
        assert(cid@ == cids(*eng)[i as int]);
        let list = def_ids(eng, kind, cid);
        let ghost m0 = m@;
        let mut j: usize = 0;
        while j < list.len()
            invariant
                j <= list@.len(),
                strs_ref(list@) == defs(*eng, kind, cid@),
                forall|id: Seq<char>| #[trigger] m@.contains_key(id) <==> (m0.contains_key(id) || strs_ref(list@).take(j as int).contains(id)),
                forall|id: Seq<char>| #[trigger] m@.contains_key(id) ==> m@[id]@ == if m0.contains_key(id) { m0[id]@ } else { cid@ },
            decreases list@.len() - j,
        {
            let id = list[j];
            proof {
                assert(strs_ref(list@).take(j + 1) =~= strs_ref(list@).take(j as int).push(id@));
                crate::text::lemma_push_contains(strs_ref(list@).take(j as int), id@);
            }
            if !m.contains_key(id) {
                m.insert(owned(id), owned(cid));
            }
            j += 1;
        }
        proof {
            assert(strs_ref(list@).take(list@.len() as int) =~= strs_ref(list@));
            assert forall|id: Seq<char>| #[trigger] m@.contains_key(id) <==> owner_upto(*eng, kind, id, i + 1) is Some by {
                assert(owner_upto(*eng, kind, id, i + 1) == match owner_upto(*eng, kind, id, i as int) {
                    Some(o) => Some(o),
                    None => if defs(*eng, kind, cids(*eng)[i as int]).contains(id) {
                        Some(cids(*eng)[i as int])
                    } else {
                        None
                    },
                });
            }
        }
        i += 1;
    }
    m
}

/// Every scene some scene connects to.
fn connection_targets(eng: &ContentEngine) -> (r: FactSet)
    ensures
        r@ == referenced_targets(*eng),
{
    let ids = eng.scene_ids();
    let mut set = FactSet::new();
    let mut i: usize = 0;
    while i < ids.len()
        invariant
            i <= ids@.len(),
            strs_ref(ids@) == sids(*eng),
            set@ == Set::new(|t: Seq<char>| exists|k: int| 0 <= k < i && #[trigger] scene_conns(*eng, sids(*eng)[k]).contains(t)),
        decreases ids@.len() - i,
    {
        let sid = ids[i];
        assert(sid@ == sids(*eng)[i as int]);
        let ghost before = set@;
        match eng.get_scene(sid) {
            Some(scene) => {
                set.extend(&scene.connections);
                set.extend(&scene.one_way_connections);
            },
            None => {},
        }
        proof {
            assert(set@ =~= Set::new(|t: Seq<char>| exists|k: int| 0 <= k < i + 1 && #[trigger] scene_conns(*eng, sids(*eng)[k]).contains(t))) by {
                assert forall|t: Seq<char>| set@.contains(t) <==> exists|k: int| 0 <= k < i + 1 && #[trigger] scene_conns(*eng, sids(*eng)[k]).contains(t) by {
                    let conns = scene_conns(*eng, sids(*eng)[i as int]);
                    if lookup_key(eng.scenes@, sid@) is Some {
                        let s = lookup_key(eng.scenes@, sid@)->0;
                        if conns.contains(t) {
                            let q = choose|q: int| 0 <= q < conns.len() && conns[q] == t;
                            if q < s.connections@.len() {
                                assert(s.connections@[q]@ == t);
                            } else {
                                assert(s.one_way_connections@[q - s.connections@.len()]@ == t);
                            }
                        }
                        if set@.contains(t) && !before.contains(t) {
                            if exists|q: int| 0 <= q < s.connections@.len() && s.connections@[q]@ == t {
                                let q = choose|q: int| 0 <= q < s.connections@.len() && s.connections@[q]@ == t;
                                assert(conns[q] == t);
                            } else {
                                let q = choose|q: int| 0 <= q < s.one_way_connections@.len() && s.one_way_connections@[q]@ == t;
                                assert(conns[s.connections@.len() + q] == t);
                            }
                        }
                    }
                    if exists|k: int| 0 <= k < i + 1 && #[trigger] scene_conns(*eng, sids(*eng)[k]).contains(t) {
                        let k = choose|k: int| 0 <= k < i + 1 && #[trigger] scene_conns(*eng, sids(*eng)[k]).contains(t);
                        if k < i {
                            assert(before.contains(t));
                        }
                    }
                }
            }
        }
        i += 1;
    }
    set
}

/// The checker's state: the engine, the issues so far, and the indexes the
/// checks share.
pub struct Checker<'a> {
    pub eng: &'a ContentEngine,
    pub issues: Vec<Issue>,
    /// Clue id to the first chapter defining it.
    pub clue_owner: StrMap<String>,
    /// Judgment id to the first chapter defining it.
    pub judgment_owner: StrMap<String>,
    /// Narrative id to the first chapter defining it.
    pub narrative_owner: StrMap<String>,
    /// Scenes some scene connects to (one-way edges count).
    pub referenced_targets: FactSet,
}

impl<'a> Checker<'a> {
    /// The indexes agree with the engine.
    pub open spec fn wf(&self) -> bool {
        &&& forall|id: Seq<char>| #[trigger] self.clue_owner@.contains_key(id) <==> owner(*self.eng, DefKind::Clue, id) is Some
        &&& forall|id: Seq<char>| #[trigger] self.clue_owner@.contains_key(id) ==> self.clue_owner@[id]@ == owner(*self.eng, DefKind::Clue, id)->0
        &&& forall|id: Seq<char>| #[trigger] self.judgment_owner@.contains_key(id) <==> owner(*self.eng, DefKind::Judgment, id) is Some
        &&& forall|id: Seq<char>| #[trigger] self.narrative_owner@.contains_key(id) <==> owner(*self.eng, DefKind::Narrative, id) is Some
        &&& self.referenced_targets@ == referenced_targets(*self.eng)
    }

    /// Only the issues changed.
    pub open spec fn same_but_issues(&self, other: &Self) -> bool {
        &&& self.eng == other.eng
        &&& self.clue_owner == other.clue_owner
        &&& self.judgment_owner == other.judgment_owner
        &&& self.narrative_owner == other.narrative_owner
        &&& self.referenced_targets == other.referenced_targets
    }

    /// A checker with no issues yet, with its indexes built.
    pub fn new(eng: &'a ContentEngine) -> (c: Self)
        ensures
            c.wf(),
            c.eng == eng,
            c.issues@.len() == 0,
    {
        let clue_owner = owners(eng, DefKind::Clue);
        let judgment_owner = owners(eng, DefKind::Judgment);
        let narrative_owner = owners(eng, DefKind::Narrative);
        let referenced_targets = connection_targets(eng);
        Checker { eng, issues: Vec::new(), clue_owner, judgment_owner, narrative_owner, referenced_targets }
    }

    fn push(&mut self, severity: Severity, msg: String)
        ensures
            iv(final(self).issues@) == iv(old(self).issues@).push((severity, msg@)),
            final(self).same_but_issues(old(self)),
    {
        self.issues.push(Issue { severity, message: msg });
        assert(iv(self.issues@) =~= iv(old(self).issues@).push((severity, msg@)));
    }

    /// Add an error.
    pub fn err(&mut self, msg: String)
        ensures
            iv(final(self).issues@) == iv(old(self).issues@) + e1(msg@),
            final(self).same_but_issues(old(self)),
    {
        self.push(Severity::Error, msg);
        assert(iv(old(self).issues@).push((Severity::Error, msg@)) =~= iv(old(self).issues@) + e1(msg@));
    }

    /// Add a warning.
    pub fn warn(&mut self, msg: String)
        ensures
            iv(final(self).issues@) == iv(old(self).issues@) + w1(msg@),
            final(self).same_but_issues(old(self)),
    {
        self.push(Severity::Warning, msg);
        assert(iv(old(self).issues@).push((Severity::Warning, msg@)) =~= iv(old(self).issues@) + w1(msg@));
    }

    /// Add an advice.
    pub fn advice(&mut self, msg: String)
        ensures
            iv(final(self).issues@) == iv(old(self).issues@) + a1(msg@),
            final(self).same_but_issues(old(self)),
    {
        self.push(Severity::Advice, msg);
        assert(iv(old(self).issues@).push((Severity::Advice, msg@)) =~= iv(old(self).issues@) + a1(msg@));
    }

    /// Run every check, in order.
    pub fn run(&mut self)
        requires
            old(self).wf(),
        ensures
            final(self).wf(),
            final(self).same_but_issues(old(self)),
            iv(final(self).issues@) == iv(old(self).issues@) + spec_check(*old(self).eng),
    {
        let ghost i0 = iv(self.issues@);
        self.check_id_uniqueness();
        self.check_scenes();
        self.check_chapters();
        self.check_conditions();
        self.check_graph();
        assert(iv(self.issues@) =~= i0 + spec_check(*self.eng));
    }
}

/// Everything the check reports, in order.
pub open spec fn spec_check(e: ContentEngine) -> Seq<IssueView> {
    spec_id_issues(e) + spec_scenes_issues(e) + spec_chapters_issues(e) + spec_conditions_issues(e)
        + spec_graph_issues(e)
}

/// Run every check on the content.
pub fn check(engine: &ContentEngine) -> (r: CheckReport)
    ensures
        iv(r.issues@) == spec_check(*engine),
{
    let mut c = Checker::new(engine);
    c.run();
    assert(iv(Seq::<Issue>::empty()) =~= Seq::<IssueView>::empty());
    assert(Seq::<IssueView>::empty() + spec_check(*engine) =~= spec_check(*engine));
    CheckReport { issues: c.issues }
}

proof fn lemma_concat_contains(a: Seq<IssueView>, b: Seq<IssueView>, x: IssueView)
    requires
        a.contains(x) || b.contains(x),
    ensures
        (a + b).contains(x),
{
    if a.contains(x) {
        let i = choose|i: int| 0 <= i < a.len() && a[i] == x;
        assert((a + b)[i] == x);
    } else {
        let j = choose|j: int| 0 <= j < b.len() && b[j] == x;
        assert((a + b)[a.len() + j] == x);
    }
}

/// An issue of position `k < n` is among the issues of positions `0..n`.
proof fn lemma_each_index_contains(n: int, f: spec_fn(int) -> Seq<IssueView>, k: int, x: IssueView)
    requires
        0 <= k < n,
        f(k).contains(x),
    ensures
        each_index(n, f).contains(x),
    decreases n,
{
    lemma_each_index_step(n - 1, f);
    if k == n - 1 {
        lemma_concat_contains(each_index(n - 1, f), f(n - 1), x);
    } else {
        lemma_each_index_contains(n - 1, f, k, x);
        lemma_concat_contains(each_index(n - 1, f), f(n - 1), x);
    }
}

/// An issue of the item `s[i]` is among the issues of the first `n > i`
/// items.
proof fn lemma_each_take_contains<A>(s: Seq<A>, f: spec_fn(A) -> Seq<IssueView>, i: int, n: int, x: IssueView)
    requires
        0 <= i < n <= s.len(),
        f(s[i]).contains(x),
    ensures
        each(s.take(n), f).contains(x),
    decreases n,
{
    lemma_each_step(s, n - 1, f);
    if i == n - 1 {
        lemma_concat_contains(each(s.take(n - 1), f), f(s[n - 1]), x);
    } else {
        lemma_each_take_contains(s, f, i, n - 1, x);
        lemma_concat_contains(each(s.take(n - 1), f), f(s[n - 1]), x);
    }
}

/// An issue of the `k`-th judgment of an existing chapter is among the
/// issues the check reports.
proof fn lemma_judgment_issue_in_check(e: ContentEngine, cid: Seq<char>, k: int, x: IssueView)
    requires
        lookup_key(e.chapters@, cid) is Some,
        0 <= k < e.spec_judgments(cid).len(),
        chapters::spec_judgment_issues(e, cid, lookup_key(e.chapters@, cid)->0, k).contains(x),
    ensures
        spec_check(e).contains(x),
{
    let js = e.spec_judgments(cid);
    let ch = lookup_key(e.chapters@, cid)->0;
    let f = |q: int| chapters::spec_judgment_issues(e, cid, ch, q);
    lemma_each_index_contains(js.len() as int, f, k, x);
    let head = only_if(js.len() == 0, e1("章节 "@ + cid + " 必须至少定义一个审判点"@));
    let mid = each_index(js.len() as int, f);
    lemma_concat_contains(head, mid, x);
    let jc = chapters::spec_judgments_of_chapter(e, cid, ch);
    let tail1 = chapters::spec_required_issues(e, cid, ch);
    let tail2 = only_if(
        !ch.ending,
        each(
            graph::targets_of(e, cid),
            |t: Seq<char>| only_if(!graph::known(e, t), e1("章节 "@ + cid + " 的跳转目标不存在："@ + t)),
        ),
    );
    assert(jc == head + mid + tail1 + tail2);
    lemma_concat_contains(head + mid, tail1, x);
    lemma_concat_contains(head + mid + tail1, tail2, x);
    let ci = chapters::spec_chapter_issues(e, cid);
    let p0 = chapters::spec_metadata_issues(e, cid, ch) + chapters::spec_scenes_of_chapter(e, cid, ch) + each_index(
        ch.characters@.len() as int,
        |q: int| chapters::spec_character_issues(e, cid, ch, q),
    );
    let p1 = each(e.spec_clues(cid), |cl: Clue| chapters::spec_clue_issues(e, cid, ch, cl));
    let p2 = each(ch.narrative@, |n: NarrativeItem| chapters::spec_narrative_issues(e, cid, n));
    assert(ci == p0 + jc + p1 + p2);
    lemma_concat_contains(p0, jc, x);
    lemma_concat_contains(p0 + jc, p1, x);
    lemma_concat_contains(p0 + jc + p1, p2, x);
    graph::lemma_known_in_cids(e, cid);
    let cs = cids(e);
    let i = choose|i: int| 0 <= i < cs.len() && cs[i] == cid;
    let g = |c2: Seq<char>| chapters::spec_chapter_issues(e, c2);
    lemma_each_take_contains(cs, g, i, cs.len() as int, x);
    lemma_each_all(cs, g);
    assert(chapters::spec_chapters_issues(e) == each(cs, g));
    lemma_concat_contains(spec_id_issues(e) + spec_scenes_issues(e), spec_chapters_issues(e), x);
    lemma_concat_contains(
        spec_id_issues(e) + spec_scenes_issues(e) + spec_chapters_issues(e),
        spec_conditions_issues(e),
        x,
    );
    lemma_concat_contains(
        spec_id_issues(e) + spec_scenes_issues(e) + spec_chapters_issues(e) + spec_conditions_issues(e),
        spec_graph_issues(e),
        x,
    );
}

/// The four possible issues of the `k`-th judgment of a chapter, in order.
proof fn lemma_judgment_issue_parts(e: ContentEngine, cid: Seq<char>, ch: Chapter, k: int)
    ensures
        ({
            let js = e.spec_judgments(cid);
            let j = js[k];
            chapters::spec_judgment_issues(e, cid, ch, k) == only_if(
                chapters::judgment_ids(js, k).contains(j.id@),
                e1("章节 "@ + cid + " 审判点 id 重复："@ + j.id@),
            ) + only_if(
                lookup_key(ch.characters@, j.target@) is None,
                e1("章节 "@ + cid + " 审判 "@ + j.id@ + " 的 target "@ + j.target@ + " 未在本章 characters 中声明"@),
            ) + only_if(
                chapters::judgment_targets(js, k).contains(j.target@),
                e1("章节 "@ + cid + " 角色 "@ + j.target@ + " 被多个审判点指向（一章内一个角色一个审判点）"@),
            ) + only_if(
                !chapters::has_result(e, cid, j.id@),
                e1("章节 "@ + cid + " 审判 "@ + j.id@ + " 的 result 文件缺失"@),
            )
        }),
{
}

/// The check reports, as an error, every character that two judgments of one
/// chapter point at, whatever the ids of the two judgments.
pub proof fn lemma_duplicate_target_reported(e: ContentEngine, cid: Seq<char>, m: int, k: int)
    requires
        lookup_key(e.chapters@, cid) is Some,
        0 <= m < k < e.spec_judgments(cid).len(),
        e.spec_judgments(cid)[m].target@ == e.spec_judgments(cid)[k].target@,
    ensures
        spec_check(e).contains(
            (
                Severity::Error,
                "章节 "@ + cid + " 角色 "@ + e.spec_judgments(cid)[k].target@
                    + " 被多个审判点指向（一章内一个角色一个审判点）"@,
            ),
        ),
{
    let js = e.spec_judgments(cid);
    let ch = lookup_key(e.chapters@, cid)->0;
    let j = js[k];
    let x = (Severity::Error, "章节 "@ + cid + " 角色 "@ + j.target@ + " 被多个审判点指向（一章内一个角色一个审判点）"@);
    assert(chapters::judgment_targets(js, k)[m] == js[m].target@);
    assert(chapters::judgment_targets(js, k).contains(j.target@));
    let a = only_if(chapters::judgment_ids(js, k).contains(j.id@), e1("章节 "@ + cid + " 审判点 id 重复："@ + j.id@));
    let b = only_if(
        lookup_key(ch.characters@, j.target@) is None,
        e1("章节 "@ + cid + " 审判 "@ + j.id@ + " 的 target "@ + j.target@ + " 未在本章 characters 中声明"@),
    );
    let c = e1(x.1);
    let d = only_if(!chapters::has_result(e, cid, j.id@), e1("章节 "@ + cid + " 审判 "@ + j.id@ + " 的 result 文件缺失"@));
    lemma_judgment_issue_parts(e, cid, ch, k);
    assert(c[0] == x);
    lemma_concat_contains(a + b, c, x);
    lemma_concat_contains(a + b + c, d, x);
    lemma_judgment_issue_in_check(e, cid, k, x);
}

/// The check reports, as an error, every judgment id that an earlier
/// judgment of the same chapter already uses.
pub proof fn lemma_duplicate_judgment_id_reported(e: ContentEngine, cid: Seq<char>, m: int, k: int)
    requires
        lookup_key(e.chapters@, cid) is Some,
        0 <= m < k < e.spec_judgments(cid).len(),
        e.spec_judgments(cid)[m].id@ == e.spec_judgments(cid)[k].id@,
    ensures
        spec_check(e).contains(
            (Severity::Error, "章节 "@ + cid + " 审判点 id 重复："@ + e.spec_judgments(cid)[k].id@),
        ),
{
    let js = e.spec_judgments(cid);
    let ch = lookup_key(e.chapters@, cid)->0;
    let j = js[k];
    let x = (Severity::Error, "章节 "@ + cid + " 审判点 id 重复："@ + j.id@);
    assert(chapters::judgment_ids(js, k)[m] == js[m].id@);
    assert(chapters::judgment_ids(js, k).contains(j.id@));
    lemma_judgment_issue_parts(e, cid, ch, k);
    assert(chapters::spec_judgment_issues(e, cid, ch, k)[0] == x);
    lemma_judgment_issue_in_check(e, cid, k, x);
}

/// The check reports, as an error, every judgment whose result text is
/// missing.
pub proof fn lemma_missing_result_reported(e: ContentEngine, cid: Seq<char>, k: int)
    requires
        lookup_key(e.chapters@, cid) is Some,
        0 <= k < e.spec_judgments(cid).len(),
        !(e.content@.contains_key(cid) && e.content@[cid].result_text@.contains_key(e.spec_judgments(cid)[k].id@)),
    ensures
        spec_check(e).contains(
            (Severity::Error, "章节 "@ + cid + " 审判 "@ + e.spec_judgments(cid)[k].id@ + " 的 result 文件缺失"@),
        ),
{
    let js = e.spec_judgments(cid);
    let ch = lookup_key(e.chapters@, cid)->0;
    let j = js[k];
    let x = (Severity::Error, "章节 "@ + cid + " 审判 "@ + j.id@ + " 的 result 文件缺失"@);
    let a = only_if(chapters::judgment_ids(js, k).contains(j.id@), e1("章节 "@ + cid + " 审判点 id 重复："@ + j.id@));
    let b = only_if(
        lookup_key(ch.characters@, j.target@) is None,
        e1("章节 "@ + cid + " 审判 "@ + j.id@ + " 的 target "@ + j.target@ + " 未在本章 characters 中声明"@),
    );
    let c = only_if(
        chapters::judgment_targets(js, k).contains(j.target@),
        e1("章节 "@ + cid + " 角色 "@ + j.target@ + " 被多个审判点指向（一章内一个角色一个审判点）"@),
    );
    let d = e1(x.1);
    lemma_judgment_issue_parts(e, cid, ch, k);
    assert(d[0] == x);
    lemma_concat_contains(a + b + c, d, x);
    lemma_judgment_issue_in_check(e, cid, k, x);
}

/// The check reports, as an error, every judgment whose target the chapter
/// does not declare among its characters.
pub proof fn lemma_undeclared_target_reported(e: ContentEngine, cid: Seq<char>, k: int)
    requires
        lookup_key(e.chapters@, cid) is Some,
        0 <= k < e.spec_judgments(cid).len(),
        lookup_key(lookup_key(e.chapters@, cid)->0.characters@, e.spec_judgments(cid)[k].target@) is None,
    ensures
        spec_check(e).contains(
            (
                Severity::Error,
                "章节 "@ + cid + " 审判 "@ + e.spec_judgments(cid)[k].id@ + " 的 target "@
                    + e.spec_judgments(cid)[k].target@ + " 未在本章 characters 中声明"@,
            ),
        ),
{
    let js = e.spec_judgments(cid);
    let ch = lookup_key(e.chapters@, cid)->0;
    let j = js[k];
    let x = (
        Severity::Error,
        "章节 "@ + cid + " 审判 "@ + j.id@ + " 的 target "@ + j.target@ + " 未在本章 characters 中声明"@,
    );
    let a = only_if(chapters::judgment_ids(js, k).contains(j.id@), e1("章节 "@ + cid + " 审判点 id 重复："@ + j.id@));
    let b = e1(x.1);
    let c = only_if(
        chapters::judgment_targets(js, k).contains(j.target@),
        e1("章节 "@ + cid + " 角色 "@ + j.target@ + " 被多个审判点指向（一章内一个角色一个审判点）"@),
    );
    let d = only_if(!chapters::has_result(e, cid, j.id@), e1("章节 "@ + cid + " 审判 "@ + j.id@ + " 的 result 文件缺失"@));
    lemma_judgment_issue_parts(e, cid, ch, k);
    assert(b[0] == x);
    lemma_concat_contains(a, b, x);
    lemma_concat_contains(a + b, c, x);
    lemma_concat_contains(a + b + c, d, x);
    lemma_judgment_issue_in_check(e, cid, k, x);
}

/// Ids a condition refers to.
pub open spec fn spec_cond_ids(c: Condition) -> Seq<Seq<char>> {
    match c {
        Condition::Fact(id) => seq![id@],
        Condition::AllOf(ids) => strs(ids@),
        Condition::AnyOf(ids) => strs(ids@),
        Condition::Not(id) => seq![id@],
    }
}

/// Ids a condition refers to.
pub fn cond_ids(cond: &Condition) -> (r: Vec<&str>)
    ensures
        strs_ref(r@) == spec_cond_ids(*cond),
{
    let mut out: Vec<&str> = Vec::new();
    match cond {
        Condition::Fact(id) => {
            out.push(id.as_str());
        },
        Condition::Not(id) => {
            out.push(id.as_str());
        },
        Condition::AllOf(ids) | Condition::AnyOf(ids) => {
            let mut i: usize = 0;
            while i < ids.len()
                invariant
                    i <= ids@.len(),
                    strs_ref(out@) == strs(ids@.take(i as int)),
                decreases ids@.len() - i,
            {
                let ghost before = strs_ref(out@);
                out.push(ids[i].as_str());
                assert(ids@.take(i + 1) =~= ids@.take(i as int).push(ids@[i as int]));
                assert(strs_ref(out@) =~= before.push(ids@[i as int]@));
                assert(strs_ref(out@) =~= strs(ids@.take(i + 1)));
                i += 1;
            }
            assert(ids@.take(ids@.len() as int) =~= ids@);
        },
    }
    assert(strs_ref(out@) =~= spec_cond_ids(*cond));
    out
}

/// Issues of one condition id referenced from chapter `cur`: an unknown id
/// is an error; a clue defined in another chapter gets an advice.
pub open spec fn spec_validate(e: ContentEngine, cur: Seq<char>, id: Seq<char>) -> Seq<IssueView> {
    let is_clue = owner(e, DefKind::Clue, id) is Some;
    let is_judg = owner(e, DefKind::Judgment, id) is Some;
    let is_narr = owner(e, DefKind::Narrative, id) is Some;
    if !is_clue && !is_judg && !is_narr {
        e1("章节 "@ + cur + " 的条件引用了未知 id："@ + id)
    } else if is_clue && owner(e, DefKind::Clue, id)->0 != cur {
        let o = owner(e, DefKind::Clue, id)->0;
        a1("线索 "@ + id + " 定义在章节 "@ + o + "，被章节 "@ + cur + " 引用，请确认 "@ + o + " 是 "@ + cur + " 的前置章节"@)
    } else {
        Seq::empty()
    }
}

/// Issues of every id of a condition.
pub open spec fn spec_cond_issues(e: ContentEngine, cur: Seq<char>, c: Condition) -> Seq<IssueView> {
    each(spec_cond_ids(c), |id: Seq<char>| spec_validate(e, cur, id))
}

/// Issues of the conditions of one chapter: topic unlocks, then branch
/// conditions.
pub open spec fn spec_chapter_conditions(e: ContentEngine, cid: Seq<char>) -> Seq<IssueView> {
    match lookup_key(e.chapters@, cid) {
        Some(ch) => each(
            ch.characters@,
            |cc: crate::content::models::ChapterCharacter|
                each(
                    cc.topics@,
                    |t: crate::content::models::Topic|
                        match t.unlock_after {
                            Some(c) => spec_cond_issues(e, cid, c),
                            None => Seq::empty(),
                        },
                ),
        ) + match ch.next {
            Some(n) => each(n.branches@, |b: crate::content::models::Branch| spec_cond_issues(e, cid, b.when)),
            None => Seq::empty(),
        },
        None => Seq::empty(),
    }
}

/// Issues of the conditions of every chapter.
pub open spec fn spec_conditions_issues(e: ContentEngine) -> Seq<IssueView> {
    each(cids(e), |cid: Seq<char>| spec_chapter_conditions(e, cid))
}

impl<'a> Checker<'a> {
    fn validate_condition_id(&mut self, current_chapter: &str, id: &str)
        requires
            old(self).wf(),
        ensures
            final(self).same_but_issues(old(self)),
            iv(final(self).issues@) == iv(old(self).issues@) + spec_validate(*old(self).eng, current_chapter@, id@),
    {
        let is_clue = self.clue_owner.contains_key(id);
        let is_judg = self.judgment_owner.contains_key(id);
        let is_narr = self.narrative_owner.contains_key(id);
        if !is_clue && !is_judg && !is_narr {
            let mut m = join("章节 ", current_chapter);
            m.append(" 的条件引用了未知 id：");
            m.append(id);
            self.err(m);
            return;
        }
        if is_clue {
            match self.clue_owner.get(id) {
                Some(o) => {
                    if !crate::text::str_eq(o.as_str(), current_chapter) {
                        let mut m = join("线索 ", id);
                        m.append(" 定义在章节 ");
                        m.append(o.as_str());
                        m.append("，被章节 ");
                        m.append(current_chapter);
                        m.append(" 引用，请确认 ");
                        m.append(o.as_str());
                        m.append(" 是 ");
                        m.append(current_chapter);
                        m.append(" 的前置章节");
                        self.advice(m);
                        return;
                    }
                },
                None => {},
            }
        }
        assert(iv(self.issues@) =~= iv(old(self).issues@) + Seq::<IssueView>::empty());
    }

    fn validate_condition(&mut self, current_chapter: &str, cond: &Condition)
        requires
            old(self).wf(),
        ensures
            final(self).same_but_issues(old(self)),
            final(self).wf(),
            iv(final(self).issues@) == iv(old(self).issues@) + spec_cond_issues(*old(self).eng, current_chapter@, *cond),
    {
        let ids = cond_ids(cond);
        let ghost f = |id: Seq<char>| spec_validate(*self.eng, current_chapter@, id);
        let ghost s = spec_cond_ids(*cond);
        let mut i: usize = 0;
        while i < ids.len()
            invariant
                i <= ids@.len(),
                strs_ref(ids@) == s,
                self.wf(),
                self.same_but_issues(old(self)),
                f == (|id: Seq<char>| spec_validate(*self.eng, current_chapter@, id)),
                iv(self.issues@) == iv(old(self).issues@) + each(s.take(i as int), f),
            decreases ids@.len() - i,
        {
            proof {
                lemma_each_step(s, i as int, f);
            }
            self.validate_condition_id(current_chapter, ids[i]);
            i += 1;
        }
        proof {
            lemma_each_all(s, f);
        }
    }

    /// Condition ids are known clues, judgments or narrative items; a clue of
    /// another chapter gets an advice.
    fn check_conditions(&mut self)
        requires
            old(self).wf(),
        ensures
            final(self).same_but_issues(old(self)),
            final(self).wf(),
            iv(final(self).issues@) == iv(old(self).issues@) + spec_conditions_issues(*old(self).eng),
    {
        let ids = self.eng.chapter_ids();
        let ghost e = *self.eng;
        let ghost f = |cid: Seq<char>| spec_chapter_conditions(e, cid);
        let mut i: usize = 0;
        while i < ids.len()
            invariant
                i <= ids@.len(),
                strs_ref(ids@) == cids(e),
                *self.eng == e,
                self.wf(),
                self.same_but_issues(old(self)),
                f == (|cid: Seq<char>| spec_chapter_conditions(e, cid)),
                iv(self.issues@) == iv(old(self).issues@) + each(cids(e).take(i as int), f),
            decreases ids@.len() - i,
        {
            proof {
                lemma_each_step(cids(e), i as int, f);
            }
            let cid = ids[i];
            let ghost base = iv(self.issues@);
            match self.eng.get_chapter(cid) {
                Some(ch) => {
                    let ghost fc = |cc: crate::content::models::ChapterCharacter|
                        each(
                            cc.topics@,
                            |t: crate::content::models::Topic|
                                match t.unlock_after {
                                    Some(c) => spec_cond_issues(e, cid@, c),
                                    None => Seq::empty(),
                                },
                        );
                    let mut k: usize = 0;
                    while k < ch.characters.len()
                        invariant
                            k <= ch.characters@.len(),
                            *self.eng == e,
                            self.wf(),
                            self.same_but_issues(old(self)),
                            fc == (|cc: crate::content::models::ChapterCharacter|
                                each(
                                    cc.topics@,
                                    |t: crate::content::models::Topic|
                                        match t.unlock_after {
                                            Some(c) => spec_cond_issues(e, cid@, c),
                                            None => Seq::empty(),
                                        },
                                )),
                            iv(self.issues@) == base + each(ch.characters@.take(k as int), fc),
                        decreases ch.characters@.len() - k,
                    {
                        proof {
                            lemma_each_step(ch.characters@, k as int, fc);
                        }
                        let cc = &ch.characters[k];
                        let ghost ft = |t: crate::content::models::Topic|
                            match t.unlock_after {
                                Some(c) => spec_cond_issues(e, cid@, c),
                                None => Seq::empty(),
                            };
                        let ghost base2 = iv(self.issues@);
                        let mut t: usize = 0;
                        while t < cc.topics.len()
                            invariant
                                t <= cc.topics@.len(),
                                *self.eng == e,
                                self.wf(),
                                self.same_but_issues(old(self)),
                                ft == (|t: crate::content::models::Topic|
                                    match t.unlock_after {
                                        Some(c) => spec_cond_issues(e, cid@, c),
                                        None => Seq::empty(),
                                    }),
                                iv(self.issues@) == base2 + each(cc.topics@.take(t as int), ft),
                            decreases cc.topics@.len() - t,
                        {
                            proof {
                                lemma_each_step(cc.topics@, t as int, ft);
                            }
                            match &cc.topics[t].unlock_after {
                                Some(c) => {
                                    self.validate_condition(cid, c);
                                },
                                None => {
                                    assert(iv(self.issues@) =~= iv(self.issues@) + Seq::<IssueView>::empty());
                                },
                            }
                            t += 1;
                        }
                        proof {
                            lemma_each_all(cc.topics@, ft);
                            assert(fc(*cc) == each(cc.topics@, ft));
                        }
                        k += 1;
                    }
                    proof {
                        lemma_each_all(ch.characters@, fc);
                    }
                    let ghost mid = iv(self.issues@);
                    match &ch.next {
                        Some(n) => {
                            let ghost fb = |b: crate::content::models::Branch| spec_cond_issues(e, cid@, b.when);
                            let mut b: usize = 0;
                            while b < n.branches.len()
                                invariant
                                    b <= n.branches@.len(),
                                    *self.eng == e,
                                    self.wf(),
                                    self.same_but_issues(old(self)),
                                    fb == (|b: crate::content::models::Branch| spec_cond_issues(e, cid@, b.when)),
                                    iv(self.issues@) == mid + each(n.branches@.take(b as int), fb),
                                decreases n.branches@.len() - b,
                            {
                                proof {
                                    lemma_each_step(n.branches@, b as int, fb);
                                }
                                self.validate_condition(cid, &n.branches[b].when);
                                b += 1;
                            }
                            proof {
                                lemma_each_all(n.branches@, fb);
                            }
                        },
                        None => {},
                    }
                    assert(iv(self.issues@) =~= base + spec_chapter_conditions(e, cid@));
                },
                None => {
                    assert(iv(self.issues@) =~= base + spec_chapter_conditions(e, cid@));
                },
            }
            i += 1;
        }
        proof {
            lemma_each_all(cids(e), f);
        }
    }
}

proof fn lemma_filter_split(s: Seq<Issue>)
    ensures
        s.filter(|i: Issue| i.severity == Severity::Error).len() + s.filter(|i: Issue| i.severity != Severity::Error).len()
            == s.len(),
        s.filter(|i: Issue| i.severity == Severity::Error).len() > 0 <==> exists|k: int|
            0 <= k < s.len() && #[trigger] s[k].severity == Severity::Error,
    decreases s.len(),
{
    reveal(Seq::filter);
    if s.len() > 0 {
        let t = s.drop_last();
        lemma_filter_split(t);
        if exists|k: int| 0 <= k < t.len() && #[trigger] t[k].severity == Severity::Error {
            let k = choose|k: int| 0 <= k < t.len() && #[trigger] t[k].severity == Severity::Error;
            assert(s[k] == t[k]);
        }
        if exists|k: int| 0 <= k < s.len() && #[trigger] s[k].severity == Severity::Error {
            let k = choose|k: int| 0 <= k < s.len() && #[trigger] s[k].severity == Severity::Error;
            if k < s.len() - 1 {
                assert(t[k] == s[k]);
            }
        }
    }
}

/// The errors and the warnings of a report split its issues: every issue is
/// in exactly one of the two lists, so their counts add up to the total, and
/// the report has errors exactly when the list of errors is not empty.
pub proof fn lemma_report_split(r: CheckReport)
    ensures
        r.issues@.filter(|i: Issue| i.severity == Severity::Error).len() + r.issues@.filter(
            |i: Issue| i.severity != Severity::Error,
        ).len() == r.issues@.len(),
        (exists|k: int| 0 <= k < r.issues@.len() && #[trigger] r.issues@[k].severity == Severity::Error)
            <==> r.issues@.filter(|i: Issue| i.severity == Severity::Error).len() > 0,
{
    lemma_filter_split(r.issues@);
}

} // verus!
