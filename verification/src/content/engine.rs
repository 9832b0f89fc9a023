//! The loaded content and its queries.
//!
//! All text (scene descriptions, dialogue, intro/outro/result/narrative) is
//! read when the content is loaded; queries never touch the data source.
//! Lookups by id return the first record with that id; duplicate ids are
//! reported by the checker.

use vstd::prelude::*;

use crate::content::condition::{eval, spec_eval, FactSet};
use crate::content::dialogue::{has_topic, parse_dialogue, spec_get, spec_parse_dialogue, DialogueBook};
use crate::content::loader::{is_child, listing, parse_scene_override_name, path_in, strip_md_ext, strip_yaml_ext, ContentDecoder, DataSource};
use crate::error::AppError;
use crate::content::models::{
    get_key, lookup_key, Chapter, ChapterCharacter,
    Character, Clue, Judgment, NarrativeItem, NextConfig, Scene, Topic,
};
use crate::strmap::StrMap;
use crate::text::{join, join3, owned, insert_sorted, lemma_lt_irreflexive, lemma_lt_transitive, lemma_push_contains, seq_lt, str_lt, strs_ref, str_eq, strictly_sorted, strs, seq_ends_with};
use crate::world::World;

verus! {

/// Light view of a chapter (map panel, check output).
#[derive(Debug, Clone, PartialEq, Eq)]
pub struct ChapterMeta {
    pub id: String,
    pub title: String,
    pub order: i64,
    pub ending: bool,
}

/// Everything loaded from one chapter's directory.
#[derive(Debug)]
pub struct ChapterContent {
    pub judgments: Vec<Judgment>,
    pub clues: Vec<Clue>,
    /// Character id to that character's dialogue.
    pub dialogues: StrMap<DialogueBook>,
    /// Scene id to the chapter's own surface description of it.
    pub surface_text: StrMap<String>,
    /// Scene id to the chapter's own shadow description of it.
    pub shadow_text: StrMap<String>,
    pub intro_text: Option<String>,
    pub outro_text: Option<String>,
    /// Judgment id to result text.
    pub result_text: StrMap<String>,
    /// Narrative item id to its text.
    pub narrative_text: StrMap<String>,
}

/// All loaded content with its indexes.
#[derive(Debug)]
pub struct ContentEngine {
    pub scenes: Vec<Scene>,
    pub characters: Vec<Character>,
    pub chapters: Vec<Chapter>,
    /// Chapter id to what its directory held.
    pub content: StrMap<ChapterContent>,
    /// Global description path to text.
    pub scene_text: StrMap<String>,
    /// Scene id to its exit-attempt text.
    pub exit_attempt_text: StrMap<String>,
    /// Scene id to the scenes reachable from it, sorted.
    pub reachable: StrMap<Vec<String>>,
    /// The unique chapter nothing leads to, if there is exactly one.
    pub root_chapter: Option<String>,
}

/// `b` is reachable from `a` through scene `s`: a connection of `a`, the
/// reverse of a connection into `a`, or a one-way connection of `a`.
pub open spec fn edge_of(s: Scene, a: Seq<char>, b: Seq<char>) -> bool {
    ||| s.id@ == a && strs(s.connections@).contains(b)
    ||| s.id@ == b && strs(s.connections@).contains(a)
    ||| s.id@ == a && strs(s.one_way_connections@).contains(b)
}

/// Scenes reachable from `a` through the first `n` scenes.
pub open spec fn edges_upto(scenes: Seq<Scene>, n: int, a: Seq<char>) -> Set<Seq<char>> {
    Set::new(|b: Seq<char>| exists|i: int| 0 <= i < n && #[trigger] edge_of(scenes[i], a, b))
}

/// Scenes reachable from `a`.
pub open spec fn spec_edges(scenes: Seq<Scene>, a: Seq<char>) -> Set<Seq<char>> {
    edges_upto(scenes, scenes.len() as int, a)
}

/// Targets of a chapter's `next`: the default, then each branch target.
pub open spec fn spec_next_targets(c: Chapter) -> Seq<Seq<char>> {
    match c.next {
        Some(n) => seq![n.default@] + n.branches@.map_values(|b: crate::content::models::Branch| b.target@),
        None => Seq::empty(),
    }
}

/// Some chapter leads to `id`.
pub open spec fn has_incoming(chapters: Seq<Chapter>, id: Seq<char>) -> bool {
    exists|i: int| 0 <= i < chapters.len() && #[trigger] spec_next_targets(chapters[i]).contains(id)
}

/// Ids of the chapters among the first `n` that nothing leads to.
pub open spec fn roots_upto(chapters: Seq<Chapter>, n: int) -> Seq<Seq<char>>
    decreases n,
{
    if n <= 0 {
        Seq::empty()
    } else {
        let rest = roots_upto(chapters, n - 1);
        if has_incoming(chapters, chapters[n - 1].id@) {
            rest
        } else {
            rest.push(chapters[n - 1].id@)
        }
    }
}

/// The unique root chapter, if exactly one chapter has no incoming edge.
pub open spec fn spec_root(chapters: Seq<Chapter>) -> Option<Seq<char>> {
    let roots = roots_upto(chapters, chapters.len() as int);
    if roots.len() == 1 {
        Some(roots[0])
    } else {
        None
    }
}

/// Scenes reachable from a scene, as stored.
pub open spec fn reach_set(m: Map<Seq<char>, Vec<String>>, a: Seq<char>) -> Set<Seq<char>> {
    if m.contains_key(a) {
        strs(m[a]@).to_set()
    } else {
        Set::empty()
    }
}

/// Every stored list is sorted.
pub open spec fn reach_sorted(m: Map<Seq<char>, Vec<String>>) -> bool {
    forall|a: Seq<char>| #[trigger] m.contains_key(a) ==> strictly_sorted(strs(m[a]@))
}

/// Add `b` to the list of `a`.
fn add_edge(m: &mut StrMap<Vec<String>>, a: &str, b: &String)
    requires
        reach_sorted(old(m)@),
    ensures
        reach_sorted(final(m)@),
        forall|k: Seq<char>| #[trigger]
            reach_set(final(m)@, k) == if k == a@ {
                reach_set(old(m)@, k).insert(b@)
            } else {
                reach_set(old(m)@, k)
            },
{
    let ghost m0 = m@;
    let v = m.get_or_insert_mut(a, Vec::new());
    proof {
        if !m0.contains_key(a@) {
            assert(strs(v@) =~= Seq::<Seq<char>>::empty());
        }
    }
    insert_sorted(v, b.clone());
    proof {
        assert forall|k: Seq<char>| #[trigger] m@.contains_key(k) implies strictly_sorted(
            strs(m@[k]@),
        ) by {
            if k != a@ {
                assert(m0.contains_key(k));
            }
        }
        assert forall|k: Seq<char>| #[trigger]
            reach_set(m@, k) == if k == a@ {
                reach_set(m0, k).insert(b@)
            } else {
                reach_set(m0, k)
            } by {
            if k == a@ && !m0.contains_key(a@) {
                assert(Seq::<Seq<char>>::empty().to_set() =~= Set::<Seq<char>>::empty());
                assert(reach_set(m0, k) =~= Set::<Seq<char>>::empty());
            }
        }
    }
}

/// The scene graph: two-way connections in both directions, one-way ones forward.
pub fn compute_reachable(scenes: &Vec<Scene>) -> (m: StrMap<Vec<String>>)
    ensures
        reach_sorted(m@),
        forall|a: Seq<char>| #[trigger] reach_set(m@, a) == spec_edges(scenes@, a),
{
    let mut m: StrMap<Vec<String>> = StrMap::new();
    let mut i: usize = 0;
    proof {
        assert forall|a: Seq<char>| #[trigger] reach_set(m@, a) == edges_upto(scenes@, 0, a) by {
            assert(edges_upto(scenes@, 0, a) =~= Set::<Seq<char>>::empty());
        }
    }
    while i < scenes.len()
        invariant
            i <= scenes@.len(),
            reach_sorted(m@),
            forall|a: Seq<char>| #[trigger] reach_set(m@, a) == edges_upto(scenes@, i as int, a),
        decreases scenes@.len() - i,
    {
        let s = &scenes[i];
        let ghost m_start = m@;
        let mut j: usize = 0;
        while j < s.connections.len()
            invariant
                i < scenes@.len(),
                *s == scenes@[i as int],
                j <= s.connections@.len(),
                reach_sorted(m@),
                forall|a: Seq<char>| #[trigger]
                    reach_set(m@, a) == reach_set(m_start, a).union(
                        Set::new(
                            |b: Seq<char>|
                                (s.id@ == a && strs(s.connections@.take(j as int)).contains(b)) || (
                                s.id@ == b && strs(s.connections@.take(j as int)).contains(a)),
                        ),
                    ),
            decreases s.connections@.len() - j,
        {
            let c = &s.connections[j];
            let ghost m_pre = m@;
            add_edge(&mut m, s.id.as_str(), c);
            let ghost m_one = m@;
            add_edge(&mut m, c.as_str(), &s.id);
            proof {
                assert(s.connections@.take(j + 1) =~= s.connections@.take(j as int).push(*c));
                assert(strs(s.connections@.take(j + 1)) =~= strs(s.connections@.take(j as int)).push(c@));
                lemma_push_contains(strs(s.connections@.take(j as int)), c@);
                assert forall|a: Seq<char>| #[trigger] reach_set(m@, a) == reach_set(m_start, a).union(
                    Set::new(
                        |b: Seq<char>|
                            (s.id@ == a && strs(s.connections@.take(j + 1)).contains(b)) || (s.id@ == b
                                && strs(s.connections@.take(j + 1)).contains(a)),
                    ),
                ) by {
                    assert(reach_set(m@, a) =~= reach_set(m_start, a).union(
                        Set::new(
                            |b: Seq<char>|
                                (s.id@ == a && strs(s.connections@.take(j + 1)).contains(b)) || (
                                s.id@ == b && strs(s.connections@.take(j + 1)).contains(a)),
                        ),
                    ));
                }
            }
            j += 1;
        }
        let ghost m_mid = m@;
        let mut k: usize = 0;
        while k < s.one_way_connections.len()
            invariant
                i < scenes@.len(),
                *s == scenes@[i as int],
                k <= s.one_way_connections@.len(),
                reach_sorted(m@),
                forall|a: Seq<char>| #[trigger]
                    reach_set(m@, a) == reach_set(m_mid, a).union(
                        Set::new(
                            |b: Seq<char>|
                                s.id@ == a && strs(s.one_way_connections@.take(k as int)).contains(b),
                        ),
                    ),
            decreases s.one_way_connections@.len() - k,
        {
            let c = &s.one_way_connections[k];
            add_edge(&mut m, s.id.as_str(), c);
            proof {
                assert(s.one_way_connections@.take(k + 1) =~= s.one_way_connections@.take(k as int).push(*c));
                assert(strs(s.one_way_connections@.take(k + 1)) =~= strs(s.one_way_connections@.take(k as int)).push(c@));
                lemma_push_contains(strs(s.one_way_connections@.take(k as int)), c@);
                assert forall|a: Seq<char>| #[trigger] reach_set(m@, a) == reach_set(m_mid, a).union(
                    Set::new(
                        |b: Seq<char>|
                            s.id@ == a && strs(s.one_way_connections@.take(k + 1)).contains(b),
                    ),
                ) by {
                    assert(reach_set(m@, a) =~= reach_set(m_mid, a).union(
                        Set::new(
                            |b: Seq<char>|
                                s.id@ == a && strs(s.one_way_connections@.take(k + 1)).contains(b),
                        ),
                    ));
                }
            }
            k += 1;
        }
        proof {
            assert(s.connections@.take(s.connections@.len() as int) =~= s.connections@);
            assert(s.one_way_connections@.take(s.one_way_connections@.len() as int) =~= s.one_way_connections@);
            assert forall|a: Seq<char>| #[trigger] reach_set(m@, a) == edges_upto(scenes@, i + 1, a) by {
                assert forall|b: Seq<char>| reach_set(m@, a).contains(b) == edges_upto(scenes@, i + 1, a).contains(b) by {
                    if edges_upto(scenes@, i + 1, a).contains(b) {
                        let q = choose|q: int| 0 <= q < i + 1 && #[trigger] edge_of(scenes@[q], a, b);
                        if q < i {
                            assert(edges_upto(scenes@, i as int, a).contains(b));
                        }
                    }
                    if edges_upto(scenes@, i as int, a).contains(b) {
                        let q = choose|q: int| 0 <= q < i && #[trigger] edge_of(scenes@[q], a, b);
                        assert(edge_of(scenes@[q], a, b));
                    }
                    if edge_of(scenes@[i as int], a, b) {
                        assert(edges_upto(scenes@, i + 1, a).contains(b));
                    }
                }
                assert(reach_set(m@, a) =~= edges_upto(scenes@, i + 1, a));
            }
        }
        i += 1;
    }
    m
}

/// Targets of a chapter's `next`, default first.
pub fn chapter_targets(c: &Chapter) -> (r: Vec<&str>)
    ensures
        strs_ref(r@) == spec_next_targets(*c),
{
    let mut v: Vec<&str> = Vec::new();
    match &c.next {
        Some(n) => {
            v.push(n.default.as_str());
            let mut i: usize = 0;
            while i < n.branches.len()
                invariant
                    i <= n.branches@.len(),
                    strs_ref(v@) == seq![n.default@] + n.branches@.take(i as int).map_values(
                        |b: crate::content::models::Branch| b.target@,
                    ),
                decreases n.branches@.len() - i,
            {
                let ghost before = v@;
                v.push(n.branches[i].target.as_str());
                assert(n.branches@.take(i + 1) =~= n.branches@.take(i as int).push(n.branches@[i as int]));
                assert(strs_ref(v@) =~= strs_ref(before).push(n.branches@[i as int].target@));
                i += 1;
            }
            assert(n.branches@.take(n.branches@.len() as int) =~= n.branches@);
        },
        None => {
            assert(strs_ref(v@) =~= Seq::<Seq<char>>::empty());
        },
    }
    v
}

/// The unique chapter with no incoming `next` edge.
pub fn compute_root(chapters: &Vec<Chapter>) -> (r: Option<String>)
    ensures
        match r {
            Some(s) => spec_root(chapters@) == Some(s@),
            None => spec_root(chapters@) is None,
        },
{
    let mut incoming = FactSet::new();
    let mut i: usize = 0;
    while i < chapters.len()
        invariant
            i <= chapters@.len(),
            incoming@ == Set::new(|id: Seq<char>| exists|q: int| 0 <= q < i && #[trigger] spec_next_targets(chapters@[q]).contains(id)),
        decreases chapters@.len() - i,
    {
        let ts = chapter_targets(&chapters[i]);
        let ghost before = incoming@;
        let mut j: usize = 0;
        while j < ts.len()
            invariant
                i < chapters@.len(),
                strs_ref(ts@) == spec_next_targets(chapters@[i as int]),
                j <= ts@.len(),
                incoming@ == before.union(strs_ref(ts@).take(j as int).to_set()),
            decreases ts@.len() - j,
        {
            incoming.insert(crate::text::owned(ts[j]));
            assert(strs_ref(ts@).take(j + 1) =~= strs_ref(ts@).take(j as int).push(ts@[j as int]@));
            proof {
                lemma_push_contains(strs_ref(ts@).take(j as int), ts@[j as int]@);
            }
            assert(incoming@ =~= before.union(strs_ref(ts@).take(j + 1).to_set()));
            j += 1;
        }
        proof {
            assert(strs_ref(ts@).take(ts@.len() as int) =~= strs_ref(ts@));
            assert forall|id: Seq<char>| incoming@.contains(id) == (exists|q: int| 0 <= q < i + 1 && #[trigger] spec_next_targets(chapters@[q]).contains(id)) by {
                if exists|q: int| 0 <= q < i + 1 && #[trigger] spec_next_targets(chapters@[q]).contains(id) {
                    let q = choose|q: int| 0 <= q < i + 1 && #[trigger] spec_next_targets(chapters@[q]).contains(id);
                    if q < i {
                        assert(before.contains(id));
                    }
                }
            }
            assert(incoming@ =~= Set::new(|id: Seq<char>| exists|q: int| 0 <= q < i + 1 && #[trigger] spec_next_targets(chapters@[q]).contains(id)));
        }
        i += 1;
    }
    let mut count: usize = 0;
    let mut first: Option<String> = None;
    let mut k: usize = 0;
    while k < chapters.len()
        invariant
            k <= chapters@.len(),
            forall|id: Seq<char>| #[trigger] incoming@.contains(id) == has_incoming(chapters@, id),
            count == roots_upto(chapters@, k as int).len(),
            count <= k,
            count > 0 ==> (first matches Some(f) && f@ == roots_upto(chapters@, k as int)[0]),
        decreases chapters@.len() - k,
    {
        let c = &chapters[k];
        if !incoming.contains(c.id.as_str()) {
            if count == 0 {
                first = Some(c.id.clone());
            }
            count += 1;
        }
        k += 1;
    }
    if count == 1 {
        first
    } else {
        None
    }
}

impl ContentEngine {
    /// The loaded indexes agree with the loaded records.
    pub open spec fn wf(&self) -> bool {
        &&& reach_sorted(self.reachable@)
        &&& forall|a: Seq<char>| #[trigger] reach_set(self.reachable@, a) == spec_edges(self.scenes@, a)
        &&& match self.root_chapter {
            Some(r) => spec_root(self.chapters@) == Some(r@),
            None => spec_root(self.chapters@) is None,
        }
    }

    /// Build the engine from loaded records: scene graph and root chapter are
    /// computed; each chapter's content is filed under its id (a later
    /// chapter with the same id replaces an earlier one's content).
    pub fn assemble(
        scenes: Vec<Scene>,
        characters: Vec<Character>,
        scene_text: StrMap<String>,
        exit_attempt_text: StrMap<String>,
        chapters: Vec<Chapter>,
        content: StrMap<ChapterContent>,
    ) -> (e: ContentEngine)
        ensures
            e.wf(),
            e.scenes == scenes,
            e.characters == characters,
            e.chapters == chapters,
            e.scene_text == scene_text,
            e.exit_attempt_text == exit_attempt_text,
            e.content == content,
    {
        let reachable = compute_reachable(&scenes);
        let root_chapter = compute_root(&chapters);
        ContentEngine {
            scenes,
            characters,
            chapters,
            content,
            scene_text,
            exit_attempt_text,
            reachable,
            root_chapter,
        }
    }

    // ----- chapters -----

    pub fn get_chapter(&self, id: &str) -> (r: Option<&Chapter>)
        ensures
            match r {
                Some(c) => lookup_key(self.chapters@, id@) == Some(*c),
                None => lookup_key(self.chapters@, id@) is None,
            },
    {
        get_key(&self.chapters, id)
    }

    pub fn chapter_exists(&self, id: &str) -> (r: bool)
        ensures
            r == lookup_key(self.chapters@, id@) is Some,
    {
        get_key(&self.chapters, id).is_some()
    }

    /// All chapter ids in load order, duplicates included.
    pub fn chapter_ids(&self) -> (r: Vec<&str>)
        ensures
            strs_ref(r@) == self.chapters@.map_values(|c: Chapter| c.id@),
    {
        let mut v: Vec<&str> = Vec::new();
        let mut i: usize = 0;
        while i < self.chapters.len()
            invariant
                i <= self.chapters@.len(),
                strs_ref(v@) == self.chapters@.take(i as int).map_values(|c: Chapter| c.id@),
            decreases self.chapters@.len() - i,
        {
            let ghost before = v@;
            v.push(self.chapters[i].id.as_str());
            assert(self.chapters@.take(i + 1) =~= self.chapters@.take(i as int).push(self.chapters@[i as int]));
            assert(strs_ref(v@) =~= strs_ref(before).push(self.chapters@[i as int].id@));
            assert(strs_ref(v@) =~= self.chapters@.take(i + 1).map_values(|c: Chapter| c.id@));
            i += 1;
        }
        assert(self.chapters@.take(self.chapters@.len() as int) =~= self.chapters@);
        v
    }

    pub fn first_chapter_id(&self) -> (r: Option<&str>)
        ensures
            match r {
                Some(s) => (self.root_chapter matches Some(t) && t@ == s@),
                None => self.root_chapter is None,
            },
    {
        match &self.root_chapter {
            Some(s) => Some(s.as_str()),
            None => None,
        }
    }

    // ----- scenes -----

    pub fn get_scene(&self, id: &str) -> (r: Option<&Scene>)
        ensures
            match r {
                Some(s) => lookup_key(self.scenes@, id@) == Some(*s),
                None => lookup_key(self.scenes@, id@) is None,
            },
    {
        get_key(&self.scenes, id)
    }

    pub fn scene_exists(&self, id: &str) -> (r: bool)
        ensures
            r == lookup_key(self.scenes@, id@) is Some,
    {
        get_key(&self.scenes, id).is_some()
    }

    /// All scene ids in load order, duplicates included.
    pub fn scene_ids(&self) -> (r: Vec<&str>)
        ensures
            strs_ref(r@) == self.scenes@.map_values(|c: Scene| c.id@),
    {
        let mut v: Vec<&str> = Vec::new();
        let mut i: usize = 0;
        while i < self.scenes.len()
            invariant
                i <= self.scenes@.len(),
                strs_ref(v@) == self.scenes@.take(i as int).map_values(|c: Scene| c.id@),
            decreases self.scenes@.len() - i,
        {
            let ghost before = v@;
            v.push(self.scenes[i].id.as_str());
            assert(self.scenes@.take(i + 1) =~= self.scenes@.take(i as int).push(self.scenes@[i as int]));
            assert(strs_ref(v@) =~= strs_ref(before).push(self.scenes@[i as int].id@));
            assert(strs_ref(v@) =~= self.scenes@.take(i + 1).map_values(|c: Scene| c.id@));
            i += 1;
        }
        assert(self.scenes@.take(self.scenes@.len() as int) =~= self.scenes@);
        v
    }

    /// Description of a scene in a world: the chapter's own version first,
    /// else the scene's global one.
    pub open spec fn spec_scene_description(&self, chapter: Seq<char>, scene: Seq<char>, world: World) -> Option<Seq<char>> {
        let own = if self.content@.contains_key(chapter) {
            let cc = self.content@[chapter];
            let m = if world == World::Surface { cc.surface_text@ } else { cc.shadow_text@ };
            if m.contains_key(scene) { Some(m[scene]@) } else { None }
        } else {
            None
        };
        if own is Some {
            own
        } else {
            match lookup_key(self.scenes@, scene) {
                Some(s) => {
                    let path = if world == World::Surface { s.description.surface@ } else { s.description.shadow@ };
                    if self.scene_text@.contains_key(path) { Some(self.scene_text@[path]@) } else { None }
                },
                None => None,
            }
        }
    }

    pub fn get_scene_description(&self, chapter: &str, scene: &str, world: World) -> (r: Option<&str>)
        ensures
            match r {
                Some(t) => self.spec_scene_description(chapter@, scene@, world) == Some(t@),
                None => self.spec_scene_description(chapter@, scene@, world) is None,
            },
    {
        if let Some(cc) = self.content.get(chapter) {
            let m = match world {
                World::Surface => &cc.surface_text,
                World::Shadow => &cc.shadow_text,
            };
            if let Some(t) = m.get(scene) {
                return Some(t.as_str());
            }
        }
        let s = match self.get_scene(scene) {
            Some(s) => s,
            None => return None,
        };
        let path = match world {
            World::Surface => &s.description.surface,
            World::Shadow => &s.description.shadow,
        };
        match self.scene_text.get(path.as_str()) {
            Some(t) => Some(t.as_str()),
            None => None,
        }
    }

    /// Scenes reachable from `scene`, sorted.
    pub fn get_reachable_scenes(&self, scene: &str) -> (r: Vec<&str>)
        ensures
            self.reachable@.contains_key(scene@) ==> strs_ref(r@) == strs(self.reachable@[scene@]@),
            !self.reachable@.contains_key(scene@) ==> r@.len() == 0,
    {
        let mut v: Vec<&str> = Vec::new();
        if let Some(list) = self.reachable.get(scene) {
            let mut i: usize = 0;
            while i < list.len()
                invariant
                    i <= list@.len(),
                    strs_ref(v@) == strs(list@.take(i as int)),
                decreases list@.len() - i,
            {
                let ghost before = v@;
                v.push(list[i].as_str());
                assert(list@.take(i + 1) =~= list@.take(i as int).push(list@[i as int]));
                assert(strs_ref(v@) =~= strs_ref(before).push(list@[i as int]@));
                assert(strs_ref(v@) =~= strs(list@.take(i + 1)));
                i += 1;
            }
            assert(list@.take(list@.len() as int) =~= list@);
        }
        v
    }

    // ----- characters -----

    pub fn get_character(&self, id: &str) -> (r: Option<&Character>)
        ensures
            match r {
                Some(c) => lookup_key(self.characters@, id@) == Some(*c),
                None => lookup_key(self.characters@, id@) is None,
            },
    {
        get_key(&self.characters, id)
    }

    pub fn character_exists(&self, id: &str) -> (r: bool)
        ensures
            r == lookup_key(self.characters@, id@) is Some,
    {
        get_key(&self.characters, id).is_some()
    }

    /// All character ids in load order, duplicates included.
    pub fn character_ids(&self) -> (r: Vec<&str>)
        ensures
            strs_ref(r@) == self.characters@.map_values(|c: Character| c.id@),
    {
        let mut v: Vec<&str> = Vec::new();
        let mut i: usize = 0;
        while i < self.characters.len()
            invariant
                i <= self.characters@.len(),
                strs_ref(v@) == self.characters@.take(i as int).map_values(|c: Character| c.id@),
            decreases self.characters@.len() - i,
        {
            let ghost before = v@;
            v.push(self.characters[i].id.as_str());
            assert(self.characters@.take(i + 1) =~= self.characters@.take(i as int).push(self.characters@[i as int]));
            assert(strs_ref(v@) =~= strs_ref(before).push(self.characters@[i as int].id@));
            assert(strs_ref(v@) =~= self.characters@.take(i + 1).map_values(|c: Character| c.id@));
            i += 1;
        }
        assert(self.characters@.take(self.characters@.len() as int) =~= self.characters@);
        v
    }

    // ----- topics and dialogue -----

    /// Topics of a character in a chapter (raw; visibility is decided with facts).
    pub open spec fn spec_topics(&self, chapter: Seq<char>, character: Seq<char>) -> Seq<Topic> {
        match lookup_key(self.chapters@, chapter) {
            Some(ch) => match lookup_key(ch.characters@, character) {
                Some(cc) => cc.topics@,
                None => Seq::empty(),
            },
            None => Seq::empty(),
        }
    }

    pub fn get_topics(&self, chapter: &str, character: &str) -> (r: &[Topic])
        ensures
            r@ == self.spec_topics(chapter@, character@),
    {
        let ch = match self.get_chapter(chapter) {
            Some(c) => c,
            None => return &[],
        };
        match get_key(&ch.characters, character) {
            Some(cc) => cc.topics.as_slice(),
            None => &[],
        }
    }

    pub open spec fn spec_dialogue(&self, chapter: Seq<char>, character: Seq<char>, topic: Seq<char>, world: World) -> Option<Seq<char>> {
        if self.content@.contains_key(chapter) && self.content@[chapter].dialogues@.contains_key(character) {
            spec_get(self.content@[chapter].dialogues@[character].spec_entries(), topic, world)
        } else {
            None
        }
    }

    pub fn get_dialogue(&self, chapter: &str, character: &str, topic: &str, world: World) -> (r: Option<&str>)
        ensures
            match r {
                Some(t) => self.spec_dialogue(chapter@, character@, topic@, world) == Some(t@),
                None => self.spec_dialogue(chapter@, character@, topic@, world) is None,
            },
    {
        let cc = match self.content.get(chapter) {
            Some(c) => c,
            None => return None,
        };
        match cc.dialogues.get(character) {
            Some(book) => book.get(topic, world),
            None => None,
        }
    }

    /// Whether the character's dialogue file has the topic in any world.
    pub open spec fn spec_topic_exists(&self, chapter: Seq<char>, character: Seq<char>, topic: Seq<char>) -> bool {
        self.content@.contains_key(chapter) && self.content@[chapter].dialogues@.contains_key(character)
            && has_topic(self.content@[chapter].dialogues@[character].spec_entries(), topic)
    }

    pub fn dialogue_topic_exists(&self, chapter: &str, character: &str, topic: &str) -> (r: bool)
        ensures
            r == self.spec_topic_exists(chapter@, character@, topic@),
    {
        let cc = match self.content.get(chapter) {
            Some(c) => c,
            None => return false,
        };
        match cc.dialogues.get(character) {
            Some(book) => book.contains_topic(topic),
            None => false,
        }
    }

    // ----- judgments, clues, texts -----

    pub open spec fn spec_judgments(&self, chapter: Seq<char>) -> Seq<Judgment> {
        if self.content@.contains_key(chapter) {
            self.content@[chapter].judgments@
        } else {
            Seq::empty()
        }
    }

    pub fn get_judgments(&self, chapter: &str) -> (r: &[Judgment])
        ensures
            r@ == self.spec_judgments(chapter@),
    {
        match self.content.get(chapter) {
            Some(cc) => cc.judgments.as_slice(),
            None => &[],
        }
    }

    /// The chapter's first judgment whose target is `character`.
    pub fn get_judgment_for_character(&self, chapter: &str, character: &str) -> (r: Option<&Judgment>)
        ensures
            match r {
                Some(j) => exists|i: int|
                    0 <= i < self.spec_judgments(chapter@).len() && self.spec_judgments(chapter@)[i] == *j
                        && j.target@ == character@ && forall|k: int| 0 <= k < i ==> self.spec_judgments(chapter@)[k].target@ != character@,
                None => forall|k: int| 0 <= k < self.spec_judgments(chapter@).len() ==> self.spec_judgments(chapter@)[k].target@ != character@,
            },
    {
        let js = self.get_judgments(chapter);
        let mut i: usize = 0;
        while i < js.len()
            invariant
                js@ == self.spec_judgments(chapter@),
                i <= js@.len(),
                forall|k: int| 0 <= k < i ==> js@[k].target@ != character@,
            decreases js@.len() - i,
        {
            if str_eq(js[i].target.as_str(), character) {
                return Some(&js[i]);
            }
            i += 1;
        }
        None
    }

    pub fn get_result_text(&self, chapter: &str, judgment_id: &str) -> (r: Option<&str>)
        ensures
            match r {
                Some(t) => self.content@.contains_key(chapter@) && self.content@[chapter@].result_text@.contains_key(judgment_id@)
                    && self.content@[chapter@].result_text@[judgment_id@]@ == t@,
                None => !(self.content@.contains_key(chapter@) && self.content@[chapter@].result_text@.contains_key(judgment_id@)),
            },
    {
        match self.content.get(chapter) {
            Some(cc) => match cc.result_text.get(judgment_id) {
                Some(t) => Some(t.as_str()),
                None => None,
            },
            None => None,
        }
    }

    pub open spec fn spec_clues(&self, chapter: Seq<char>) -> Seq<Clue> {
        if self.content@.contains_key(chapter) {
            self.content@[chapter].clues@
        } else {
            Seq::empty()
        }
    }

    pub fn get_clues(&self, chapter: &str) -> (r: &[Clue])
        ensures
            r@ == self.spec_clues(chapter@),
    {
        match self.content.get(chapter) {
            Some(cc) => cc.clues.as_slice(),
            None => &[],
        }
    }

    pub open spec fn spec_intro(&self, chapter: Seq<char>) -> Option<Seq<char>> {
        if self.content@.contains_key(chapter) {
            match self.content@[chapter].intro_text {
                Some(t) => Some(t@),
                None => None,
            }
        } else {
            None
        }
    }

    pub fn get_intro_text(&self, chapter: &str) -> (r: Option<&str>)
        ensures
            match r {
                Some(t) => self.spec_intro(chapter@) == Some(t@),
                None => self.spec_intro(chapter@) is None,
            },
    {
        match self.content.get(chapter) {
            Some(cc) => match &cc.intro_text {
                Some(t) => Some(t.as_str()),
                None => None,
            },
            None => None,
        }
    }

    pub open spec fn spec_outro(&self, chapter: Seq<char>) -> Option<Seq<char>> {
        if self.content@.contains_key(chapter) {
            match self.content@[chapter].outro_text {
                Some(t) => Some(t@),
                None => None,
            }
        } else {
            None
        }
    }

    pub fn get_outro_text(&self, chapter: &str) -> (r: Option<&str>)
        ensures
            match r {
                Some(t) => self.spec_outro(chapter@) == Some(t@),
                None => self.spec_outro(chapter@) is None,
            },
    {
        match self.content.get(chapter) {
            Some(cc) => match &cc.outro_text {
                Some(t) => Some(t.as_str()),
                None => None,
            },
            None => None,
        }
    }

    // ----- narrative -----

    /// Narrative items of a chapter.
    pub open spec fn spec_narrative(&self, chapter: Seq<char>) -> Seq<NarrativeItem> {
        match lookup_key(self.chapters@, chapter) {
            Some(ch) => ch.narrative@,
            None => Seq::empty(),
        }
    }

    pub fn get_narrative(&self, chapter: &str) -> (r: &[NarrativeItem])
        ensures
            r@ == self.spec_narrative(chapter@),
    {
        match self.get_chapter(chapter) {
            Some(ch) => ch.narrative.as_slice(),
            None => &[],
        }
    }

    pub fn get_narrative_item(&self, chapter: &str, id: &str) -> (r: Option<&NarrativeItem>)
        ensures
            match r {
                Some(n) => lookup_key(self.spec_narrative(chapter@), id@) == Some(*n),
                None => lookup_key(self.spec_narrative(chapter@), id@) is None,
            },
    {
        match self.get_chapter(chapter) {
            Some(ch) => get_key(&ch.narrative, id),
            None => None,
        }
    }

    pub fn get_narrative_text(&self, chapter: &str, id: &str) -> (r: Option<&str>)
        ensures
            match r {
                Some(t) => self.content@.contains_key(chapter@) && self.content@[chapter@].narrative_text@.contains_key(id@)
                    && self.content@[chapter@].narrative_text@[id@]@ == t@,
                None => !(self.content@.contains_key(chapter@) && self.content@[chapter@].narrative_text@.contains_key(id@)),
            },
    {
        match self.content.get(chapter) {
            Some(cc) => match cc.narrative_text.get(id) {
                Some(t) => Some(t.as_str()),
                None => None,
            },
            None => None,
        }
    }

    /// Exit-attempt text of a scene, if loaded.
    pub fn scene_exit_attempt_text(&self, scene: &str) -> (r: Option<&str>)
        ensures
            match r {
                Some(t) => self.exit_attempt_text@.contains_key(scene@) && self.exit_attempt_text@[scene@]@ == t@,
                None => !self.exit_attempt_text@.contains_key(scene@),
            },
    {
        match self.exit_attempt_text.get(scene) {
            Some(t) => Some(t.as_str()),
            None => None,
        }
    }

    /// The scene is an edge of town: it declares an exit attempt.
    pub fn scene_has_exit_attempt(&self, scene: &str) -> (r: bool)
        ensures
            r == (lookup_key(self.scenes@, scene@) matches Some(s) && s.exit_attempt is Some),
    {
        match self.get_scene(scene) {
            Some(s) => s.exit_attempt.is_some(),
            None => false,
        }
    }

    // ----- chapter flow -----

    /// Declared targets of a chapter (default, then branches); empty when the
    /// chapter is unknown or has no `next`.
    pub fn next_targets(&self, chapter: &str) -> (r: Vec<&str>)
        ensures
            strs_ref(r@) == match lookup_key(self.chapters@, chapter@) {
                Some(c) => spec_next_targets(c),
                None => Seq::empty(),
            },
    {
        match self.get_chapter(chapter) {
            Some(c) => chapter_targets(c),
            None => {
                let v: Vec<&str> = Vec::new();
                assert(strs_ref(v@) =~= Seq::<Seq<char>>::empty());
                v
            },
        }
    }

    /// Target of the first branch whose condition holds and whose target
    /// exists, among branches `i..`.
    pub open spec fn branch_pick(&self, branches: Seq<crate::content::models::Branch>, facts: Set<Seq<char>>, i: int) -> Option<Seq<char>>
        decreases branches.len() - i,
    {
        if i < 0 || i >= branches.len() {
            None
        } else if spec_eval(branches[i].when, facts) && lookup_key(self.chapters@, branches[i].target@) is Some {
            Some(branches[i].target@)
        } else {
            self.branch_pick(branches, facts, i + 1)
        }
    }

    /// Next chapter: the first matching branch with a valid target, else the
    /// default when valid; none for endings or chapters without `next`.
    pub open spec fn spec_next_chapter(&self, chapter: Seq<char>, facts: Set<Seq<char>>) -> Option<Seq<char>> {
        match lookup_key(self.chapters@, chapter) {
            Some(ch) => if ch.ending {
                None
            } else {
                match ch.next {
                    Some(n) => match self.branch_pick(n.branches@, facts, 0) {
                        Some(t) => Some(t),
                        None => if lookup_key(self.chapters@, n.default@) is Some {
                            Some(n.default@)
                        } else {
                            None
                        },
                    },
                    None => None,
                }
            },
            None => None,
        }
    }

    pub fn get_next_chapter(&self, chapter: &str, facts: &FactSet) -> (r: Option<&str>)
        ensures
            match r {
                Some(t) => self.spec_next_chapter(chapter@, facts@) == Some(t@),
                None => self.spec_next_chapter(chapter@, facts@) is None,
            },
    {
        let ch = match self.get_chapter(chapter) {
            Some(c) => c,
            None => return None,
        };
        if ch.ending {
            return None;
        }
        let next = match &ch.next {
            Some(n) => n,
            None => return None,
        };
        let mut i: usize = 0;
        while i < next.branches.len()
            invariant
                lookup_key(self.chapters@, chapter@) == Some(*ch),
                !ch.ending,
                ch.next == Some(*next),
                i <= next.branches@.len(),
                self.branch_pick(next.branches@, facts@, i as int) == self.branch_pick(next.branches@, facts@, 0),
            decreases next.branches@.len() - i,
        {
            let b = &next.branches[i];
            if eval(&b.when, facts) && self.chapter_exists(b.target.as_str()) {
                return Some(b.target.as_str());
            }
            i += 1;
        }
        if self.chapter_exists(next.default.as_str()) {
            Some(next.default.as_str())
        } else {
            None
        }
    }

    proof fn lemma_branch_pick_none(&self, branches: Seq<crate::content::models::Branch>, facts: Set<Seq<char>>, i: int)
        requires
            0 <= i,
            forall|k: int| i <= k < branches.len() ==> !(spec_eval(#[trigger] branches[k].when, facts) && lookup_key(
                self.chapters@,
                branches[k].target@,
            ) is Some),
        ensures
            self.branch_pick(branches, facts, i) is None,
        decreases branches.len() - i,
    {
        if i < branches.len() {
            assert(!(spec_eval(branches[i].when, facts) && lookup_key(self.chapters@, branches[i].target@) is Some));
            self.lemma_branch_pick_none(branches, facts, i + 1);
        }
    }

    proof fn lemma_branch_pick_first(
        &self,
        branches: Seq<crate::content::models::Branch>,
        facts: Set<Seq<char>>,
        i: int,
        k: int,
    )
        requires
            0 <= i <= k < branches.len(),
            spec_eval(branches[k].when, facts),
            lookup_key(self.chapters@, branches[k].target@) is Some,
            forall|j: int| i <= j < k ==> !(spec_eval(#[trigger] branches[j].when, facts) && lookup_key(
                self.chapters@,
                branches[j].target@,
            ) is Some),
        ensures
            self.branch_pick(branches, facts, i) == Some(branches[k].target@),
        decreases k - i,
    {
        if i < k {
            assert(!(spec_eval(branches[i].when, facts) && lookup_key(self.chapters@, branches[i].target@) is Some));
            self.lemma_branch_pick_first(branches, facts, i + 1, k);
        }
    }

    /// When no branch of a non-ending chapter's `next` both holds and leads
    /// to an existing chapter, the next chapter is the default whenever the
    /// default exists, however many branches there are.
    pub proof fn lemma_next_chapter_default(&self, chapter: Seq<char>, facts: Set<Seq<char>>, ch: Chapter, n: NextConfig)
        requires
            lookup_key(self.chapters@, chapter) == Some(ch),
            !ch.ending,
            ch.next == Some(n),
            forall|k: int| 0 <= k < n.branches@.len() ==> !(spec_eval(#[trigger] n.branches@[k].when, facts)
                && lookup_key(self.chapters@, n.branches@[k].target@) is Some),
            lookup_key(self.chapters@, n.default@) is Some,
        ensures
            self.spec_next_chapter(chapter, facts) == Some(n.default@),
    {
        self.lemma_branch_pick_none(n.branches@, facts, 0);
    }

    /// The next chapter of a non-ending chapter is the target of its first
    /// branch that holds and leads to an existing chapter, whatever the
    /// default and the later branches.
    pub proof fn lemma_next_chapter_first_branch(
        &self,
        chapter: Seq<char>,
        facts: Set<Seq<char>>,
        ch: Chapter,
        n: NextConfig,
        k: int,
    )
        requires
            lookup_key(self.chapters@, chapter) == Some(ch),
            !ch.ending,
            ch.next == Some(n),
            0 <= k < n.branches@.len(),
            spec_eval(n.branches@[k].when, facts),
            lookup_key(self.chapters@, n.branches@[k].target@) is Some,
            forall|j: int| 0 <= j < k ==> !(spec_eval(#[trigger] n.branches@[j].when, facts) && lookup_key(
                self.chapters@,
                n.branches@[j].target@,
            ) is Some),
        ensures
            self.spec_next_chapter(chapter, facts) == Some(n.branches@[k].target@),
    {
        self.lemma_branch_pick_first(n.branches@, facts, 0, k);
    }

    /// Ids of the ending chapters among the first `n`, in order.
    pub open spec fn endings_upto(&self, n: int) -> Seq<Seq<char>>
        decreases n,
    {
        if n <= 0 {
            Seq::empty()
        } else if self.chapters@[n - 1].ending {
            self.endings_upto(n - 1).push(self.chapters@[n - 1].id@)
        } else {
            self.endings_upto(n - 1)
        }
    }

    /// Ids of all ending chapters, in load order.
    pub fn ending_chapter_ids(&self) -> (r: Vec<&str>)
        ensures
            strs_ref(r@) == self.endings_upto(self.chapters@.len() as int),
    {
        let mut v: Vec<&str> = Vec::new();
        let mut i: usize = 0;
        while i < self.chapters.len()
            invariant
                i <= self.chapters@.len(),
                strs_ref(v@) == self.endings_upto(i as int),
            decreases self.chapters@.len() - i,
        {
            if self.chapters[i].ending {
                let ghost before = v@;
                v.push(self.chapters[i].id.as_str());
                assert(strs_ref(v@) =~= strs_ref(before).push(self.chapters@[i as int].id@));
            }
            i += 1;
        }
        v
    }

    /// Characters of the first `n` chapter entries present in `scene`.
    pub open spec fn present_upto(&self, ccs: Seq<ChapterCharacter>, scene: Seq<char>, n: int) -> Seq<Character>
        decreases n,
    {
        if n <= 0 {
            Seq::empty()
        } else {
            let rest = self.present_upto(ccs, scene, n - 1);
            let cc = ccs[n - 1];
            let here = match cc.appears_in {
                Some(list) => strs(list@).contains(scene),
                None => true,
            };
            if here && lookup_key(self.characters@, cc.id@) is Some {
                rest.push(lookup_key(self.characters@, cc.id@)->0)
            } else {
                rest
            }
        }
    }

    /// Characters present in a chapter's scene: listed in the chapter with
    /// `appears_in` naming the scene (or omitted), and defined globally.
    pub open spec fn spec_characters_in_scene(&self, chapter: Seq<char>, scene: Seq<char>) -> Seq<Character> {
        match lookup_key(self.chapters@, chapter) {
            Some(ch) => self.present_upto(ch.characters@, scene, ch.characters@.len() as int),
            None => Seq::empty(),
        }
    }

    pub fn get_characters_in_scene(&self, chapter: &str, scene: &str) -> (r: Vec<&Character>)
        ensures
            r@.map_values(|c: &Character| *c) == self.spec_characters_in_scene(chapter@, scene@),
    {
        let mut out: Vec<&Character> = Vec::new();
        let ch = match self.get_chapter(chapter) {
            Some(c) => c,
            None => {
                assert(out@.map_values(|c: &Character| *c) =~= Seq::<Character>::empty());
                return out;
            },
        };
        let mut i: usize = 0;
        assert(out@.map_values(|c: &Character| *c) =~= Seq::<Character>::empty());
        while i < ch.characters.len()
            invariant
                i <= ch.characters@.len(),
                out@.map_values(|c: &Character| *c) == self.present_upto(ch.characters@, scene@, i as int),
            decreases ch.characters@.len() - i,
        {
            let cc = &ch.characters[i];
            let here = match &cc.appears_in {
                Some(list) => {
                    let mut found = false;
                    let mut k: usize = 0;
                    while k < list.len()
                        invariant
                            k <= list@.len(),
                            found == strs(list@.take(k as int)).contains(scene@),
                        decreases list@.len() - k,
                    {
                        proof {
                            assert(list@.take(k + 1) =~= list@.take(k as int).push(list@[k as int]));
                            assert(strs(list@.take(k + 1)) =~= strs(list@.take(k as int)).push(list@[k as int]@));
                            lemma_push_contains(strs(list@.take(k as int)), list@[k as int]@);
                        }
                        if str_eq(list[k].as_str(), scene) {
                            found = true;
                        }
                        k += 1;
                    }
                    assert(list@.take(list@.len() as int) =~= list@);
                    found
                },
                None => true,
            };
            if here {
                if let Some(c) = self.get_character(cc.id.as_str()) {
                    let ghost before = out@.map_values(|c: &Character| *c);
                    out.push(c);
                    assert(out@.map_values(|c: &Character| *c) =~= before.push(*c));
                }
            }
            i += 1;
        }
        out
    }

    /// The first `n` chapters as meta views.
    pub open spec fn metas(&self, n: int) -> Seq<(Seq<char>, Seq<char>, i64, bool)> {
        self.chapters@.take(n).map_values(|c: Chapter| chapter_meta_view(c))
    }

    /// Chapter metas sorted by `order`, then id: a permutation of the chapters.
    pub fn list_chapters(&self) -> (r: Vec<ChapterMeta>)
        ensures
            r@.map_values(|m: ChapterMeta| meta_view(m)).to_multiset() == self.metas(self.chapters@.len() as int).to_multiset(),
            metas_sorted(r@.map_values(|m: ChapterMeta| meta_view(m))),
    {
        let mut v: Vec<ChapterMeta> = Vec::new();
        let mut i: usize = 0;
        assert(v@.map_values(|m: ChapterMeta| meta_view(m)) =~= Seq::empty());
        assert(self.metas(0) =~= Seq::empty());
        while i < self.chapters.len()
            invariant
                i <= self.chapters@.len(),
                v@.map_values(|m: ChapterMeta| meta_view(m)).to_multiset() == self.metas(i as int).to_multiset(),
                metas_sorted(v@.map_values(|m: ChapterMeta| meta_view(m))),
            decreases self.chapters@.len() - i,
        {
            let c = &self.chapters[i];
            let m = ChapterMeta { id: c.id.clone(), title: c.title.clone(), order: c.order, ending: c.ending };
            let ghost mv = meta_view(m);
            assert(mv == chapter_meta_view(*c));
            let ghost s0 = v@.map_values(|m: ChapterMeta| meta_view(m));
            let mut j: usize = 0;
            while j < v.len() && !meta_before(&m, &v[j])
                invariant
                    s0 == v@.map_values(|m: ChapterMeta| meta_view(m)),
                    mv == meta_view(m),
                    j <= v@.len(),
                    forall|k: int| 0 <= k < j ==> !meta_lt(mv, #[trigger] s0[k]),
                decreases v@.len() - j,
            {
                j += 1;
            }
            v.insert(j, m);
            proof {
                let s1 = v@.map_values(|m: ChapterMeta| meta_view(m));
                assert(s1 =~= s0.insert(j as int, mv));
                vstd::seq_lib::to_multiset_insert(s0, j as int, mv);
                assert(self.chapters@.take(i + 1) =~= self.chapters@.take(i as int).push(*c));
                assert(self.metas(i + 1) =~= self.metas(i as int).push(mv));
                vstd::seq_lib::to_multiset_build(self.metas(i as int), mv);
                assert forall|a: int, b: int| 0 <= a < b < s1.len() implies !meta_lt(#[trigger] s1[b], #[trigger] s1[a]) by {
                    if b == j {
                        assert(s1[a] == s0[a]);
                    } else if a == j {
                        // mv sorts before s0[j], which is not after s0[b - 1]
                        assert(s1[b] == s0[b - 1]);
                        if meta_lt(s1[b], mv) {
                            lemma_meta_lt_transitive(s1[b], mv, s0[j as int]);
                            if b - 1 == j {
                                lemma_lt_irreflexive(s0[j as int].0);
                            }
                        }
                    } else if a < j && b > j {
                        assert(s1[a] == s0[a] && s1[b] == s0[b - 1]);
                    } else if b < j {
                        assert(s1[a] == s0[a] && s1[b] == s0[b]);
                    } else {
                        assert(s1[a] == s0[a - 1] && s1[b] == s0[b - 1]);
                    }
                }
            }
            i += 1;
        }
        assert(self.chapters@.take(self.chapters@.len() as int) =~= self.chapters@);
        v
    }
}

/// A meta as plain values: id, title, order, ending.
pub open spec fn meta_view(m: ChapterMeta) -> (Seq<char>, Seq<char>, i64, bool) {
    (m.id@, m.title@, m.order, m.ending)
}

pub open spec fn chapter_meta_view(c: Chapter) -> (Seq<char>, Seq<char>, i64, bool) {
    (c.id@, c.title@, c.order, c.ending)
}

/// `a` sorts strictly before `b`: smaller order, or same order and smaller id.
pub open spec fn meta_lt(a: (Seq<char>, Seq<char>, i64, bool), b: (Seq<char>, Seq<char>, i64, bool)) -> bool {
    a.2 < b.2 || (a.2 == b.2 && seq_lt(a.0, b.0))
}

pub open spec fn metas_sorted(s: Seq<(Seq<char>, Seq<char>, i64, bool)>) -> bool {
    forall|a: int, b: int| 0 <= a < b < s.len() ==> !meta_lt(#[trigger] s[b], #[trigger] s[a])
}

proof fn lemma_meta_lt_transitive(a: (Seq<char>, Seq<char>, i64, bool), b: (Seq<char>, Seq<char>, i64, bool), c: (Seq<char>, Seq<char>, i64, bool))
    requires
        meta_lt(a, b),
        meta_lt(b, c),
    ensures
        meta_lt(a, c),
{
    if a.2 == b.2 && b.2 == c.2 {
        lemma_lt_transitive(a.0, b.0, c.0);
    }
}

fn meta_before(a: &ChapterMeta, b: &ChapterMeta) -> (r: bool)
    ensures
        r == meta_lt(meta_view(*a), meta_view(*b)),
{
    a.order < b.order || (a.order == b.order && str_lt(a.id.as_str(), b.id.as_str()))
}

/// Read `rel`, if it can be read.
fn read_opt<S: DataSource>(src: &S, rel: &str) -> (r: Option<String>)
    ensures
        src.modeled() ==> (r is Some <==> src.files().contains_key(rel@)),
        src.modeled() && r is Some ==> r->0@ == src.files()[rel@],
{
    match src.read(rel) {
        Ok(t) => Some(t),
        Err(_) => None,
    }
}

/// The names that end in `.yaml`, in order.
pub open spec fn yaml_names(names: Seq<Seq<char>>) -> Seq<Seq<char>> {
    names.filter(|n: Seq<char>| seq_ends_with(n, ".yaml"@))
}

/// A listed scene file that the load stops at: it is not a file, or the
/// decoder may refuse its text.
pub open spec fn scene_refused<D: ContentDecoder>(dec: D, files: Map<Seq<char>, Seq<char>>, name: Seq<char>) -> bool {
    let p = "scenes/"@ + name;
    seq_ends_with(name, ".yaml"@) && (!files.contains_key(p) || dec.may_refuse_scene(files[p]))
}

/// A listed character file that the load stops at.
pub open spec fn character_refused<D: ContentDecoder>(dec: D, files: Map<Seq<char>, Seq<char>>, name: Seq<char>) -> bool {
    let p = "characters/"@ + name;
    seq_ends_with(name, ".yaml"@) && (!files.contains_key(p) || dec.may_refuse_character(files[p]))
}

/// Decode every `.yaml` file of `scenes/` as a scene, in the sorted order of
/// the names. With a modeled source, the load fails only when a listed
/// `.yaml` name is not a file or the decoder refuses its text.
fn load_scenes<S: DataSource, D: ContentDecoder>(src: &S, dec: &D) -> (r: Result<Vec<Scene>, AppError>)
    ensures
        src.modeled() && r is Ok ==> exists|names: Seq<Seq<char>>| #[trigger]
            listing(src.files(), "scenes"@, names) && r->Ok_0@.len() == yaml_names(names).len() && forall|k: int|
                0 <= k < r->Ok_0@.len() ==> dec.may_give_scene(
                    src.files()["scenes/"@ + yaml_names(names)[k]],
                    #[trigger] r->Ok_0@[k],
                ),
        src.modeled() && r is Err ==> exists|n: Seq<char>| #[trigger] is_child(src.files(), "scenes"@, n)
            && scene_refused(*dec, src.files(), n),
{
    let ghost files = src.files();
    let mut out: Vec<Scene> = Vec::new();
    let names = src.list_dir("scenes")?;
    let ghost nv = strs(names@);
    let ghost pred = |n: Seq<char>| seq_ends_with(n, ".yaml"@);
    let mut i: usize = 0;
    while i < names.len()
        invariant
            i <= names@.len(),
            files == src.files(),
            nv == strs(names@),
            src.modeled() ==> listing(files, "scenes"@, nv),
            pred == (|n: Seq<char>| seq_ends_with(n, ".yaml"@)),
            out@.len() == nv.take(i as int).filter(pred).len(),
            src.modeled() ==> forall|k: int| 0 <= k < out@.len() ==> dec.may_give_scene(
                files["scenes/"@ + nv.take(i as int).filter(pred)[k]],
                #[trigger] out@[k],
            ),
        decreases names@.len() - i,
    {
        proof {
            assert(nv.take(i + 1) =~= nv.take(i as int).push(nv[i as int]));
            nv.take(i as int).lemma_filter_push(nv[i as int], pred);
        }
        if strip_yaml_ext(names[i].as_str()).is_some() {
            let path = join("scenes/", names[i].as_str());
            proof {
                if src.modeled() {
                    assert(nv.contains(nv[i as int]));
                }
            }
            let text = match src.read(path.as_str()) {
                Ok(t) => t,
                Err(e) => {
                    assert(src.modeled() ==> is_child(files, "scenes"@, nv[i as int]) && scene_refused(*dec, files, nv[i as int]));
                    return Err(e);
                },
            };
            let rec = match dec.scene(text.as_str()) {
                Ok(x) => x,
                Err(e) => {
                    assert(src.modeled() ==> is_child(files, "scenes"@, nv[i as int]) && scene_refused(*dec, files, nv[i as int]));
                    return Err(e);
                },
            };
            let ghost before = out@;
            out.push(rec);
            proof {
                if src.modeled() {
                    let f = nv.take(i + 1).filter(pred);
                    assert(f =~= nv.take(i as int).filter(pred).push(nv[i as int]));
                    assert forall|k: int| 0 <= k < out@.len() implies dec.may_give_scene(
                        files["scenes/"@ + f[k]],
                        #[trigger] out@[k],
                    ) by {
                        if k < before.len() {
                            assert(out@[k] == before[k]);
                        }
                    }
                }
            }
        }
        i += 1;
    }
    proof {
        assert(nv.take(nv.len() as int) =~= nv);
    }
    Ok(out)
}

/// Decode every `.yaml` file of `characters/` as a character, in the sorted order of
/// the names. With a modeled source, the load fails only when a listed
/// `.yaml` name is not a file or the decoder refuses its text.
fn load_characters<S: DataSource, D: ContentDecoder>(src: &S, dec: &D) -> (r: Result<Vec<Character>, AppError>)
    ensures
        src.modeled() && r is Ok ==> exists|names: Seq<Seq<char>>| #[trigger]
            listing(src.files(), "characters"@, names) && r->Ok_0@.len() == yaml_names(names).len() && forall|k: int|
                0 <= k < r->Ok_0@.len() ==> dec.may_give_character(
                    src.files()["characters/"@ + yaml_names(names)[k]],
                    #[trigger] r->Ok_0@[k],
                ),
        src.modeled() && r is Err ==> exists|n: Seq<char>| #[trigger] is_child(src.files(), "characters"@, n)
            && character_refused(*dec, src.files(), n),
{
    let ghost files = src.files();
    let mut out: Vec<Character> = Vec::new();
    let names = src.list_dir("characters")?;
    let ghost nv = strs(names@);
    let ghost pred = |n: Seq<char>| seq_ends_with(n, ".yaml"@);
    let mut i: usize = 0;
    while i < names.len()
        invariant
            i <= names@.len(),
            files == src.files(),
            nv == strs(names@),
            src.modeled() ==> listing(files, "characters"@, nv),
            pred == (|n: Seq<char>| seq_ends_with(n, ".yaml"@)),
            out@.len() == nv.take(i as int).filter(pred).len(),
            src.modeled() ==> forall|k: int| 0 <= k < out@.len() ==> dec.may_give_character(
                files["characters/"@ + nv.take(i as int).filter(pred)[k]],
                #[trigger] out@[k],
            ),
        decreases names@.len() - i,
    {
        proof {
            assert(nv.take(i + 1) =~= nv.take(i as int).push(nv[i as int]));
            nv.take(i as int).lemma_filter_push(nv[i as int], pred);
        }
        if strip_yaml_ext(names[i].as_str()).is_some() {
            let path = join("characters/", names[i].as_str());
            proof {
                if src.modeled() {
                    assert(nv.contains(nv[i as int]));
                }
            }
            let text = match src.read(path.as_str()) {
                Ok(t) => t,
                Err(e) => {
                    assert(src.modeled() ==> is_child(files, "characters"@, nv[i as int]) && character_refused(*dec, files, nv[i as int]));
                    return Err(e);
                },
            };
            let rec = match dec.character(text.as_str()) {
                Ok(x) => x,
                Err(e) => {
                    assert(src.modeled() ==> is_child(files, "characters"@, nv[i as int]) && character_refused(*dec, files, nv[i as int]));
                    return Err(e);
                },
            };
            let ghost before = out@;
            out.push(rec);
            proof {
                if src.modeled() {
                    let f = nv.take(i + 1).filter(pred);
                    assert(f =~= nv.take(i as int).filter(pred).push(nv[i as int]));
                    assert forall|k: int| 0 <= k < out@.len() implies dec.may_give_character(
                        files["characters/"@ + f[k]],
                        #[trigger] out@[k],
                    ) by {
                        if k < before.len() {
                            assert(out@[k] == before[k]);
                        }
                    }
                }
            }
        }
        i += 1;
    }
    proof {
        assert(nv.take(nv.len() as int) =~= nv);
    }
    Ok(out)
}

/// What a chapter's content is filed under comes from the chapter and its
/// judgments: an intro or outro text only for a chapter that names one, a
/// result text only under a judgment's id, a narrative text only under one
/// of the chapter's narrative items.
pub open spec fn content_keyed_by(cc: ChapterContent, ch: Chapter) -> bool {
    &&& cc.intro_text is Some ==> ch.intro is Some
    &&& cc.outro_text is Some ==> ch.outro is Some
    &&& forall|k: Seq<char>| #[trigger] cc.result_text@.contains_key(k) ==> exists|m: int|
        0 <= m < cc.judgments@.len() && #[trigger] cc.judgments@[m].id@ == k
    &&& forall|k: Seq<char>| #[trigger] cc.narrative_text@.contains_key(k) ==> exists|m: int|
        0 <= m < ch.narrative@.len() && #[trigger] ch.narrative@[m].id@ == k
}

/// The path of `rel` in chapter `ch`'s directory.
pub open spec fn in_chapter(ch: Seq<char>, rel: Seq<char>) -> Seq<char> {
    "chapters/"@ + ch + "/"@ + rel
}

/// Every `.md` file listed in chapter `ch`'s `dialogues` directory is a
/// well-formed dialogue.
pub open spec fn dialogues_parse(files: Map<Seq<char>, Seq<char>>, ch: Seq<char>) -> bool {
    let dir = "chapters/"@ + ch + "/dialogues"@;
    forall|name: Seq<char>| #[trigger] is_child(files, dir, name) && seq_ends_with(name, ".md"@) ==> files.contains_key(
        dir + "/"@ + name,
    ) && spec_parse_dialogue(files[dir + "/"@ + name]) is Some
}

/// `t` holds the file at `path` exactly when there is one.
pub open spec fn text_at(files: Map<Seq<char>, Seq<char>>, path: Seq<char>, t: Option<String>) -> bool {
    &&& t is Some <==> files.contains_key(path)
    &&& t is Some ==> t->0@ == files[path]
}

/// The texts of chapter `ch` as read from `files`: its dialogues are well
/// formed; its intro and outro are the files they name, when those exist;
/// each judgment's and each narrative item's text is held under its id when
/// its file exists, and each held one is the file of such an item.
pub open spec fn content_read(files: Map<Seq<char>, Seq<char>>, cc: ChapterContent, ch: Chapter) -> bool {
    let id = ch.id@;
    &&& dialogues_parse(files, id)
    &&& ch.intro is Some ==> text_at(files, in_chapter(id, ch.intro->0@), cc.intro_text)
    &&& ch.outro is Some ==> text_at(files, in_chapter(id, ch.outro->0@), cc.outro_text)
    &&& forall|m: int| 0 <= m < cc.judgments@.len() ==> (files.contains_key(
        in_chapter(id, #[trigger] cc.judgments@[m].result@),
    ) ==> cc.result_text@.contains_key(cc.judgments@[m].id@))
    &&& forall|k: Seq<char>| #[trigger] cc.result_text@.contains_key(k) ==> exists|m: int|
        0 <= m < cc.judgments@.len() && #[trigger] cc.judgments@[m].id@ == k && files.contains_key(
            in_chapter(id, cc.judgments@[m].result@),
        ) && cc.result_text@[k]@ == files[in_chapter(id, cc.judgments@[m].result@)]
    &&& forall|m: int| 0 <= m < ch.narrative@.len() ==> (files.contains_key(
        in_chapter(id, #[trigger] ch.narrative@[m].text@),
    ) ==> cc.narrative_text@.contains_key(ch.narrative@[m].id@))
    &&& forall|k: Seq<char>| #[trigger] cc.narrative_text@.contains_key(k) ==> exists|m: int|
        0 <= m < ch.narrative@.len() && #[trigger] ch.narrative@[m].id@ == k && files.contains_key(
            in_chapter(id, ch.narrative@[m].text@),
        ) && cc.narrative_text@[k]@ == files[in_chapter(id, ch.narrative@[m].text@)]
}

/// Everything a chapter directory holds besides `chapter.yaml`. Missing or
/// undecodable judgment and clue files count as empty; missing texts are
/// left out (the checker reports them).
fn load_chapter_content<S: DataSource, D: ContentDecoder>(src: &S, dec: &D, ch: &Chapter) -> (r: Result<ChapterContent, AppError>)
    ensures
        r matches Ok(cc) ==> content_keyed_by(cc, *ch),
        src.modeled() && r is Ok ==> content_read(src.files(), r->Ok_0, *ch),
        src.modeled() ==> (r is Ok <==> dialogues_parse(src.files(), ch.id@)),
{
    let ghost files = src.files();
    let base = join("chapters/", ch.id.as_str());
    let judgments_path = join(base.as_str(), "/judgments.yaml");
    let judgments: Vec<Judgment> = if src.path_exists(judgments_path.as_str()) {
        match src.read(judgments_path.as_str()) {
            Ok(t) => match dec.judgments(t.as_str()) {
                Ok(v) => v,
                Err(_) => Vec::new(),
            },
            Err(_) => Vec::new(),
        }
    } else {
        Vec::new()
    };
    let clues_path = join(base.as_str(), "/clues.yaml");
    let clues: Vec<Clue> = if src.path_exists(clues_path.as_str()) {
        match src.read(clues_path.as_str()) {
            Ok(t) => match dec.clues(t.as_str()) {
                Ok(v) => v,
                Err(_) => Vec::new(),
            },
            Err(_) => Vec::new(),
        }
    } else {
        Vec::new()
    };

    let mut dialogues: StrMap<DialogueBook> = StrMap::new();
    let dialogue_dir = join(base.as_str(), "/dialogues");
    let names = src.list_dir(dialogue_dir.as_str())?;
    let ghost dnames = strs(names@);
    let ghost ddir = dialogue_dir@;
    let mut i: usize = 0;
    while i < names.len()
        invariant
            i <= names@.len(),
            files == src.files(),
            dnames == strs(names@),
            ddir == dialogue_dir@,
            ddir == "chapters/"@ + ch.id@ + "/dialogues"@,
            src.modeled() ==> listing(files, ddir, dnames),
            src.modeled() ==> forall|k: int| 0 <= k < i && seq_ends_with(#[trigger] dnames[k], ".md"@) ==> files.contains_key(
                ddir + "/"@ + dnames[k],
            ) && spec_parse_dialogue(files[ddir + "/"@ + dnames[k]]) is Some,
        decreases names@.len() - i,
    {
        if let Some(char_id) = strip_md_ext(names[i].as_str()) {
            let path = join3(dialogue_dir.as_str(), "/", names[i].as_str());
            assert(path@ == ddir + "/"@ + dnames[i as int]);
            proof {
                if src.modeled() {
                    assert(dnames.contains(dnames[i as int]));
                    assert(is_child(files, ddir, dnames[i as int]));
                }
            }
            let text = match src.read(path.as_str()) {
                Ok(t) => t,
                Err(e) => {
                    return Err(e);
                },
            };
            let book = match parse_dialogue(text.as_str()) {
                Ok(b) => b,
                Err(e) => {
                    return Err(e);
                },
            };
            dialogues.insert(owned(char_id), book);
        }
        i += 1;
    }
    proof {
        if src.modeled() {
            assert(ddir == "chapters/"@ + ch.id@ + "/dialogues"@);
            assert forall|name: Seq<char>| #[trigger] is_child(files, ddir, name) && seq_ends_with(name, ".md"@)
                implies files.contains_key(ddir + "/"@ + name) && spec_parse_dialogue(files[ddir + "/"@ + name]) is Some by {
                assert(dnames.contains(name));
                let k = choose|k: int| 0 <= k < dnames.len() && dnames[k] == name;
                assert(seq_ends_with(dnames[k], ".md"@));
            }
            assert(dialogues_parse(files, ch.id@));
        }
    }

    let mut surface_text: StrMap<String> = StrMap::new();
    let mut shadow_text: StrMap<String> = StrMap::new();
    let scene_dir = join(base.as_str(), "/scenes");
    let names = src.list_dir(scene_dir.as_str())?;
    let mut i: usize = 0;
    while i < names.len()
        decreases names@.len() - i,
    {
        if let Some((scene, world)) = parse_scene_override_name(names[i].as_str()) {
            if let Some(t) = read_opt(src, join3(scene_dir.as_str(), "/", names[i].as_str()).as_str()) {
                match world {
                    World::Surface => surface_text.insert(scene, t),
                    World::Shadow => shadow_text.insert(scene, t),
                }
            }
        }
        i += 1;
    }

    let intro_text = match &ch.intro {
        Some(p) => read_opt(src, join3(base.as_str(), "/", p.as_str()).as_str()),
        None => None,
    };
    let outro_text = match &ch.outro {
        Some(p) => read_opt(src, join3(base.as_str(), "/", p.as_str()).as_str()),
        None => None,
    };
    let ghost id = ch.id@;
    assert(base@ + "/"@ == "chapters/"@ + id + "/"@);
    let mut result_text: StrMap<String> = StrMap::new();
    let mut i: usize = 0;
    while i < judgments.len()
        invariant
            i <= judgments@.len(),
            files == src.files(),
            id == ch.id@,
            base@ == "chapters/"@ + id,
            intro_text is Some ==> ch.intro is Some,
            outro_text is Some ==> ch.outro is Some,
            forall|k: Seq<char>| #[trigger] result_text@.contains_key(k) ==> exists|m: int|
                0 <= m < judgments@.len() && #[trigger] judgments@[m].id@ == k,
            src.modeled() ==> forall|m: int| 0 <= m < i ==> (files.contains_key(
                in_chapter(id, #[trigger] judgments@[m].result@),
            ) ==> result_text@.contains_key(judgments@[m].id@)),
            src.modeled() ==> forall|k: Seq<char>| #[trigger] result_text@.contains_key(k) ==> exists|m: int|
                0 <= m < i && #[trigger] judgments@[m].id@ == k && files.contains_key(
                    in_chapter(id, judgments@[m].result@),
                ) && result_text@[k]@ == files[in_chapter(id, judgments@[m].result@)],
        decreases judgments@.len() - i,
    {
        let j = &judgments[i];
        let ghost r0 = result_text@;
        let path = join3(base.as_str(), "/", j.result.as_str());
        assert(path@ == in_chapter(id, judgments@[i as int].result@));
        if let Some(t) = read_opt(src, path.as_str()) {
            result_text.insert(j.id.clone(), t);
        }
        proof {
            if src.modeled() {
                assert forall|m: int| 0 <= m < i + 1 && files.contains_key(
                    in_chapter(id, #[trigger] judgments@[m].result@),
                ) implies result_text@.contains_key(judgments@[m].id@) by {
                    if m < i && r0.contains_key(judgments@[m].id@) {
                        assert(result_text@.contains_key(judgments@[m].id@));
                    }
                }
                assert forall|k: Seq<char>| #[trigger] result_text@.contains_key(k) implies exists|m: int|
                    0 <= m < i + 1 && #[trigger] judgments@[m].id@ == k && files.contains_key(
                        in_chapter(id, judgments@[m].result@),
                    ) && result_text@[k]@ == files[in_chapter(id, judgments@[m].result@)] by {
                    if k == judgments@[i as int].id@ && result_text@ != r0 {
                        assert(judgments@[i as int].id@ == k);
                    } else {
                        let m = choose|m: int| 0 <= m < i && #[trigger] judgments@[m].id@ == k && files.contains_key(
                            in_chapter(id, judgments@[m].result@),
                        ) && r0[k]@ == files[in_chapter(id, judgments@[m].result@)];
                        assert(judgments@[m].id@ == k);
                    }
                }
            }
        }
        i += 1;
    }
    let mut narrative_text: StrMap<String> = StrMap::new();
    let mut i: usize = 0;
    while i < ch.narrative.len()
        invariant
            i <= ch.narrative@.len(),
            files == src.files(),
            id == ch.id@,
            base@ == "chapters/"@ + id,
            intro_text is Some ==> ch.intro is Some,
            outro_text is Some ==> ch.outro is Some,
            forall|k: Seq<char>| #[trigger] result_text@.contains_key(k) ==> exists|m: int|
                0 <= m < judgments@.len() && #[trigger] judgments@[m].id@ == k,
            forall|k: Seq<char>| #[trigger] narrative_text@.contains_key(k) ==> exists|m: int|
                0 <= m < ch.narrative@.len() && #[trigger] ch.narrative@[m].id@ == k,
            src.modeled() ==> forall|m: int| 0 <= m < i ==> (files.contains_key(
                in_chapter(id, #[trigger] ch.narrative@[m].text@),
            ) ==> narrative_text@.contains_key(ch.narrative@[m].id@)),
            src.modeled() ==> forall|k: Seq<char>| #[trigger] narrative_text@.contains_key(k) ==> exists|m: int|
                0 <= m < i && #[trigger] ch.narrative@[m].id@ == k && files.contains_key(
                    in_chapter(id, ch.narrative@[m].text@),
                ) && narrative_text@[k]@ == files[in_chapter(id, ch.narrative@[m].text@)],
        decreases ch.narrative@.len() - i,
    {
        let n = &ch.narrative[i];
        let ghost n0 = narrative_text@;
        let path = join3(base.as_str(), "/", n.text.as_str());
        assert(path@ == in_chapter(id, ch.narrative@[i as int].text@));
        if let Some(t) = read_opt(src, path.as_str()) {
            narrative_text.insert(n.id.clone(), t);
        }
        proof {
            if src.modeled() {
                assert forall|m: int| 0 <= m < i + 1 && files.contains_key(
                    in_chapter(id, #[trigger] ch.narrative@[m].text@),
                ) implies narrative_text@.contains_key(ch.narrative@[m].id@) by {
                    if m < i && n0.contains_key(ch.narrative@[m].id@) {
                        assert(narrative_text@.contains_key(ch.narrative@[m].id@));
                    }
                }
                assert forall|k: Seq<char>| #[trigger] narrative_text@.contains_key(k) implies exists|m: int|
                    0 <= m < i + 1 && #[trigger] ch.narrative@[m].id@ == k && files.contains_key(
                        in_chapter(id, ch.narrative@[m].text@),
                    ) && narrative_text@[k]@ == files[in_chapter(id, ch.narrative@[m].text@)] by {
                    if k == ch.narrative@[i as int].id@ && narrative_text@ != n0 {
                        assert(ch.narrative@[i as int].id@ == k);
                    } else {
                        let m = choose|m: int| 0 <= m < i && #[trigger] ch.narrative@[m].id@ == k && files.contains_key(
                            in_chapter(id, ch.narrative@[m].text@),
                        ) && n0[k]@ == files[in_chapter(id, ch.narrative@[m].text@)];
                        assert(ch.narrative@[m].id@ == k);
                    }
                }
            }
        }
        i += 1;
    }
    let cc = ChapterContent {
        judgments,
        clues,
        dialogues,
        surface_text,
        shadow_text,
        intro_text,
        outro_text,
        result_text,
        narrative_text,
    };
    assert(cc.judgments@ == judgments@);
    assert(cc.result_text@ == result_text@);
    assert(cc.narrative_text@ == narrative_text@);
    Ok(cc)
}

/// Every loaded chapter has content filed under its id, and what is filed
/// under an id is keyed by a chapter of that id.
pub open spec fn chapters_filed(e: ContentEngine) -> bool {
    &&& forall|k: int| 0 <= k < e.chapters@.len() ==> #[trigger] e.content@.contains_key(e.chapters@[k].id@)
    &&& forall|key: Seq<char>| #[trigger] e.content@.contains_key(key) ==> exists|k: int|
        0 <= k < e.chapters@.len() && #[trigger] e.chapters@[k].id@ == key && content_keyed_by(e.content@[key], e.chapters@[k])
}

/// The global texts of content loaded from `files`: each text held is the
/// file at its path; each description path of a scene that names a file is
/// held; and an edge scene's exit-attempt text is held under its id when
/// its file exists, each held one being the file of such a scene.
pub open spec fn texts_read(e: ContentEngine, files: Map<Seq<char>, Seq<char>>) -> bool {
    &&& forall|p: Seq<char>| #[trigger] e.scene_text@.contains_key(p) ==> files.contains_key(p)
        && e.scene_text@[p]@ == files[p]
    &&& forall|k: int| 0 <= k < e.scenes@.len() ==> (files.contains_key(#[trigger] e.scenes@[k].description.surface@)
        ==> e.scene_text@.contains_key(e.scenes@[k].description.surface@))
    &&& forall|k: int| 0 <= k < e.scenes@.len() ==> (files.contains_key(#[trigger] e.scenes@[k].description.shadow@)
        ==> e.scene_text@.contains_key(e.scenes@[k].description.shadow@))
    &&& forall|k: int| 0 <= k < e.scenes@.len() ==> (#[trigger] e.scenes@[k].exit_attempt is Some && files.contains_key(
        e.scenes@[k].exit_attempt->0.text@,
    ) ==> e.exit_attempt_text@.contains_key(e.scenes@[k].id@))
    &&& forall|sid: Seq<char>| #[trigger] e.exit_attempt_text@.contains_key(sid) ==> exists|k: int|
        0 <= k < e.scenes@.len() && #[trigger] e.scenes@[k].id@ == sid && e.scenes@[k].exit_attempt is Some
            && files.contains_key(e.scenes@[k].exit_attempt->0.text@) && e.exit_attempt_text@[sid]@
            == files[e.scenes@[k].exit_attempt->0.text@]
}

/// Each chapter's content was read from `files` for a chapter filed under
/// its id (see [`content_read`]).
pub open spec fn contents_read(e: ContentEngine, files: Map<Seq<char>, Seq<char>>) -> bool {
    forall|key: Seq<char>| #[trigger] e.content@.contains_key(key) ==> exists|k: int|
        0 <= k < e.chapters@.len() && #[trigger] e.chapters@[k].id@ == key && content_read(
            files,
            e.content@[key],
            e.chapters@[k],
        )
}

/// The `chapter.yaml` path of chapter directory `name`.
pub open spec fn chapter_yaml(name: Seq<char>) -> Seq<char> {
    "chapters/"@ + name + "/chapter.yaml"@
}

/// A listed chapter directory that the load stops at: it holds a
/// `chapter.yaml` that is not a file, or whose text the decoder may refuse,
/// or that may decode to a chapter whose dialogue files do not all parse.
pub open spec fn chapter_refused<D: ContentDecoder>(dec: D, files: Map<Seq<char>, Seq<char>>, name: Seq<char>) -> bool {
    let p = chapter_yaml(name);
    &&& path_in(files, p)
    &&& !files.contains_key(p) || dec.may_refuse_chapter(files[p]) || exists|c: Chapter|
        #[trigger] dec.may_give_chapter(files[p], c) && !dialogues_parse(files, c.id@)
}

/// Why a load from `files` may fail: a listed scene, character or chapter
/// file it stops at. Nothing else (a missing text, a judgment or clue file
/// that does not decode) fails it.
pub open spec fn load_refused<D: ContentDecoder>(dec: D, files: Map<Seq<char>, Seq<char>>) -> bool {
    ||| exists|n: Seq<char>| #[trigger] is_child(files, "scenes"@, n) && scene_refused(dec, files, n)
    ||| exists|n: Seq<char>| #[trigger] is_child(files, "characters"@, n) && character_refused(dec, files, n)
    ||| exists|n: Seq<char>| #[trigger] is_child(files, "chapters"@, n) && chapter_refused(dec, files, n)
}

/// The children of `chapters/` among `names` that hold a `chapter.yaml`, in
/// order.
pub open spec fn chapter_dirs(files: Map<Seq<char>, Seq<char>>, names: Seq<Seq<char>>) -> Seq<Seq<char>> {
    names.filter(|n: Seq<char>| path_in(files, "chapters/"@ + n + "/chapter.yaml"@))
}

impl ContentEngine {
    /// Load all content: scenes, characters, then each chapter directory that
    /// holds a `chapter.yaml` (filed under the chapter's declared id), with
    /// every text read up front. Fails when a directory cannot be listed, a
    /// record cannot be read or decoded, or a dialogue file is malformed; a
    /// missing text never fails it (the checker reports it). Records come in
    /// the sorted order of their file names.
    pub fn load<S: DataSource, D: ContentDecoder>(src: &S, dec: &D) -> (r: Result<ContentEngine, AppError>)
        ensures
            r matches Ok(e) ==> e.wf() && chapters_filed(e),
            src.modeled() && r is Ok ==> texts_read(r->Ok_0, src.files()),
            src.modeled() && r is Ok ==> contents_read(r->Ok_0, src.files()),
            src.modeled() ==> (r is Err ==> load_refused(*dec, src.files())),
            src.modeled() && r is Ok ==> exists|names: Seq<Seq<char>>| #[trigger]
                listing(src.files(), "scenes"@, names) && r->Ok_0.scenes@.len() == yaml_names(names).len() && forall|k: int|
                    0 <= k < r->Ok_0.scenes@.len() ==> dec.may_give_scene(
                        src.files()["scenes/"@ + yaml_names(names)[k]],
                        #[trigger] r->Ok_0.scenes@[k],
                    ),
            src.modeled() && r is Ok ==> exists|names: Seq<Seq<char>>| #[trigger]
                listing(src.files(), "characters"@, names) && r->Ok_0.characters@.len() == yaml_names(names).len()
                    && forall|k: int| 0 <= k < r->Ok_0.characters@.len() ==> dec.may_give_character(
                    src.files()["characters/"@ + yaml_names(names)[k]],
                    #[trigger] r->Ok_0.characters@[k],
                ),
            src.modeled() && r is Ok ==> exists|names: Seq<Seq<char>>| #[trigger]
                listing(src.files(), "chapters"@, names) && r->Ok_0.chapters@.len() == chapter_dirs(
                src.files(),
                names,
            ).len() && forall|k: int| 0 <= k < r->Ok_0.chapters@.len() ==> dec.may_give_chapter(
                src.files()[chapter_yaml(chapter_dirs(src.files(), names)[k])],
                #[trigger] r->Ok_0.chapters@[k],
            ),
    {
        let scenes = match load_scenes(src, dec) {
            Ok(v) => v,
            Err(e) => {
                return Err(e);
            },
        };
        let characters = match load_characters(src, dec) {
            Ok(v) => v,
            Err(e) => {
                return Err(e);
            },
        };

        let ghost files = src.files();
        let mut scene_text: StrMap<String> = StrMap::new();
        let mut exit_attempt_text: StrMap<String> = StrMap::new();
        let mut i: usize = 0;
        while i < scenes.len()
            invariant
                i <= scenes@.len(),
                files == src.files(),
                src.modeled() ==> forall|p: Seq<char>| #[trigger] scene_text@.contains_key(p) ==> files.contains_key(p)
                    && scene_text@[p]@ == files[p],
                src.modeled() ==> forall|k: int| 0 <= k < i ==> (files.contains_key(
                    #[trigger] scenes@[k].description.surface@,
                ) ==> scene_text@.contains_key(scenes@[k].description.surface@)),
                src.modeled() ==> forall|k: int| 0 <= k < i ==> (files.contains_key(
                    #[trigger] scenes@[k].description.shadow@,
                ) ==> scene_text@.contains_key(scenes@[k].description.shadow@)),
                src.modeled() ==> forall|k: int| 0 <= k < i ==> (#[trigger] scenes@[k].exit_attempt is Some
                    && files.contains_key(scenes@[k].exit_attempt->0.text@) ==> exit_attempt_text@.contains_key(
                    scenes@[k].id@,
                )),
                src.modeled() ==> forall|sid: Seq<char>| #[trigger] exit_attempt_text@.contains_key(sid) ==> exists|k: int|
                    0 <= k < i && #[trigger] scenes@[k].id@ == sid && scenes@[k].exit_attempt is Some
                        && files.contains_key(scenes@[k].exit_attempt->0.text@) && exit_attempt_text@[sid]@
                        == files[scenes@[k].exit_attempt->0.text@],
            decreases scenes@.len() - i,
        {
            let s = &scenes[i];
            let ghost t0 = scene_text@;
            let ghost x0 = exit_attempt_text@;
            if !scene_text.contains_key(s.description.surface.as_str()) {
                if let Some(t) = read_opt(src, s.description.surface.as_str()) {
                    scene_text.insert(s.description.surface.clone(), t);
                }
            }
            if !scene_text.contains_key(s.description.shadow.as_str()) {
                if let Some(t) = read_opt(src, s.description.shadow.as_str()) {
                    scene_text.insert(s.description.shadow.clone(), t);
                }
            }
            if let Some(ea) = &s.exit_attempt {
                if let Some(t) = read_opt(src, ea.text.as_str()) {
                    exit_attempt_text.insert(s.id.clone(), t);
                }
            }
            proof {
                if src.modeled() {
                    assert forall|k: int| 0 <= k < i + 1 && files.contains_key(
                        #[trigger] scenes@[k].description.surface@,
                    ) implies scene_text@.contains_key(scenes@[k].description.surface@) by {
                        if k < i && t0.contains_key(scenes@[k].description.surface@) {
                            assert(scene_text@.contains_key(scenes@[k].description.surface@));
                        }
                    }
                    assert forall|k: int| 0 <= k < i + 1 && files.contains_key(
                        #[trigger] scenes@[k].description.shadow@,
                    ) implies scene_text@.contains_key(scenes@[k].description.shadow@) by {
                        if k < i && t0.contains_key(scenes@[k].description.shadow@) {
                            assert(scene_text@.contains_key(scenes@[k].description.shadow@));
                        }
                    }
                    assert forall|sid: Seq<char>| #[trigger] exit_attempt_text@.contains_key(sid) implies exists|k: int|
                        0 <= k < i + 1 && #[trigger] scenes@[k].id@ == sid && scenes@[k].exit_attempt is Some
                            && files.contains_key(scenes@[k].exit_attempt->0.text@) && exit_attempt_text@[sid]@
                            == files[scenes@[k].exit_attempt->0.text@] by {
                        if sid == scenes@[i as int].id@ && exit_attempt_text@ != x0 {
                            assert(scenes@[i as int].id@ == sid);
                        } else {
                            let k = choose|k: int| 0 <= k < i && #[trigger] scenes@[k].id@ == sid
                                && scenes@[k].exit_attempt is Some && files.contains_key(
                                scenes@[k].exit_attempt->0.text@,
                            ) && x0[sid]@ == files[scenes@[k].exit_attempt->0.text@];
                            assert(scenes@[k].id@ == sid);
                        }
                    }
                }
            }
            i += 1;
        }

        let mut chapters: Vec<Chapter> = Vec::new();
        let mut content: StrMap<ChapterContent> = StrMap::new();
        let names = src.list_dir("chapters")?;
        let ghost nv = strs(names@);
        let ghost pred = |n: Seq<char>| path_in(files, "chapters/"@ + n + "/chapter.yaml"@);
        let mut i: usize = 0;
        while i < names.len()
            invariant
                i <= names@.len(),
                files == src.files(),
                nv == strs(names@),
                pred == (|n: Seq<char>| path_in(files, "chapters/"@ + n + "/chapter.yaml"@)),
                src.modeled() ==> listing(files, "chapters"@, nv),
                src.modeled() ==> chapters@.len() == nv.take(i as int).filter(pred).len(),
                src.modeled() ==> forall|k: int| 0 <= k < chapters@.len() ==> dec.may_give_chapter(
                    files[chapter_yaml(nv.take(i as int).filter(pred)[k])],
                    #[trigger] chapters@[k],
                ),
                forall|k: int| 0 <= k < chapters@.len() ==> #[trigger] content@.contains_key(chapters@[k].id@),
                forall|key: Seq<char>| #[trigger] content@.contains_key(key) ==> exists|k: int|
                    0 <= k < chapters@.len() && #[trigger] chapters@[k].id@ == key && content_keyed_by(
                        content@[key],
                        chapters@[k],
                    ) && (src.modeled() ==> content_read(files, content@[key], chapters@[k])),
            decreases names@.len() - i,
        {
            let chap_yaml = join3("chapters/", names[i].as_str(), "/chapter.yaml");
            proof {
                assert(nv.take(i + 1) =~= nv.take(i as int).push(nv[i as int]));
                nv.take(i as int).lemma_filter_push(nv[i as int], pred);
            }
            assert(chap_yaml@ == chapter_yaml(nv[i as int]));
            proof {
                if src.modeled() {
                    assert(nv.contains(nv[i as int]));
                    assert(is_child(files, "chapters"@, nv[i as int]));
                }
            }
            if src.path_exists(chap_yaml.as_str()) {
                let text = match src.read(chap_yaml.as_str()) {
                    Ok(t) => t,
                    Err(e) => {
                        assert(src.modeled() ==> chapter_refused(*dec, files, nv[i as int]));
                        return Err(e);
                    },
                };
                let ch = match dec.chapter(text.as_str()) {
                    Ok(c) => c,
                    Err(e) => {
                        assert(src.modeled() ==> chapter_refused(*dec, files, nv[i as int]));
                        return Err(e);
                    },
                };
                let cc = match load_chapter_content(src, dec, &ch) {
                    Ok(c) => c,
                    Err(e) => {
                        proof {
                            if src.modeled() {
                                assert(dec.may_give_chapter(files[chapter_yaml(nv[i as int])], ch));
                                assert(chapter_refused(*dec, files, nv[i as int]));
                            }
                        }
                        return Err(e);
                    },
                };
                let ghost before_ch = chapters@;
                let ghost before_ct = content@;
                let ghost chv = ch;
                let ghost ccv = cc;
                content.insert(ch.id.clone(), cc);
                chapters.push(ch);
                proof {
                    assert(chapters@ == before_ch.push(chv));
                    assert(content@ == before_ct.insert(chv.id@, ccv));
                    if src.modeled() {
                        let f = nv.take(i + 1).filter(pred);
                        assert(f =~= nv.take(i as int).filter(pred).push(nv[i as int]));
                        assert forall|k: int| 0 <= k < chapters@.len() implies dec.may_give_chapter(
                            files[chapter_yaml(f[k])],
                            #[trigger] chapters@[k],
                        ) by {
                            if k < before_ch.len() {
                                assert(chapters@[k] == before_ch[k]);
                            }
                        }
                    }
                    assert forall|key: Seq<char>| #[trigger] content@.contains_key(key) implies exists|k: int|
                        0 <= k < chapters@.len() && #[trigger] chapters@[k].id@ == key && content_keyed_by(
                            content@[key],
                            chapters@[k],
                        ) && (src.modeled() ==> content_read(files, content@[key], chapters@[k])) by {
                        if key == chv.id@ {
                            assert(chapters@[before_ch.len() as int] == chv);
                        } else {
                            let k = choose|k: int| 0 <= k < before_ch.len() && #[trigger] before_ch[k].id@ == key
                                && content_keyed_by(before_ct[key], before_ch[k]) && (src.modeled() ==> content_read(
                                files,
                                before_ct[key],
                                before_ch[k],
                            ));
                            assert(chapters@[k] == before_ch[k]);
                        }
                    }
                }
            }
            i += 1;
        }
        let ghost sv = scenes@;
        let ghost cv = characters@;
        proof {
            assert(nv.take(nv.len() as int) =~= nv);
        }
        let e = ContentEngine::assemble(scenes, characters, scene_text, exit_attempt_text, chapters, content);
        assert(e.scenes@ == sv);
        assert(e.characters@ == cv);
        proof {
            if src.modeled() {
                assert(chapter_dirs(files, nv) == nv.filter(pred));
                assert(listing(src.files(), "chapters"@, nv));
            }
        }
        Ok(e)
    }
}

} // verus!
