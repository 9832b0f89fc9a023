//! Snapshot paths and references.
//!
//! A snapshot keeps the raw Markdown a player was shown, so that notes do not
//! drift when the story data changes. Snapshots live under `snapshots/` in the
//! save root, and the save records them by paths relative to that root.
//! Reading and writing the files is input/output and lives with the program;
//! what is decided here is where a snapshot goes and which ones the save still
//! refers to.

use vstd::prelude::*;

use crate::content::condition::FactSet;
use crate::save::schema::{JudgmentMade, NarrativeSeen, Save, ViewedDialogue};
use crate::strmap::StrMap;
use crate::text::{join, join3, join4, join5, owned, strs};
use crate::world::World;

verus! {

/// Snapshot store: the save root that snapshot paths are relative to.
#[derive(Debug, Clone)]
pub struct SnapshotStore {
    root: String,
}

impl SnapshotStore {
    pub closed spec fn spec_root(&self) -> Seq<char> {
        self.root@
    }

    pub fn new(root: String) -> (s: SnapshotStore)
        ensures
            s.spec_root() == root@,
    {
        SnapshotStore { root }
    }

    /// The save root.
    pub fn root(&self) -> (r: &str)
        ensures
            r@ == self.spec_root(),
    {
        self.root.as_str()
    }

    /// Full path of a snapshot: `{root}/{rel}`.
    pub fn path_of(&self, rel: &str) -> (r: String)
        ensures
            r@ == self.spec_root() + "/"@ + rel@,
    {
        join3(self.root.as_str(), "/", rel)
    }
}

/// An entry of the save that refers to a snapshot file.
pub trait SnapshotRef {
    spec fn spec_snapshot(&self) -> Seq<char>;

    fn snapshot(&self) -> (r: &str)
        ensures
            r@ == self.spec_snapshot(),
    ;
}

impl SnapshotRef for ViewedDialogue {
    open spec fn spec_snapshot(&self) -> Seq<char> {
        self.snapshot@
    }

    fn snapshot(&self) -> (r: &str) {
        self.snapshot.as_str()
    }
}

impl SnapshotRef for JudgmentMade {
    open spec fn spec_snapshot(&self) -> Seq<char> {
        self.result_snapshot@
    }

    fn snapshot(&self) -> (r: &str) {
        self.result_snapshot.as_str()
    }
}

impl SnapshotRef for NarrativeSeen {
    open spec fn spec_snapshot(&self) -> Seq<char> {
        self.snapshot@
    }

    fn snapshot(&self) -> (r: &str) {
        self.snapshot.as_str()
    }
}

/// Snapshot paths that a list of entries refers to.
pub open spec fn list_refs<T: SnapshotRef>(list: Seq<T>) -> Set<Seq<char>> {
    Set::new(|p: Seq<char>| exists|i: int| 0 <= i < list.len() && #[trigger] list[i].spec_snapshot() == p)
}

/// Snapshot paths that the lists of a per-chapter map refer to.
pub open spec fn lists_refs<T: SnapshotRef>(m: Map<Seq<char>, Vec<T>>) -> Set<Seq<char>> {
    Set::new(
        |p: Seq<char>| exists|k: Seq<char>| m.contains_key(k) && #[trigger] list_refs(m[k]@).contains(p),
    )
}

/// Snapshot paths held as the values of a per-chapter map.
pub open spec fn path_refs(m: Map<Seq<char>, String>) -> Set<Seq<char>> {
    Set::new(|p: Seq<char>| exists|k: Seq<char>| m.contains_key(k) && #[trigger] m[k]@ == p)
}

/// Every snapshot path the save refers to: dialogues, intros, outros,
/// judgments and narrative items.
pub open spec fn referenced(save: Save) -> Set<Seq<char>> {
    lists_refs(save.viewed_dialogues@).union(path_refs(save.viewed_intros@)).union(
        path_refs(save.viewed_outros@),
    ).union(lists_refs(save.judgments_made@)).union(lists_refs(save.viewed_narrative@))
}

/// Paths of the chapters `keys[..n]` in a per-chapter map.
pub open spec fn lists_refs_upto<T: SnapshotRef>(
    m: Map<Seq<char>, Vec<T>>,
    keys: Seq<Seq<char>>,
    n: int,
) -> Set<Seq<char>> {
    Set::new(
        |p: Seq<char>|
            exists|j: int|
                0 <= j < n && m.contains_key(keys[j]) && #[trigger] list_refs(m[keys[j]]@).contains(
                    p,
                ),
    )
}

fn add_list_refs<T: SnapshotRef>(set: &mut FactSet, m: &StrMap<Vec<T>>)
    ensures
        final(set)@ == old(set)@.union(lists_refs(m@)),
{
    let keys = m.keys();
    let ghost ks = strs(keys@);
    let mut ki: usize = 0;
    while ki < keys.len()
        invariant
            ks == strs(keys@),
            ki <= keys@.len(),
            forall|k: Seq<char>| #[trigger] m@.contains_key(k) <==> ks.contains(k),
            set@ == old(set)@.union(lists_refs_upto(m@, ks, ki as int)),
        decreases keys@.len() - ki,
    {
        let ghost before = set@;
        let key = keys[ki].as_str();
        assert(ks[ki as int] == key@);
        assert(m@.contains_key(key@)) by {
            assert(ks.contains(key@));
        }
        match m.get(key) {
            Some(list) => {
                let mut i: usize = 0;
                while i < list.len()
                    invariant
                        i <= list@.len(),
                        set@ == before.union(
                            Set::new(
                                |p: Seq<char>|
                                    exists|t: int| 0 <= t < i && #[trigger] list@[t].spec_snapshot() == p,
                            ),
                        ),
                    decreases list@.len() - i,
                {
                    let ghost prev = set@;
                    let path = list[i].snapshot();
                    set.insert(owned(path));
                    proof {
                        assert(set@ =~= before.union(
                            Set::new(
                                |p: Seq<char>|
                                    exists|t: int|
                                        0 <= t < i + 1 && #[trigger] list@[t].spec_snapshot() == p,
                            ),
                        )) by {
                            assert forall|p: Seq<char>|
                                (exists|t: int|
                                    0 <= t < i + 1 && #[trigger] list@[t].spec_snapshot()
                                        == p) implies set@.contains(p) by {
                                let t = choose|t: int|
                                    0 <= t < i + 1 && #[trigger] list@[t].spec_snapshot() == p;
                                if t < i {
                                    assert(prev.contains(p));
                                }
                            }
                        }
                    }
                    i += 1;
                }
                proof {
                    assert(Set::new(
                        |p: Seq<char>|
                            exists|t: int|
                                0 <= t < list@.len() && #[trigger] list@[t].spec_snapshot() == p,
                    ) =~= list_refs(m@[key@]@));
                    assert(lists_refs_upto(m@, ks, ki + 1) =~= lists_refs_upto(m@, ks, ki as int).union(
                        list_refs(m@[key@]@),
                    )) by {
                        assert forall|p: Seq<char>| #[trigger]
                            lists_refs_upto(m@, ks, ki + 1).contains(p) implies lists_refs_upto(
                            m@,
                            ks,
                            ki as int,
                        ).union(list_refs(m@[key@]@)).contains(p) by {
                            let j = choose|j: int|
                                0 <= j < ki + 1 && m@.contains_key(ks[j]) && #[trigger] list_refs(
                                    m@[ks[j]]@,
                                ).contains(p);
                            if j < ki {
                                assert(lists_refs_upto(m@, ks, ki as int).contains(p));
                            }
                        }
                        assert forall|p: Seq<char>| #[trigger]
                            list_refs(m@[key@]@).contains(p) implies lists_refs_upto(
                            m@,
                            ks,
                            ki + 1,
                        ).contains(p) by {
                            assert(m@.contains_key(ks[ki as int]));
                        }
                        assert forall|p: Seq<char>| #[trigger]
                            lists_refs_upto(m@, ks, ki as int).contains(p) implies lists_refs_upto(
                            m@,
                            ks,
                            ki + 1,
                        ).contains(p) by {
                            let j = choose|j: int|
                                0 <= j < ki && m@.contains_key(ks[j]) && #[trigger] list_refs(
                                    m@[ks[j]]@,
                                ).contains(p);
                            assert(0 <= j < ki + 1);
                        }
                    }
                }
            },
            None => {},
        }
        ki += 1;
    }
    proof {
        assert(lists_refs_upto(m@, ks, keys@.len() as int) =~= lists_refs(m@)) by {
            assert forall|p: Seq<char>| #[trigger] lists_refs(m@).contains(p) implies lists_refs_upto(
                m@,
                ks,
                keys@.len() as int,
            ).contains(p) by {
                let k = choose|k: Seq<char>| m@.contains_key(k) && #[trigger] list_refs(m@[k]@).contains(p);
                assert(ks.contains(k));
                let j = choose|j: int| 0 <= j < ks.len() && ks[j] == k;
                assert(m@.contains_key(ks[j]));
            }
            assert forall|p: Seq<char>| #[trigger]
                lists_refs_upto(m@, ks, keys@.len() as int).contains(p) implies lists_refs(m@).contains(
                p,
            ) by {
                let j = choose|j: int|
                    0 <= j < keys@.len() && m@.contains_key(ks[j]) && #[trigger] list_refs(
                        m@[ks[j]]@,
                    ).contains(p);
                assert(m@.contains_key(ks[j]));
            }
        }
    }
}

fn add_path_refs(set: &mut FactSet, m: &StrMap<String>)
    ensures
        final(set)@ == old(set)@.union(path_refs(m@)),
{
    let keys = m.keys();
    let ghost ks = strs(keys@);
    let mut ki: usize = 0;
    while ki < keys.len()
        invariant
            ks == strs(keys@),
            ki <= keys@.len(),
            forall|k: Seq<char>| #[trigger] m@.contains_key(k) <==> ks.contains(k),
            set@ == old(set)@.union(
                Set::new(
                    |p: Seq<char>|
                        exists|j: int| 0 <= j < ki && m@.contains_key(ks[j]) && #[trigger] m@[ks[j]]@ == p,
                ),
            ),
        decreases keys@.len() - ki,
    {
        let ghost prev = set@;
        let key = keys[ki].as_str();
        assert(ks[ki as int] == key@);
        assert(m@.contains_key(key@)) by {
            assert(ks.contains(key@));
        }
        match m.get(key) {
            Some(v) => {
                set.insert(owned(v.as_str()));
                proof {
                    assert forall|p: Seq<char>|
                        (exists|j: int|
                            0 <= j < ki + 1 && m@.contains_key(ks[j]) && #[trigger] m@[ks[j]]@
                                == p) implies set@.contains(p) by {
                        let j = choose|j: int|
                            0 <= j < ki + 1 && m@.contains_key(ks[j]) && #[trigger] m@[ks[j]]@ == p;
                        if j < ki {
                            assert(prev.contains(p));
                        }
                    }
                    assert forall|p: Seq<char>| set@.contains(p) implies old(set)@.union(
                        Set::new(
                            |p: Seq<char>|
                                exists|j: int|
                                    0 <= j < ki + 1 && m@.contains_key(ks[j]) && #[trigger] m@[ks[j]]@
                                        == p,
                        ),
                    ).contains(p) by {
                        if p == v@ {
                            assert(m@[ks[ki as int]]@ == p);
                        } else {
                            assert(prev.contains(p));
                            if !old(set)@.contains(p) {
                                let j = choose|j: int|
                                    0 <= j < ki && m@.contains_key(ks[j]) && #[trigger] m@[ks[j]]@ == p;
                                assert(0 <= j < ki + 1);
                            }
                        }
                    }
                    assert(set@ =~= old(set)@.union(
                        Set::new(
                            |p: Seq<char>|
                                exists|j: int|
                                    0 <= j < ki + 1 && m@.contains_key(ks[j]) && #[trigger] m@[ks[j]]@
                                        == p,
                        ),
                    ));
                }
            },
            None => {},
        }
        ki += 1;
    }
    proof {
        assert forall|p: Seq<char>| #[trigger] path_refs(m@).contains(p) implies (exists|j: int|
            0 <= j < keys@.len() && m@.contains_key(ks[j]) && #[trigger] m@[ks[j]]@ == p) by {
            let k = choose|k: Seq<char>| m@.contains_key(k) && #[trigger] m@[k]@ == p;
            assert(ks.contains(k));
            let j = choose|j: int| 0 <= j < ks.len() && ks[j] == k;
            assert(m@[ks[j]]@ == p);
        }
        assert(Set::new(
            |p: Seq<char>|
                exists|j: int|
                    0 <= j < keys@.len() && m@.contains_key(ks[j]) && #[trigger] m@[ks[j]]@ == p,
        ) =~= path_refs(m@));
    }
}

/// Every snapshot path the save refers to.
pub fn referenced_snapshot_paths(save: &Save) -> (r: FactSet)
    ensures
        r@ == referenced(*save),
{
    let mut set = FactSet::new();
    add_list_refs(&mut set, &save.viewed_dialogues);
    add_path_refs(&mut set, &save.viewed_intros);
    add_path_refs(&mut set, &save.viewed_outros);
    add_list_refs(&mut set, &save.judgments_made);
    add_list_refs(&mut set, &save.viewed_narrative);
    proof {
        assert(set@ =~= referenced(*save));
    }
    set
}

/// The snapshots among `all` that the save no longer refers to, in order:
/// what an orphan cleanup deletes.
pub fn orphan_snapshots(all: &[String], save: &Save) -> (r: Vec<String>)
    ensures
        strs(r@) == strs(all@).filter(|p: Seq<char>| !referenced(*save).contains(p)),
{
    let referenced_set = referenced_snapshot_paths(save);
    let ghost keep = |p: Seq<char>| !referenced(*save).contains(p);
    let mut out: Vec<String> = Vec::new();
    let mut i: usize = 0;
    while i < all.len()
        invariant
            i <= all@.len(),
            referenced_set@ == referenced(*save),
            keep == (|p: Seq<char>| !referenced(*save).contains(p)),
            strs(out@) == strs(all@).take(i as int).filter(keep),
        decreases all@.len() - i,
    {
        proof {
            assert(strs(all@).take(i + 1) =~= strs(all@).take(i as int).push(strs(all@)[i as int]));
            strs(all@).take(i as int).lemma_filter_push(strs(all@)[i as int], keep);
        }
        if !referenced_set.contains(all[i].as_str()) {
            out.push(owned(all[i].as_str()));
            assert(strs(out@) =~= strs(all@).take(i + 1).filter(keep));
        } else {
            assert(strs(out@) =~= strs(all@).take(i + 1).filter(keep));
        }
        i += 1;
    }
    assert(strs(all@).take(all@.len() as int) =~= strs(all@));
    out
}

/// `snapshots/{chapter}/{character}.{topic}.{world}.md`.
pub fn dialogue_snapshot_path(chapter: &str, character: &str, topic: &str, world: World) -> (r:
    String)
    ensures
        r@ == "snapshots/"@ + chapter@ + "/"@ + character@ + "."@ + topic@ + "."@
            + world.spec_as_str() + ".md"@,
{
    let mut r = join4("snapshots/", chapter, "/", character);
    r.append(".");
    r.append(topic);
    r.append(".");
    r.append(world.as_str());
    r.append(".md");
    r
}

/// `snapshots/{chapter}/intro.md`.
pub fn intro_snapshot_path(chapter: &str) -> (r: String)
    ensures
        r@ == "snapshots/"@ + chapter@ + "/intro.md"@,
{
    join3("snapshots/", chapter, "/intro.md")
}

/// `snapshots/{chapter}/outro.md`.
pub fn outro_snapshot_path(chapter: &str) -> (r: String)
    ensures
        r@ == "snapshots/"@ + chapter@ + "/outro.md"@,
{
    join3("snapshots/", chapter, "/outro.md")
}

/// `snapshots/{chapter}/{judgment_id}.md`.
pub fn judgment_snapshot_path(chapter: &str, judgment_id: &str) -> (r: String)
    ensures
        r@ == "snapshots/"@ + chapter@ + "/"@ + judgment_id@ + ".md"@,
{
    join5("snapshots/", chapter, "/", judgment_id, ".md")
}

/// `snapshots/{chapter}/narrative.{trigger_id}.md`.
pub fn narrative_snapshot_path(chapter: &str, trigger_id: &str) -> (r: String)
    ensures
        r@ == "snapshots/"@ + chapter@ + "/narrative."@ + trigger_id@ + ".md"@,
{
    join5("snapshots/", chapter, "/narrative.", trigger_id, ".md")
}

} // verus!
