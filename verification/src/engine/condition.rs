//! Facts of the save and chapter completion.
//!
//! The facts of a save are the clues collected and judgments made in the
//! chapters of the current path, together with every narrative item ever
//! triggered: those come from the append-only `discovered.triggers`, which no
//! rollback truncates.

use vstd::prelude::*;

use crate::content::condition::{all_in, FactSet};
use crate::content::models::Chapter;
use crate::save::schema::Save;
use crate::text::strs;

verus! {

/// `f` is a clue collected or a judgment made in `chapter`.
pub open spec fn chapter_fact(save: Save, chapter: Seq<char>, f: Seq<char>) -> bool {
    save.spec_has_clue(chapter, f) || save.spec_judged(chapter, f)
}

/// Facts of the chapters `path[..n]`.
pub open spec fn path_facts(save: Save, n: int) -> Set<Seq<char>> {
    Set::new(
        |f: Seq<char>|
            exists|k: int| 0 <= k < n && #[trigger] chapter_fact(save, save.chapter_path@[k]@, f),
    )
}

/// The facts of a save.
pub open spec fn spec_factset(save: Save) -> Set<Seq<char>> {
    path_facts(save, save.chapter_path@.len() as int).union(strs(save.discovered.triggers@).to_set())
}

proof fn lemma_list_set(v: Seq<String>)
    ensures
        Set::new(|k: Seq<char>| exists|i: int| 0 <= i < v.len() && v[i]@ == k) == strs(v).to_set(),
{
    assert forall|k: Seq<char>| (exists|i: int| 0 <= i < v.len() && v[i]@ == k) <==> strs(v).to_set().contains(k) by {
        if exists|i: int| 0 <= i < v.len() && v[i]@ == k {
            let i = choose|i: int| 0 <= i < v.len() && v[i]@ == k;
            assert(strs(v)[i] == k);
        }
        if strs(v).contains(k) {
            let i = choose|i: int| 0 <= i < strs(v).len() && strs(v)[i] == k;
            assert(v[i]@ == k);
        }
    }
    assert(Set::new(|k: Seq<char>| exists|i: int| 0 <= i < v.len() && v[i]@ == k) =~= strs(v).to_set());
}

/// The facts of the save: clues and judgments of every chapter on the path,
/// and every narrative item ever triggered.
pub fn build_factset(save: &Save) -> (r: FactSet)
    ensures
        r@ == spec_factset(*save),
{
    let mut facts = FactSet::new();
    let mut i: usize = 0;
    while i < save.chapter_path.len()
        invariant
            i <= save.chapter_path@.len(),
            facts@ == path_facts(*save, i as int),
        decreases save.chapter_path@.len() - i,
    {
        let ghost before = facts@;
        let ch = save.chapter_path[i].as_str();
        let ghost chv = ch@;
        match save.collected_clues.get(ch) {
            Some(clues) => {
                facts.extend(clues);
                proof {
                    lemma_list_set(clues@);
                }
            },
            None => {},
        }
        let ghost mid = facts@;
        assert(mid == before.union(Set::new(|f: Seq<char>| save.spec_has_clue(chv, f)))) by {
            if save.collected_clues@.contains_key(chv) {
                assert(Set::new(|f: Seq<char>| save.spec_has_clue(chv, f)) =~= strs(
                    save.collected_clues@[chv]@,
                ).to_set());
            } else {
                assert(Set::new(|f: Seq<char>| save.spec_has_clue(chv, f)) =~= Set::<Seq<char>>::empty());
                assert(mid =~= before.union(Set::<Seq<char>>::empty()));
            }
        }
        match save.judgments_made.get(ch) {
            Some(js) => {
                let mut j: usize = 0;
                while j < js.len()
                    invariant
                        j <= js@.len(),
                        save.judgments_made@.contains_key(chv),
                        *js == save.judgments_made@[chv],
                        facts@ == mid.union(
                            Set::new(|f: Seq<char>| exists|t: int| 0 <= t < j && #[trigger] js@[t].judgment@ == f),
                        ),
                    decreases js@.len() - j,
                {
                    let ghost prev = facts@;
                    facts.insert(js[j].judgment.clone());
                    proof {
                        assert(facts@ =~= mid.union(
                            Set::new(|f: Seq<char>| exists|t: int| 0 <= t < j + 1 && #[trigger] js@[t].judgment@ == f),
                        )) by {
                            assert forall|f: Seq<char>| (exists|t: int| 0 <= t < j + 1 && #[trigger] js@[t].judgment@ == f) implies facts@.contains(f) by {
                                let t = choose|t: int| 0 <= t < j + 1 && #[trigger] js@[t].judgment@ == f;
                                if t < j {
                                    assert(prev.contains(f));
                                }
                            }
                        }
                    }
                    j += 1;
                }
                assert(Set::new(|f: Seq<char>| exists|t: int| 0 <= t < js@.len() && #[trigger] js@[t].judgment@ == f)
                    =~= Set::new(|f: Seq<char>| save.spec_judged(chv, f)));
            },
            None => {
                assert(Set::new(|f: Seq<char>| save.spec_judged(chv, f)) =~= Set::<Seq<char>>::empty());
                assert(facts@ =~= mid.union(Set::<Seq<char>>::empty()));
            },
        }
        proof {
            assert(facts@ =~= path_facts(*save, i + 1)) by {
                assert forall|f: Seq<char>| #[trigger] path_facts(*save, i + 1).contains(f) implies facts@.contains(f) by {
                    let k = choose|k: int| 0 <= k < i + 1 && #[trigger] chapter_fact(*save, save.chapter_path@[k]@, f);
                    if k < i {
                        assert(before.contains(f));
                    }
                }
                assert forall|f: Seq<char>| facts@.contains(f) implies #[trigger] path_facts(*save, i + 1).contains(f) by {
                    if before.contains(f) {
                        let k = choose|k: int| 0 <= k < i && #[trigger] chapter_fact(*save, save.chapter_path@[k]@, f);
                        assert(0 <= k < i + 1);
                    } else {
                        assert(chapter_fact(*save, save.chapter_path@[i as int]@, f));
                    }
                }
            }
        }
        i += 1;
    }
    facts.extend(&save.discovered.triggers);
    proof {
        lemma_list_set(save.discovered.triggers@);
    }
    facts
}

/// Whether the judgments needed are all among `judgments`: the listed ones
/// when `required` is given, else every judgment of the chapter.
pub fn required_judgments_complete(
    required: Option<&[String]>,
    judgments: &FactSet,
    all_judgment_ids: &[String],
) -> (r: bool)
    ensures
        r == match required {
            Some(req) => all_in(req@, judgments@),
            None => all_in(all_judgment_ids@, judgments@),
        },
{
    let ids = match required {
        Some(req) => req,
        None => all_judgment_ids,
    };
    let mut i: usize = 0;
    while i < ids.len()
        invariant
            i <= ids@.len(),
            ids@ == match required {
                Some(req) => req@,
                None => all_judgment_ids@,
            },
            forall|j: int| 0 <= j < i ==> judgments@.contains(#[trigger] ids@[j]@),
        decreases ids@.len() - i,
    {
        if !judgments.contains(ids[i].as_str()) {
            assert(!judgments@.contains(ids@[i as int]@));
            return false;
        }
        i += 1;
    }
    true
}

/// Whether a chapter's needed judgments are all made.
pub fn chapter_complete(chapter: &Chapter, judgments: &FactSet, all_judgment_ids: &[String]) -> (r:
    bool)
    ensures
        r == match chapter.required_judgments {
            Some(req) => all_in(req@, judgments@),
            None => all_in(all_judgment_ids@, judgments@),
        },
{
    match &chapter.required_judgments {
        Some(v) => required_judgments_complete(Some(v.as_slice()), judgments, all_judgment_ids),
        None => required_judgments_complete(None, judgments, all_judgment_ids),
    }
}

} // verus!
