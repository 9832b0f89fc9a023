//! Pure evaluation of condition expressions against a set of facts.
//!
//! Facts are the ids of collected clues, made judgments and triggered
//! narrative items. Unknown ids are simply absent, so conditions that refer
//! to deleted content degrade to false.

use vstd::prelude::*;

use crate::content::models::{Condition, Topic};
use crate::text::{owned, str_eq, strs};

verus! {

/// A set of fact ids.
#[derive(Debug, Clone)]
pub struct FactSet {
    items: Vec<String>,
}

impl View for FactSet {
    type V = Set<Seq<char>>;

    closed spec fn view(&self) -> Set<Seq<char>> {
        Set::new(|k: Seq<char>| exists|i: int| 0 <= i < self.items@.len() && self.items@[i]@ == k)
    }
}

impl FactSet {
    pub fn new() -> (f: FactSet)
        ensures
            f@ == Set::<Seq<char>>::empty(),
    {
        let f = FactSet { items: Vec::new() };
        assert(f@ =~= Set::<Seq<char>>::empty());
        f
    }

    pub fn contains(&self, id: &str) -> (r: bool)
        ensures
            r == self@.contains(id@),
    {
        let mut i: usize = 0;
        while i < self.items.len()
            invariant
                i <= self.items@.len(),
                forall|j: int| 0 <= j < i ==> self.items@[j]@ != id@,
            decreases self.items@.len() - i,
        {
            if str_eq(self.items[i].as_str(), id) {
                return true;
            }
            i += 1;
        }
        false
    }

    pub fn insert(&mut self, id: String)
        ensures
            final(self)@ == old(self)@.insert(id@),
    {
        if !self.contains(id.as_str()) {
            let ghost before = self.items@;
            self.items.push(id);
            proof {
                assert forall|k: Seq<char>| final(self)@.contains(k) == old(self)@.insert(id@).contains(k) by {
                    if old(self)@.contains(k) {
                        let i = choose|i: int| 0 <= i < before.len() && before[i]@ == k;
                        assert(self.items@[i]@ == k);
                    }
                    if k == id@ {
                        assert(self.items@[before.len() as int]@ == k);
                    }
                }
                assert(final(self)@ =~= old(self)@.insert(id@));
            }
        } else {
            assert(old(self)@.insert(id@) =~= old(self)@);
        }
    }

    /// The view is a finite set.
    pub proof fn lemma_finite(&self)
        ensures
            self@.finite(),
    {
        assert(self@ =~= strs(self.items@).to_set()) by {
            assert forall|k: Seq<char>| self@.contains(k) <==> strs(self.items@).contains(k) by {
                if self@.contains(k) {
                    let i = choose|i: int| 0 <= i < self.items@.len() && self.items@[i]@ == k;
                    assert(strs(self.items@)[i] == k);
                }
                if strs(self.items@).contains(k) {
                    let i = choose|i: int| 0 <= i < self.items@.len() && strs(self.items@)[i] == k;
                    assert(self.items@[i]@ == k);
                }
            }
        }
        vstd::seq_lib::seq_to_set_is_finite(strs(self.items@));
    }

    /// The ids, each once.
    pub fn to_vec(&self) -> (r: Vec<String>)
        ensures
            forall|k: Seq<char>| #[trigger] self@.contains(k) <==> strs(r@).contains(k),
    {
        let mut out: Vec<String> = Vec::new();
        let mut i: usize = 0;
        while i < self.items.len()
            invariant
                i <= self.items@.len(),
                strs(out@) == self.items@.take(i as int).map_values(|s: String| s@),
            decreases self.items@.len() - i,
        {
            let ghost before = strs(out@);
            out.push(owned(self.items[i].as_str()));
            assert(self.items@.take(i + 1) =~= self.items@.take(i as int).push(self.items@[i as int]));
            assert(strs(out@) =~= before.push(self.items@[i as int]@));
            i += 1;
        }
        assert(self.items@.take(self.items@.len() as int) =~= self.items@);
        assert forall|k: Seq<char>| #[trigger] self@.contains(k) <==> strs(out@).contains(k) by {
            if self@.contains(k) {
                let i = choose|i: int| 0 <= i < self.items@.len() && self.items@[i]@ == k;
                assert(strs(out@)[i] == k);
            }
            if strs(out@).contains(k) {
                let i = choose|i: int| 0 <= i < strs(out@).len() && strs(out@)[i] == k;
                assert(self.items@[i]@ == k);
            }
        }
        out
    }

    /// Add every id of `ids`.
    pub fn extend(&mut self, ids: &Vec<String>)
        ensures
            final(self)@ == old(self)@.union(Set::new(|k: Seq<char>| exists|i: int| 0 <= i < ids@.len() && ids@[i]@ == k)),
    {
        let mut i: usize = 0;
        while i < ids.len()
            invariant
                i <= ids@.len(),
                self@ == old(self)@.union(Set::new(|k: Seq<char>| exists|j: int| 0 <= j < i && ids@[j]@ == k)),
            decreases ids@.len() - i,
        {
            let ghost prev = self@;
            self.insert(ids[i].clone());
            proof {
                assert(self@ =~= old(self)@.union(Set::new(|k: Seq<char>| exists|j: int| 0 <= j < i + 1 && ids@[j]@ == k))) by {
                    assert forall|k: Seq<char>| (exists|j: int| 0 <= j < i + 1 && ids@[j]@ == k) implies self@.contains(k) by {
                        let j = choose|j: int| 0 <= j < i + 1 && ids@[j]@ == k;
                        if j < i {
                            assert(prev.contains(k));
                        }
                    }
                };
            }
            i += 1;
        }
        assert(self@ =~= old(self)@.union(Set::new(|k: Seq<char>| exists|i: int| 0 <= i < ids@.len() && ids@[i]@ == k)));
    }

    /// A fact set holding exactly the given ids.
    pub fn from_vec(ids: Vec<String>) -> (f: FactSet)
        ensures
            f@ == Set::new(|k: Seq<char>| exists|i: int| 0 <= i < ids@.len() && ids@[i]@ == k),
    {
        let f = FactSet { items: ids };
        f
    }
}

/// Every id of `ids` is a fact.
pub open spec fn all_in(ids: Seq<String>, facts: Set<Seq<char>>) -> bool {
    forall|i: int| 0 <= i < ids.len() ==> facts.contains(#[trigger] ids[i]@)
}

/// Some id of `ids` is a fact.
pub open spec fn any_in(ids: Seq<String>, facts: Set<Seq<char>>) -> bool {
    exists|i: int| 0 <= i < ids.len() && facts.contains(#[trigger] ids[i]@)
}

/// Meaning of a condition under a set of facts.
pub open spec fn spec_eval(cond: Condition, facts: Set<Seq<char>>) -> bool {
    match cond {
        Condition::Fact(id) => facts.contains(id@),
        Condition::AllOf(ids) => all_in(ids@, facts),
        Condition::AnyOf(ids) => any_in(ids@, facts),
        Condition::Not(id) => !facts.contains(id@),
    }
}

/// Whether a topic can be asked under a set of facts.
pub open spec fn spec_topic_visible(topic: Topic, facts: Set<Seq<char>>) -> bool {
    if topic.available {
        true
    } else {
        match topic.unlock_after {
            Some(c) => spec_eval(c, facts),
            None => false,
        }
    }
}

/// Evaluate a condition. An empty `all_of` holds, an empty `any_of` does not.
pub fn eval(cond: &Condition, facts: &FactSet) -> (r: bool)
    ensures
        r == spec_eval(*cond, facts@),
{
    match cond {
        Condition::Fact(id) => facts.contains(id.as_str()),
        Condition::AllOf(ids) => {
            let mut i: usize = 0;
            while i < ids.len()
                invariant
                    i <= ids@.len(),
                    *cond == Condition::AllOf(*ids),
                    forall|j: int| 0 <= j < i ==> facts@.contains(#[trigger] ids@[j]@),
                decreases ids@.len() - i,
            {
                if !facts.contains(ids[i].as_str()) {
                    assert(!facts@.contains(ids@[i as int]@));
                    return false;
                }
                i += 1;
            }
            true
        },
        Condition::AnyOf(ids) => {
            let mut i: usize = 0;
            while i < ids.len()
                invariant
                    i <= ids@.len(),
                    *cond == Condition::AnyOf(*ids),
                    forall|j: int| 0 <= j < i ==> !facts@.contains(#[trigger] ids@[j]@),
                decreases ids@.len() - i,
            {
                if facts.contains(ids[i].as_str()) {
                    assert(facts@.contains(ids@[i as int]@));
                    return true;
                }
                i += 1;
            }
            false
        },
        Condition::Not(id) => !facts.contains(id.as_str()),
    }
}

/// Whether a topic is visible: always when `available`; otherwise when its
/// `unlock_after` holds; never without one.
pub fn topic_visible(topic: &Topic, facts: &FactSet) -> (r: bool)
    ensures
        r == spec_topic_visible(*topic, facts@),
{
    if topic.available {
        true
    } else {
        match &topic.unlock_after {
            Some(c) => eval(c, facts),
            None => false,
        }
    }
}

} // verus!
