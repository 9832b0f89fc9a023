//! A small map keyed by strings, kept as an ordered list of entries.
//!
//! Lookups return the value of the first entry with the key, so the map seen
//! through `@` is always a function of the keys, whatever the entry list holds.

use vstd::prelude::*;

use crate::text::{str_eq, strs};

verus! {

/// Value of the first entry at or after `i` whose key is `k`.
pub open spec fn lookup_from<T>(e: Seq<(String, T)>, k: Seq<char>, i: int) -> Option<T>
    decreases e.len() - i,
{
    if i < 0 || i >= e.len() {
        None
    } else if e[i].0@ == k {
        Some(e[i].1)
    } else {
        lookup_from(e, k, i + 1)
    }
}

pub open spec fn lookup<T>(e: Seq<(String, T)>, k: Seq<char>) -> Option<T> {
    lookup_from(e, k, 0)
}

/// The map denoted by an entry list.
pub open spec fn map_of<T>(e: Seq<(String, T)>) -> Map<Seq<char>, T> {
    Map::new(|k: Seq<char>| lookup(e, k) is Some, |k: Seq<char>| lookup(e, k)->0)
}

proof fn lemma_lookup_skip<T>(e: Seq<(String, T)>, k: Seq<char>, i: int, j: int)
    requires
        0 <= i <= j,
        forall|m: int| i <= m < j ==> e[m].0@ != k,
        j <= e.len(),
    ensures
        lookup_from(e, k, i) == lookup_from(e, k, j),
    decreases j - i,
{
    if i < j {
        lemma_lookup_skip(e, k, i + 1, j);
    }
}

proof fn lemma_lookup_first<T>(e: Seq<(String, T)>, k: Seq<char>, j: int)
    requires
        0 <= j < e.len(),
        e[j].0@ == k,
        forall|m: int| 0 <= m < j ==> e[m].0@ != k,
    ensures
        lookup(e, k) == Some(e[j].1),
{
    lemma_lookup_skip(e, k, 0, j);
}

proof fn lemma_lookup_present<T>(e: Seq<(String, T)>, k: Seq<char>, i: int, m: int)
    requires
        0 <= i <= m < e.len(),
        e[m].0@ == k,
    ensures
        lookup_from(e, k, i) is Some,
    decreases m - i,
{
    if i < m && e[i].0@ != k {
        lemma_lookup_present(e, k, i + 1, m);
    }
}

proof fn lemma_update_first<T>(e: Seq<(String, T)>, j: int)
    requires
        0 <= j < e.len(),
        forall|m: int| 0 <= m < j ==> e[m].0@ != e[j].0@,
    ensures
        forall|v: T| #[trigger] map_of(e.update(j, (e[j].0, v))) == map_of(e).insert(e[j].0@, v),
{
    assert forall|v: T| #[trigger] map_of(e.update(j, (e[j].0, v))) == map_of(e).insert(e[j].0@, v) by {
        assert forall|q: Seq<char>| #![auto] lookup(e.update(j, (e[j].0, v)), q) == if q == e[j].0@ {
            Some(v)
        } else {
            lookup(e, q)
        } by {
            lemma_lookup_update(e, j, v, q, 0);
        }
        assert(map_of(e.update(j, (e[j].0, v))) =~= map_of(e).insert(e[j].0@, v));
    }
}

proof fn lemma_push_new<T>(e: Seq<(String, T)>, x: (String, T))
    requires
        forall|m: int| 0 <= m < e.len() ==> e[m].0@ != x.0@,
    ensures
        map_of(e.push(x)) == map_of(e).insert(x.0@, x.1),
{
    assert forall|q: Seq<char>| #![auto] lookup(e.push(x), q) == if q == x.0@ {
        Some(x.1)
    } else {
        lookup(e, q)
    } by {
        lemma_lookup_push(e, x, q, 0);
        if q == x.0@ {
            lemma_lookup_absent(e, q, 0);
        }
    }
    assert(map_of(e.push(x)) =~= map_of(e).insert(x.0@, x.1));
}

proof fn lemma_lookup_push<T>(e: Seq<(String, T)>, x: (String, T), k: Seq<char>, i: int)
    requires
        0 <= i <= e.len(),
    ensures
        lookup_from(e.push(x), k, i) == match lookup_from(e, k, i) {
            Some(v) => Some(v),
            None => if x.0@ == k {
                Some(x.1)
            } else {
                None
            },
        },
    decreases e.len() - i,
{
    assert(e.push(x).len() == e.len() + 1);
    if i < e.len() {
        assert(e.push(x)[i] == e[i]);
        lemma_lookup_push(e, x, k, i + 1);
    } else {
        assert(e.push(x)[i] == x);
        assert(lookup_from(e.push(x), k, i + 1) is None);
    }
}

proof fn lemma_lookup_update<T>(e: Seq<(String, T)>, j: int, v: T, k: Seq<char>, i: int)
    requires
        0 <= i <= j < e.len(),
        forall|m: int| i <= m < j ==> e[m].0@ != e[j].0@,
    ensures
        lookup_from(e.update(j, (e[j].0, v)), k, i) == if k == e[j].0@ {
            Some(v)
        } else {
            lookup_from(e, k, i)
        },
    decreases e.len() - i,
{
    if i < j {
        lemma_lookup_update(e, j, v, k, i + 1);
    } else {
        lemma_lookup_same_tail(e, e.update(j, (e[j].0, v)), k, i + 1);
    }
}

proof fn lemma_lookup_same_tail<T>(a: Seq<(String, T)>, b: Seq<(String, T)>, k: Seq<char>, i: int)
    requires
        a.len() == b.len(),
        i >= 0,
        forall|m: int| i <= m < a.len() ==> a[m] == b[m],
    ensures
        lookup_from(a, k, i) == lookup_from(b, k, i),
    decreases a.len() - i,
{
    if i < a.len() {
        lemma_lookup_same_tail(a, b, k, i + 1);
    }
}

proof fn lemma_lookup_remove<T>(e: Seq<(String, T)>, j: int, k: Seq<char>, i: int)
    requires
        0 <= i <= j < e.len(),
        e[j].0@ != k,
    ensures
        lookup_from(e.remove(j), k, i) == lookup_from(e, k, i),
    decreases e.len() - i,
{
    if i < j {
        lemma_lookup_remove(e, j, k, i + 1);
    } else {
        // from j on, e.remove(j) is e shifted by one, and e[j] does not match k
        lemma_lookup_shift(e, j, k, j);
    }
}

proof fn lemma_lookup_shift<T>(e: Seq<(String, T)>, j: int, k: Seq<char>, i: int)
    requires
        0 <= j <= i < e.len(),
        e[j].0@ != k || i > j,
        i == j ==> e[j].0@ != k,
    ensures
        lookup_from(e.remove(j), k, i) == lookup_from(e, k, i + 1),
    decreases e.len() - i,
{
    if i + 1 < e.len() {
        lemma_lookup_shift(e, j, k, i + 1);
    }
}

proof fn lemma_lookup_absent<T>(e: Seq<(String, T)>, k: Seq<char>, i: int)
    requires
        i >= 0,
        forall|m: int| i <= m < e.len() ==> e[m].0@ != k,
    ensures
        lookup_from(e, k, i) is None,
    decreases e.len() - i,
{
    if i < e.len() {
        lemma_lookup_absent(e, k, i + 1);
    }
}

proof fn lemma_lookup_found<T>(e: Seq<(String, T)>, k: Seq<char>, i: int) -> (j: int)
    requires
        i >= 0,
        lookup_from(e, k, i) is Some,
    ensures
        i <= j < e.len(),
        e[j].0@ == k,
        lookup_from(e, k, i) == Some(e[j].1),
        forall|m: int| i <= m < j ==> e[m].0@ != k,
    decreases e.len() - i,
{
    if e[i].0@ == k {
        i
    } else {
        lemma_lookup_found(e, k, i + 1)
    }
}

/// String-keyed map; the view is the map from each key to the value of its
/// first entry.
#[derive(Debug, Clone)]
pub struct StrMap<T> {
    entries: Vec<(String, T)>,
}

impl<T> View for StrMap<T> {
    type V = Map<Seq<char>, T>;

    closed spec fn view(&self) -> Map<Seq<char>, T> {
        map_of(self.entries@)
    }
}

impl<T> StrMap<T> {
    /// Number of stored entries.
    pub closed spec fn spec_len(&self) -> nat {
        self.entries@.len()
    }

    /// Key of the `i`-th stored entry.
    pub closed spec fn key_at(&self, i: int) -> Seq<char> {
        self.entries@[i].0@
    }

    /// Value of the `i`-th stored entry.
    pub closed spec fn val_at(&self, i: int) -> T {
        self.entries@[i].1
    }

    /// Every stored entry's key is in the map, and every key of the map is
    /// stored in some entry together with its value.
    pub proof fn lemma_entries(&self)
        ensures
            forall|i: int|
                0 <= i < self.spec_len() ==> self@.contains_key(#[trigger] self.key_at(i)),
            forall|k: Seq<char>| #[trigger]
                self@.contains_key(k) ==> exists|i: int|
                    0 <= i < self.spec_len() && self.key_at(i) == k && self.val_at(i) == self@[k],
    {
        assert forall|i: int| 0 <= i < self.spec_len() implies self@.contains_key(
            #[trigger] self.key_at(i),
        ) by {
            lemma_lookup_present(self.entries@, self.key_at(i), 0, i);
        }
        assert forall|k: Seq<char>| #[trigger] self@.contains_key(k) implies exists|i: int|
            0 <= i < self.spec_len() && self.key_at(i) == k && self.val_at(i) == self@[k] by {
            let j = lemma_lookup_found(self.entries@, k, 0);
            assert(self.key_at(j) == k && self.val_at(j) == self@[k]);
        }
    }

    /// A map with the same keys whose values are what `f` gives for the
    /// values of this one.
    pub fn copy_with<F: Fn(&T) -> T>(&self, f: F) -> (r: StrMap<T>)
        requires
            forall|v: &T| #[trigger] f.requires((v,)),
        ensures
            r@.dom() == self@.dom(),
            forall|k: Seq<char>| #[trigger] self@.contains_key(k) ==> f.ensures((&self@[k],), r@[k]),
    {
        let ks = self.keys();
        let ghost kv = strs(ks@);
        let mut r: StrMap<T> = StrMap::new();
        let mut i: usize = 0;
        while i < ks.len()
            invariant
                i <= ks@.len(),
                kv == strs(ks@),
                kv.no_duplicates(),
                forall|k: Seq<char>| #[trigger] self@.contains_key(k) <==> kv.contains(k),
                forall|v: &T| #[trigger] f.requires((v,)),
                forall|k: Seq<char>| #[trigger] r@.contains_key(k) <==> kv.take(i as int).contains(k),
                forall|k: Seq<char>| #[trigger] r@.contains_key(k) ==> f.ensures((&self@[k],), r@[k]),
            decreases ks@.len() - i,
        {
            let key = &ks[i];
            assert(kv.contains(kv[i as int]));
            let v = match self.get(key.as_str()) {
                Some(v) => v,
                None => {
                    assert(false);
                    return r;
                },
            };
            let nv = f(v);
            let ghost r0 = r@;
            r.insert(key.clone(), nv);
            proof {
                assert(kv.take(i + 1) =~= kv.take(i as int).push(kv[i as int]));
                assert forall|k: Seq<char>| #[trigger] r@.contains_key(k) implies f.ensures((&self@[k],), r@[k]) by {
                    if k != kv[i as int] {
                        assert(r0.contains_key(k));
                    }
                }
                assert forall|k: Seq<char>| #[trigger] r@.contains_key(k) <==> kv.take(i + 1).contains(k) by {
                    if kv.take(i + 1).contains(k) && k != kv[i as int] {
                        let m = choose|m: int| 0 <= m < i + 1 && #[trigger] kv.take(i + 1)[m] == k;
                        assert(kv.take(i as int)[m] == k);
                    }
                    if k == kv[i as int] {
                        assert(kv.take(i + 1)[i as int] == k);
                    } else if r0.contains_key(k) {
                        let m = choose|m: int| 0 <= m < i && #[trigger] kv.take(i as int)[m] == k;
                        assert(kv.take(i + 1)[m] == k);
                    }
                }
            }
            i += 1;
        }
        proof {
            assert(kv.take(kv.len() as int) =~= kv);
            assert(r@.dom() =~= self@.dom());
        }
        r
    }

    /// The keys of the map, each once, in the order they were first stored.
    pub fn keys(&self) -> (r: Vec<String>)
        ensures
            forall|k: Seq<char>| #[trigger] self@.contains_key(k) <==> strs(r@).contains(k),
            strs(r@).no_duplicates(),
    {
        let mut r: Vec<String> = Vec::new();
        let mut i: usize = 0;
        while i < self.entries.len()
            invariant
                i <= self.entries@.len(),
                forall|q: Seq<char>| #![trigger strs(r@).contains(q)]
                    strs(r@).contains(q) <==> exists|m: int|
                        0 <= m < i && #[trigger] self.entries@[m].0@ == q,
                strs(r@).no_duplicates(),
            decreases self.entries@.len() - i,
        {
            let ghost ks = strs(r@);
            let mut seen = false;
            let mut j: usize = 0;
            while j < i
                invariant
                    j <= i < self.entries@.len(),
                    seen == exists|m: int| 0 <= m < j && #[trigger] self.entries@[m].0@ == self.entries@[i as int].0@,
                decreases i - j,
            {
                if str_eq(self.entries[j].0.as_str(), self.entries[i].0.as_str()) {
                    seen = true;
                }
                j += 1;
            }
            if !seen {
                let ghost key = self.entries@[i as int].0@;
                assert(!ks.contains(key));
                r.push(String::from_str(self.entries[i].0.as_str()));
                proof {
                    let ks2 = strs(r@);
                    assert(ks2 =~= ks.push(key));
                    assert forall|q: Seq<char>| ks2.contains(q) <==> exists|m: int|
                        0 <= m < i + 1 && #[trigger] self.entries@[m].0@ == q by {
                        if ks2.contains(q) {
                            let t = choose|t: int| 0 <= t < ks2.len() && ks2[t] == q;
                            if t < ks.len() {
                                assert(ks.contains(q));
                            } else {
                                assert(self.entries@[i as int].0@ == q);
                            }
                        }
                        if exists|m: int| 0 <= m < i + 1 && #[trigger] self.entries@[m].0@ == q {
                            let m = choose|m: int| 0 <= m < i + 1 && #[trigger] self.entries@[m].0@ == q;
                            if m < i {
                                assert(ks.contains(q));
                                let t = choose|t: int| 0 <= t < ks.len() && ks[t] == q;
                                assert(ks2[t] == q);
                            } else {
                                assert(ks2[ks.len() as int] == q);
                            }
                        }
                    }
                    assert forall|a: int, b: int| 0 <= a < ks2.len() && 0 <= b < ks2.len() && a != b implies ks2[a] != ks2[b] by {
                        if a < ks.len() && b < ks.len() {
                            assert(ks[a] != ks[b]);
                        } else if a < ks.len() {
                            assert(ks.contains(ks2[a]));
                        } else {
                            assert(ks.contains(ks2[b]));
                        }
                    }
                }
            } else {
                proof {
                    let m0 = choose|m: int| 0 <= m < i && #[trigger] self.entries@[m].0@ == self.entries@[i as int].0@;
                    assert forall|q: Seq<char>| ks.contains(q) <==> exists|m: int|
                        0 <= m < i + 1 && #[trigger] self.entries@[m].0@ == q by {
                        if exists|m: int| 0 <= m < i + 1 && #[trigger] self.entries@[m].0@ == q {
                            let m = choose|m: int| 0 <= m < i + 1 && #[trigger] self.entries@[m].0@ == q;
                            if m == i {
                                assert(self.entries@[m0].0@ == q);
                            }
                        }
                    }
                }
            }
            i += 1;
        }
        proof {
            let ks = strs(r@);
            assert forall|k: Seq<char>| #[trigger] self@.contains_key(k) <==> ks.contains(k) by {
                if self@.contains_key(k) {
                    let j = lemma_lookup_found(self.entries@, k, 0);
                    assert(self.entries@[j].0@ == k);
                }
                if ks.contains(k) {
                    let m = choose|m: int| 0 <= m < self.entries@.len() && #[trigger] self.entries@[m].0@ == k;
                    lemma_lookup_present(self.entries@, k, 0, m);
                }
            }
        }
        r
    }

    pub fn new() -> (m: Self)
        ensures
            m@ == Map::<Seq<char>, T>::empty(),
            m.spec_len() == 0,
    {
        let m = StrMap { entries: Vec::new() };
        assert(m@ =~= Map::<Seq<char>, T>::empty());
        m
    }

    pub fn len(&self) -> (n: usize)
        ensures
            n == self.spec_len(),
    {
        self.entries.len()
    }

    /// The `i`-th stored entry.
    pub fn entry(&self, i: usize) -> (r: (&String, &T))
        requires
            i < self.spec_len(),
        ensures
            r.0@ == self.key_at(i as int),
            *r.1 == self.val_at(i as int),
    {
        let e = &self.entries[i];
        (&e.0, &e.1)
    }

    fn find(&self, k: &str) -> (r: Option<usize>)
        ensures
            r matches Some(j) ==> j < self.entries@.len() && self.entries@[j as int].0@ == k@
                && forall|m: int| 0 <= m < j ==> self.entries@[m].0@ != k@,
            r is None ==> forall|m: int|
                0 <= m < self.entries@.len() ==> self.entries@[m].0@ != k@,
    {
        let mut i: usize = 0;
        while i < self.entries.len()
            invariant
                i <= self.entries@.len(),
                forall|m: int| 0 <= m < i ==> self.entries@[m].0@ != k@,
            decreases self.entries@.len() - i,
        {
            if str_eq(self.entries[i].0.as_str(), k) {
                return Some(i);
            }
            i += 1;
        }
        None
    }

    pub fn get(&self, k: &str) -> (r: Option<&T>)
        ensures
            r is Some <==> self@.contains_key(k@),
            r matches Some(v) ==> *v == self@[k@],
    {
        match self.find(k) {
            Some(j) => {
                proof {
                    lemma_lookup_first(self.entries@, k@, j as int);
                }
                Some(&self.entries[j].1)
            },
            None => {
                proof {
                    lemma_lookup_absent(self.entries@, k@, 0);
                }
                None
            },
        }
    }

    pub fn contains_key(&self, k: &str) -> (r: bool)
        ensures
            r == self@.contains_key(k@),
    {
        self.get(k).is_some()
    }

    /// Set `k` to `v`.
    pub fn insert(&mut self, k: String, v: T)
        ensures
            final(self)@ == old(self)@.insert(k@, v),
    {
        match self.find(k.as_str()) {
            Some(j) => {
                let ghost e = self.entries@;
                proof {
                    lemma_update_first(e, j as int);
                }
                let slot = &mut self.entries[j];
                slot.1 = v;
                proof {
                    assert(self.entries@ == e.update(j as int, (e[j as int].0, v)));
                }
            },
            None => {
                let ghost e = self.entries@;
                let ghost kv = k@;
                self.entries.push((k, v));
                proof {
                    lemma_push_new(e, self.entries@.last());
                    assert(self.entries@ == e.push(self.entries@.last()));
                }
            },
        }
    }

    /// Remove `k`.
    pub fn remove(&mut self, k: &str)
        ensures
            final(self)@ == old(self)@.remove(k@),
    {
        let ghost orig = self.entries@;
        let mut j: usize = self.entries.len();
        while j > 0
            invariant
                j <= self.entries@.len(),
                forall|m: int| j <= m < self.entries@.len() ==> self.entries@[m].0@ != k@,
                forall|q: Seq<char>|
                    q != k@ ==> #[trigger] lookup(self.entries@, q) == lookup(orig, q),
            decreases j,
        {
            j -= 1;
            if str_eq(self.entries[j].0.as_str(), k) {
                let ghost before = self.entries@;
                assert(before[j as int].0@ == k@);
                let _ = self.entries.remove(j);
                proof {
                    assert(self.entries@ == before.remove(j as int));
                    assert forall|q: Seq<char>| q != k@ implies #[trigger] lookup(self.entries@, q)
                        == lookup(orig, q) by {
                        lemma_lookup_remove(before, j as int, q, 0);
                        assert(lookup(before, q) == lookup(orig, q));
                    }
                }
            }
        }
        proof {
            lemma_lookup_absent(self.entries@, k@, 0);
            assert(self@ =~= old(self)@.remove(k@));
        }
    }

    /// Mutable access to the value of `k`, inserting `init` first when absent.
    pub fn get_or_insert_mut(&mut self, k: &str, init: T) -> (r: &mut T)
        ensures
            *r == (if old(self)@.contains_key(k@) {
                old(self)@[k@]
            } else {
                init
            }),
            final(self)@ == old(self)@.insert(k@, *final(r)),
    {
        let j = match self.find(k) {
            Some(j) => {
                proof {
                    lemma_lookup_first(self.entries@, k@, j as int);
                }
                j
            },
            None => {
                let ghost e = self.entries@;
                proof {
                    lemma_lookup_absent(e, k@, 0);
                }
                self.entries.push((String::from_str(k), init));
                proof {
                    assert(self.entries@ == e.push(self.entries@.last()));
                    lemma_push_new(e, self.entries@.last());
                }
                self.entries.len() - 1
            },
        };
        let ghost e = self.entries@;
        proof {
            assert(forall|m: int| 0 <= m < j ==> e[m].0@ != k@);
            lemma_update_first(e, j as int);
        }
        &mut self.entries[j].1
    }
}

} // verus!
