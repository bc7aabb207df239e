//! Small maps and sets keyed by strings, kept as vectors in which no key
//! occurs twice.
use vstd::prelude::*;

verus! {

/// A map from strings to `V`.
pub struct StrMap<V> {
    entries: Vec<(String, V)>,
}

/// The keys of `es` are pairwise distinct.
pub open spec fn distinct_keys<V>(es: Seq<(String, V)>) -> bool {
    forall|i: int, j: int| 0 <= i < es.len() && 0 <= j < es.len() && i != j ==> es[i].0@ != es[j].0@
}

/// Some entry of `es` has key `k`.
pub open spec fn has_key<V>(es: Seq<(String, V)>, k: Seq<char>) -> bool {
    exists|i: int| 0 <= i < es.len() && (#[trigger] es[i]).0@ == k
}

pub open spec fn entries_map<V>(es: Seq<(String, V)>) -> Map<Seq<char>, V> {
    Map::new(
        |k: Seq<char>| has_key(es, k),
        |k: Seq<char>| es[choose|i: int| 0 <= i < es.len() && (#[trigger] es[i]).0@ == k].1,
    )
}

proof fn lemma_entries_map_at<V>(es: Seq<(String, V)>, i: int)
    requires
        distinct_keys(es),
        0 <= i < es.len(),
    ensures
        entries_map(es).contains_key(es[i].0@),
        entries_map(es)[es[i].0@] == es[i].1,
{
    let k = es[i].0@;
    assert(has_key(es, k));
    let w = choose|j: int| 0 <= j < es.len() && (#[trigger] es[j]).0@ == k;
    assert(w == i);
}

impl<V> StrMap<V> {
    #[verifier::type_invariant]
    spec fn inv(self) -> bool {
        distinct_keys(self.entries@)
    }

    pub closed spec fn view(&self) -> Map<Seq<char>, V> {
        entries_map(self.entries@)
    }

    pub fn new() -> (m: StrMap<V>)
        ensures
            m.view() == Map::<Seq<char>, V>::empty(),
    {
        let m = StrMap { entries: Vec::new() };
        assert(m.view() =~= Map::<Seq<char>, V>::empty());
        m
    }

    fn position(&self, k: &str) -> (r: Option<usize>)
        ensures
            match r {
                Some(i) => i < self.entries@.len() && self.entries@[i as int].0@ == k@,
                None => !has_key(self.entries@, k@),
            },
    {
        let mut i: usize = 0;
        while i < self.entries.len()
            invariant
                i <= self.entries@.len(),
                forall|j: int| 0 <= j < i ==> self.entries@[j].0@ != k@,
            decreases self.entries.len() - i,
        {
            if self.entries[i].0 == k.to_owned() {
                return Some(i);
            }
            i += 1;
        }
        None
    }

    pub fn get(&self, k: &str) -> (r: Option<&V>)
        ensures
            match r {
                Some(v) => self.view().contains_key(k@) && self.view()[k@] == *v,
                None => !self.view().contains_key(k@),
            },
    {
        proof { use_type_invariant(self); }
        match self.position(k) {
            Some(i) => {
                proof { lemma_entries_map_at(self.entries@, i as int); }
                Some(&self.entries[i].1)
            },
            None => None,
        }
    }

    pub fn contains(&self, k: &str) -> (r: bool)
        ensures
            r == self.view().contains_key(k@),
    {
        proof { use_type_invariant(self); }
        match self.position(k) {
            Some(i) => {
                proof { lemma_entries_map_at(self.entries@, i as int); }
                true
            },
            None => false,
        }
    }

    /// Removes `k`; reports whether it was there.
    pub fn remove(&mut self, k: &str) -> (r: bool)
        ensures
            r == old(self).view().contains_key(k@),
            final(self).view() == old(self).view().remove(k@),
    {
        proof { use_type_invariant(&*self); }
        let ghost es = self.entries@;
        match self.position(k) {
            None => {
                assert(self.view() =~= self.view().remove(k@));
                false
            },
            Some(i) => {
                proof { lemma_entries_map_at(es, i as int); }
                let mut taken: Vec<(String, V)> = Vec::new();
                std::mem::swap(&mut taken, &mut self.entries);
                taken.remove(i);
                proof { lemma_remove_entry(es, i as int); }
                self.entries = taken;
                true
            },
        }
    }

    /// Sets `k` to `v`; reports whether `k` was there before.
    pub fn insert(&mut self, k: String, v: V) -> (r: bool)
        ensures
            r == old(self).view().contains_key(k@),
            final(self).view() == old(self).view().insert(k@, v),
    {
        let had = self.remove(k.as_str());
        proof { use_type_invariant(&*self); }
        let ghost es = self.entries@;
        proof {
            assert(!has_key(es, k@)) by {
                if has_key(es, k@) {
                    let w = choose|j: int| 0 <= j < es.len() && (#[trigger] es[j]).0@ == k@;
                    lemma_entries_map_at(es, w);
                }
            }
        }
        let mut taken: Vec<(String, V)> = Vec::new();
        std::mem::swap(&mut taken, &mut self.entries);
        proof { lemma_push_entry(es, k, v); }
        taken.push((k, v));
        self.entries = taken;
        had
    }
}

proof fn lemma_remove_entry<V>(es: Seq<(String, V)>, i: int)
    requires
        distinct_keys(es),
        0 <= i < es.len(),
    ensures
        distinct_keys(es.remove(i)),
        entries_map(es.remove(i)) == entries_map(es).remove(es[i].0@),
{
    let rs = es.remove(i);
    let k = es[i].0@;
    assert forall|a: int, b: int| 0 <= a < rs.len() && 0 <= b < rs.len() && a != b implies rs[a].0@ != rs[b].0@ by {
        let a2 = if a < i { a } else { a + 1 };
        let b2 = if b < i { b } else { b + 1 };
        assert(rs[a] == es[a2]);
        assert(rs[b] == es[b2]);
    }
    assert forall|key: Seq<char>| #![auto] entries_map(rs).contains_key(key) <==> entries_map(es).remove(k).contains_key(key) by {
        if has_key(rs, key) {
            let w = choose|j: int| 0 <= j < rs.len() && (#[trigger] rs[j]).0@ == key;
            let w2 = if w < i { w } else { w + 1 };
            assert(rs[w] == es[w2]);
        }
        if has_key(es, key) && key != k {
            let w = choose|j: int| 0 <= j < es.len() && (#[trigger] es[j]).0@ == key;
            assert(w != i);
            let w2 = if w < i { w } else { w - 1 };
            assert(rs[w2] == es[w]);
        }
    }
    assert forall|key: Seq<char>| #![auto] entries_map(rs).contains_key(key) implies entries_map(rs)[key] == entries_map(es)[key] by {
        let w = choose|j: int| 0 <= j < rs.len() && (#[trigger] rs[j]).0@ == key;
        lemma_entries_map_at(rs, w);
        let w2 = if w < i { w } else { w + 1 };
        assert(rs[w] == es[w2]);
        lemma_entries_map_at(es, w2);
    }
    assert(entries_map(rs) =~= entries_map(es).remove(k));
}

proof fn lemma_push_entry<V>(es: Seq<(String, V)>, k: String, v: V)
    requires
        distinct_keys(es),
        !has_key(es, k@),
    ensures
        distinct_keys(es.push((k, v))),
        entries_map(es.push((k, v))) == entries_map(es).insert(k@, v),
{
    let ps = es.push((k, v));
    assert forall|a: int, b: int| 0 <= a < ps.len() && 0 <= b < ps.len() && a != b implies ps[a].0@ != ps[b].0@ by {
        if a < es.len() && b < es.len() {
            assert(ps[a] == es[a] && ps[b] == es[b]);
        } else if a < es.len() {
            assert(ps[a] == es[a]);
        } else if b < es.len() {
            assert(ps[b] == es[b]);
        }
    }
    assert forall|key: Seq<char>| #![auto] entries_map(ps).contains_key(key) <==> entries_map(es).insert(k@, v).contains_key(key) by {
        if has_key(es, key) {
            let w = choose|j: int| 0 <= j < es.len() && (#[trigger] es[j]).0@ == key;
            assert(ps[w] == es[w]);
        }
        if has_key(ps, key) && key != k@ {
            let w = choose|j: int| 0 <= j < ps.len() && (#[trigger] ps[j]).0@ == key;
            assert(w < es.len());
            assert(ps[w] == es[w]);
        }
        if key == k@ {
            assert(ps[es.len() as int].0@ == key);
        }
    }
    assert forall|key: Seq<char>| #![auto] entries_map(ps).contains_key(key) implies entries_map(ps)[key] == entries_map(es).insert(k@, v)[key] by {
        let w = choose|j: int| 0 <= j < ps.len() && (#[trigger] ps[j]).0@ == key;
        lemma_entries_map_at(ps, w);
        if w < es.len() {
            assert(ps[w] == es[w]);
            lemma_entries_map_at(es, w);
        }
    }
    assert(entries_map(ps) =~= entries_map(es).insert(k@, v));
}

/// A set of strings.
pub struct StrSet {
    items: StrMap<()>,
}

impl StrSet {
    pub closed spec fn view(&self) -> Set<Seq<char>> {
        self.items.view().dom()
    }

    pub fn new() -> (s: StrSet)
        ensures
            s.view() == Set::<Seq<char>>::empty(),
    {
        let s = StrSet { items: StrMap::new() };
        assert(s.view() =~= Set::<Seq<char>>::empty());
        s
    }

    pub fn contains(&self, k: &str) -> (r: bool)
        ensures
            r == self.view().contains(k@),
    {
        self.items.contains(k)
    }

    /// Adds `k`; reports whether it was new.
    pub fn insert(&mut self, k: String) -> (r: bool)
        ensures
            r == !old(self).view().contains(k@),
            final(self).view() == old(self).view().insert(k@),
    {
        let had = self.items.insert(k, ());
        assert(self.view() =~= old(self).view().insert(k@));
        !had
    }

    /// Removes `k`; reports whether it was there.
    pub fn remove(&mut self, k: &str) -> (r: bool)
        ensures
            r == old(self).view().contains(k@),
            final(self).view() == old(self).view().remove(k@),
    {
        let had = self.items.remove(k);
        assert(self.view() =~= old(self).view().remove(k@));
        had
    }
}

} // verus!
