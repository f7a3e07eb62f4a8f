//! A map from strings to values, kept as a list of entries sorted by key in
//! the order of `String`: the form in which the library holds the keyed
//! tables of the project files.
use vstd::prelude::*;
use crate::text::{contains_str, views, lex_lt, str_eq, str_lt, lemma_lex_irreflexive, lemma_lex_transitive, lemma_lex_total};

verus! {

pub struct StrMap<V> {
    entries: Vec<(String, V)>,
}

pub open spec fn raw_entries<V>(v: Seq<(String, V)>) -> Seq<(Seq<char>, V)> {
    v.map_values(|e: (String, V)| (e.0@, e.1))
}

pub open spec fn sorted_keys(keys: Seq<Seq<char>>) -> bool {
    forall|i: int, j: int| 0 <= i < j < keys.len() ==> lex_lt(#[trigger] keys[i], #[trigger] keys[j])
}

pub proof fn lemma_sorted_unique(keys: Seq<Seq<char>>, i: int, j: int)
    requires
        sorted_keys(keys),
        0 <= i < keys.len(),
        0 <= j < keys.len(),
        keys[i] == keys[j],
    ensures
        i == j,
{
    if i < j {
        lemma_lex_irreflexive(keys[i]);
    } else if j < i {
        lemma_lex_irreflexive(keys[i]);
    }
}

impl<V> StrMap<V> {
    /// The entries, in order, each key taken by its characters.
    pub closed spec fn entries(self) -> Seq<(Seq<char>, V)> {
        raw_entries(self.entries@)
    }

    pub open spec fn keys(self) -> Seq<Seq<char>> {
        self.entries().map_values(|e: (Seq<char>, V)| e.0)
    }

    pub open spec fn len_spec(self) -> nat {
        self.entries().len()
    }

    /// Keys strictly increasing; so no key occurs twice.
    pub open spec fn wf(self) -> bool {
        sorted_keys(self.keys())
    }

    pub open spec fn contains(self, k: Seq<char>) -> bool {
        self.keys().contains(k)
    }

    /// The position of key `k`, when it is present.
    pub open spec fn index_of(self, k: Seq<char>) -> int {
        choose|i: int| 0 <= i < self.keys().len() && self.keys()[i] == k
    }

    /// The value under key `k`, when it is present.
    pub open spec fn get_spec(self, k: Seq<char>) -> Option<V> {
        if self.contains(k) {
            Some(self.entries()[self.index_of(k)].1)
        } else {
            None
        }
    }

    pub proof fn lemma_index_of(self, i: int)
        requires
            self.wf(),
            0 <= i < self.len_spec(),
        ensures
            self.contains(self.keys()[i]),
            self.index_of(self.keys()[i]) == i,
            self.get_spec(self.keys()[i]) == Some(self.entries()[i].1),
    {
        let k = self.keys()[i];
        assert(self.keys()[i] == k);
        let j = self.index_of(k);
        lemma_sorted_unique(self.keys(), i, j);
    }

    pub fn new() -> (m: Self)
        ensures
            m.wf(),
            m.entries() == Seq::<(Seq<char>, V)>::empty(),
    {
        let m = StrMap { entries: Vec::new() };
        assert(m.entries() =~= Seq::<(Seq<char>, V)>::empty());
        m
    }

    pub fn len(&self) -> (n: usize)
        ensures
            n == self.len_spec(),
    {
        self.entries.len()
    }

    pub fn key_at(&self, i: usize) -> (k: &String)
        requires
            i < self.len_spec(),
        ensures
            k@ == self.keys()[i as int],
    {
        &self.entries[i].0
    }

    pub fn value_at(&self, i: usize) -> (v: &V)
        requires
            i < self.len_spec(),
        ensures
            *v == self.entries()[i as int].1,
    {
        &self.entries[i].1
    }

    /// Where key `k` stands, if it is present.
    pub fn find(&self, k: &str) -> (r: Option<usize>)
        requires
            self.wf(),
        ensures
            r matches Some(i) ==> i < self.len_spec() && self.keys()[i as int] == k@ && self.index_of(k@) == i,
            r is None <==> !self.contains(k@),
    {
        for i in 0..self.entries.len()
            invariant
                self.wf(),
                forall|j: int| 0 <= j < i ==> self.keys()[j] != k@,
        {
            if str_eq(self.entries[i].0.as_str(), k) {
                proof { self.lemma_index_of(i as int); }
                return Some(i);
            }
        }
        None
    }

    pub fn contains_key(&self, k: &str) -> (b: bool)
        requires
            self.wf(),
        ensures
            b == self.contains(k@),
    {
        self.find(k).is_some()
    }

    pub fn get(&self, k: &str) -> (r: Option<&V>)
        requires
            self.wf(),
        ensures
            r matches Some(v) ==> self.get_spec(k@) == Some(*v),
            r is None <==> self.get_spec(k@) is None,
    {
        match self.find(k) {
            Some(i) => Some(&self.entries[i].1),
            None => None,
        }
    }

    /// Sets the value under `k`, adding the key in its place if it is new.
    pub fn insert(&mut self, k: String, v: V)
        requires
            old(self).wf(),
        ensures
            final(self).wf(),
            final(self).get_spec(k@) == Some(v),
            forall|j: Seq<char>| j != k@ ==> final(self).get_spec(j) == old(self).get_spec(j),
            final(self).keys().to_set() == old(self).keys().to_set().insert(k@),
            old(self).contains(k@) ==> final(self).entries() == old(self).entries().update(
                old(self).index_of(k@), (k@, v)),
            !old(self).contains(k@) ==> exists|p: int| 0 <= p <= old(self).len_spec()
                && final(self).entries() == old(self).entries().insert(p, (k@, v)),
    {
        let ghost old_keys = self.keys();
        let mut pos: usize = 0;
        while pos < self.entries.len() && str_lt(self.entries[pos].0.as_str(), k.as_str())
            invariant
                self.wf(),
                self.keys() == old_keys,
                pos <= self.len_spec(),
                forall|j: int| 0 <= j < pos ==> lex_lt(#[trigger] old_keys[j], k@),
            decreases self.len_spec() - pos,
        {
            pos = pos + 1;
        }
        let ghost old_self = *self;
        if pos < self.entries.len() && str_eq(self.entries[pos].0.as_str(), k.as_str()) {
            proof {
                old_self.lemma_index_of(pos as int);
            }
            let ghost ks = k@;
            self.entries.set(pos, (k, v));
            assert(self.entries() =~= old_self.entries().update(pos as int, (ks, v)));
            assert(self.keys() =~= old_keys);
            proof {
                self.lemma_index_of(pos as int);
                assert forall|j: Seq<char>| j != ks implies self.get_spec(j) == old_self.get_spec(j) by {
                    if old_self.contains(j) {
                        let t = old_self.index_of(j);
                        old_self.lemma_index_of(t);
                        self.lemma_index_of(t);
                    }
                }
                assert(self.keys().to_set() =~= old_keys.to_set().insert(ks));
            }
        } else {
            let ghost ks = k@;
            proof {
                if pos < old_keys.len() {
                    lemma_lex_total(old_keys[pos as int], ks);
                }
                assert forall|j: int| pos <= j < old_keys.len() implies lex_lt(ks, #[trigger] old_keys[j]) by {
                    if j > pos {
                        lemma_lex_transitive(ks, old_keys[pos as int], old_keys[j]);
                    }
                }
                assert(!old_self.contains(ks)) by {
                    if old_self.contains(ks) {
                        let t = choose|t: int| 0 <= t < old_keys.len() && old_keys[t] == ks;
                        if t < pos {
                            lemma_lex_irreflexive(ks);
                        } else {
                            lemma_lex_irreflexive(ks);
                        }
                    }
                }
            }
            self.entries.insert(pos, (k, v));
            assert(self.entries() =~= old_self.entries().insert(pos as int, (ks, v)));
            assert(self.keys() =~= old_keys.insert(pos as int, ks));
            proof {
                assert forall|i: int, j: int| 0 <= i < j < self.keys().len() implies lex_lt(
                    #[trigger] self.keys()[i], #[trigger] self.keys()[j]) by {
                    if j < pos {
                    } else if j == pos {
                    } else if i < pos {
                        lemma_lex_transitive(self.keys()[i], ks, self.keys()[j]);
                    } else if i == pos {
                    } else {
                    }
                }
                self.lemma_index_of(pos as int);
                assert forall|j: Seq<char>| j != ks implies self.get_spec(j) == old_self.get_spec(j) by {
                    if old_self.contains(j) {
                        let t = old_self.index_of(j);
                        old_self.lemma_index_of(t);
                        if t < pos {
                            self.lemma_index_of(t);
                        } else {
                            self.lemma_index_of(t + 1);
                        }
                    } else if self.contains(j) {
                        let t = choose|t: int| 0 <= t < self.keys().len() && self.keys()[t] == j;
                        if t < pos {
                            assert(old_keys[t] == j);
                        } else if t > pos {
                            assert(old_keys[t - 1] == j);
                        }
                    }
                }
                assert forall|x: Seq<char>| self.keys().contains(x) <==> (old_keys.contains(x) || x == ks) by {
                    if self.keys().contains(x) {
                        let t = choose|t: int| 0 <= t < self.keys().len() && self.keys()[t] == x;
                        if t < pos {
                            assert(old_keys[t] == x);
                        } else if t > pos {
                            assert(old_keys[t - 1] == x);
                        }
                    }
                    if old_keys.contains(x) {
                        let t = choose|t: int| 0 <= t < old_keys.len() && old_keys[t] == x;
                        if t < pos {
                            assert(self.keys()[t] == x);
                        } else {
                            assert(self.keys()[t + 1] == x);
                        }
                    }
                    if x == ks {
                        assert(self.keys()[pos as int] == x);
                    }
                }
                assert(self.keys().to_set() =~= old_keys.to_set().insert(ks));
            }
        }
    }

    /// Removes the entry at position `i`, returning its key and value.
    pub fn remove_at(&mut self, i: usize) -> (r: (String, V))
        requires
            old(self).wf(),
            i < old(self).len_spec(),
        ensures
            final(self).wf(),
            final(self).entries() == old(self).entries().remove(i as int),
            (r.0@, r.1) == old(self).entries()[i as int],
    {
        let ghost old_self = *self;
        let r = self.entries.remove(i);
        assert(self.entries() =~= old_self.entries().remove(i as int));
        assert(self.keys() =~= old_self.keys().remove(i as int));
        proof {
            assert forall|a: int, b: int| 0 <= a < b < self.keys().len() implies lex_lt(
                #[trigger] self.keys()[a], #[trigger] self.keys()[b]) by {
                let a2 = if a < i { a } else { a + 1 };
                let b2 = if b < i { b } else { b + 1 };
                assert(old_self.keys()[a2] == self.keys()[a]);
                assert(old_self.keys()[b2] == self.keys()[b]);
            }
        }
        r
    }

    /// Removes key `k`, returning its value if it was present.
    pub fn remove(&mut self, k: &str) -> (r: Option<V>)
        requires
            old(self).wf(),
        ensures
            final(self).wf(),
            r == old(self).get_spec(k@),
            old(self).contains(k@) ==> final(self).entries() == old(self).entries().remove(
                old(self).index_of(k@)),
            !old(self).contains(k@) ==> final(self).entries() == old(self).entries(),
    {
        match self.find(k) {
            Some(i) => {
                proof { self.lemma_index_of(i as int); }
                let (_, v) = self.remove_at(i);
                Some(v)
            },
            None => None,
        }
    }

    /// The keys, in order.
    pub fn key_list(&self) -> (ks: Vec<String>)
        ensures
            views(ks@) == self.keys(),
    {
        let mut ks: Vec<String> = Vec::new();
        for i in 0..self.entries.len()
            invariant
                ks@.len() == i,
                views(ks@) == self.keys().take(i as int),
        {
            let k = self.entries[i].0.clone();
            assert(k@ == self.keys()[i as int]);
            let ghost prev = ks@;
            ks.push(k);
            assert forall|j: int| 0 <= j < i + 1 implies #[trigger] views(ks@)[j]
                == self.keys().take(i + 1)[j] by {
                if j < i {
                    assert(ks@[j] == prev[j]);
                    assert(views(prev)[j] == self.keys().take(i as int)[j]);
                }
            }
            assert(views(ks@) =~= self.keys().take(i + 1));
        }
        assert(self.keys().take(self.len_spec() as int) =~= self.keys());
        ks
    }

    /// Keeps the entries whose key is in `keep`, in order, and returns the
    /// keys of the others, in order.
    pub fn retain_keys(&mut self, keep: &Vec<String>) -> (removed: Vec<String>)
        requires
            old(self).wf(),
        ensures
            final(self).wf(),
            final(self).entries() == old(self).entries().filter(
                |p: (Seq<char>, V)| views(keep@).contains(p.0)),
            views(removed@) == old(self).entries().filter(
                |p: (Seq<char>, V)| !views(keep@).contains(p.0)).map_values(|p: (Seq<char>, V)| p.0),
    {
        let ghost orig = *self;
        let ghost ks = views(keep@);
        let ghost pin = |p: (Seq<char>, V)| ks.contains(p.0);
        let ghost pout = |p: (Seq<char>, V)| !ks.contains(p.0);
        let mut rest: Vec<(String, V)> = Vec::new();
        std::mem::swap(&mut rest, &mut self.entries);
        let mut removed: Vec<String> = Vec::new();
        let ghost n: int = 0;
        assert(orig.entries().take(0) =~= Seq::<(Seq<char>, V)>::empty());
        assert(self.entries() =~= Seq::<(Seq<char>, V)>::empty());
        assert(views(removed@) =~= Seq::<Seq<char>>::empty());
        assert(raw_entries(rest@) =~= orig.entries().skip(0));
        while rest.len() > 0
            invariant
                orig.wf(),
                ks == views(keep@),
                pin == (|p: (Seq<char>, V)| ks.contains(p.0)),
                pout == (|p: (Seq<char>, V)| !ks.contains(p.0)),
                0 <= n <= orig.len_spec(),
                rest@.len() == orig.len_spec() - n,
                raw_entries(rest@) == orig.entries().skip(n),
                self.entries() == orig.entries().take(n).filter(pin),
                views(removed@) == orig.entries().take(n).filter(pout).map_values(|p: (Seq<char>, V)| p.0),
                self.wf(),
                forall|i: int, j: int| 0 <= i < self.len_spec() && n <= j < orig.len_spec()
                    ==> lex_lt(#[trigger] self.keys()[i], #[trigger] orig.keys()[j]),
            decreases rest@.len(),
        {
            let ghost rv = rest@;
            let e = rest.remove(0);
            let ghost x = orig.entries()[n];
            assert(raw_entries(rv)[0] == orig.entries().skip(n)[0]);
            assert((e.0@, e.1) == x);
            assert forall|j: int| 0 <= j < rest@.len() implies #[trigger] raw_entries(rest@)[j]
                == orig.entries().skip(n + 1)[j] by {
                assert(rest@[j] == rv[j + 1]);
                assert(raw_entries(rv)[j + 1] == orig.entries().skip(n)[j + 1]);
            }
            assert(raw_entries(rest@) =~= orig.entries().skip(n + 1));
            assert(orig.entries().take(n + 1).drop_last() =~= orig.entries().take(n));
            reveal_with_fuel(Seq::filter, 1);
            let ghost before = self.entries();
            let ghost before_removed = removed@;
            if contains_str(keep, e.0.as_str()) {
                self.entries.push(e);
                assert(self.entries() =~= before.push(x));
                assert(orig.entries().take(n + 1).filter(pin) =~= orig.entries().take(n).filter(pin).push(x));
                assert(orig.entries().take(n + 1).filter(pout) =~= orig.entries().take(n).filter(pout));
                assert forall|i: int, j: int| 0 <= i < self.len_spec() && n + 1 <= j < orig.len_spec()
                    implies lex_lt(#[trigger] self.keys()[i], #[trigger] orig.keys()[j]) by {
                    if i == self.len_spec() - 1 {
                        assert(self.keys()[i] == orig.keys()[n]);
                    } else {
                        assert(self.keys()[i] == before.map_values(|p: (Seq<char>, V)| p.0)[i]);
                    }
                }
                assert forall|i: int, j: int| 0 <= i < j < self.keys().len() implies lex_lt(
                    #[trigger] self.keys()[i], #[trigger] self.keys()[j]) by {
                    assert(self.keys()[i] == before.map_values(|p: (Seq<char>, V)| p.0)[i]);
                    if j < self.len_spec() - 1 {
                        assert(self.keys()[j] == before.map_values(|p: (Seq<char>, V)| p.0)[j]);
                    } else {
                        assert(self.keys()[j] == orig.keys()[n]);
                    }
                }
            } else {
                let (k, _v) = e;
                removed.push(k);
                assert(views(removed@) =~= views(before_removed).push(x.0));
                assert(orig.entries().take(n + 1).filter(pin) =~= orig.entries().take(n).filter(pin));
                assert(orig.entries().take(n + 1).filter(pout) =~= orig.entries().take(n).filter(pout).push(x));
                assert(orig.entries().take(n + 1).filter(pout).map_values(|p: (Seq<char>, V)| p.0)
                    =~= orig.entries().take(n).filter(pout).map_values(|p: (Seq<char>, V)| p.0).push(x.0));
            }
            proof { n = n + 1; }
        }
        assert(orig.entries().take(n) =~= orig.entries());
        removed
    }
}

} // verus!
