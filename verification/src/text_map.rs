//! A map keyed by strings that keeps its entries in ascending key order, as a
//! `BTreeMap<String, V>` does.
use vstd::prelude::*;

use crate::text::{
    lemma_seq_lt_asymmetric, lemma_seq_lt_irreflexive, lemma_seq_lt_transitive,
    lemma_seq_lt_trichotomy, same_text, seq_lt, text_less,
};

verus! {

/// Keys in strictly ascending order.
pub open spec fn ascending(keys: Seq<Seq<char>>) -> bool {
    forall|i: int, j: int| 0 <= i < j < keys.len() ==> seq_lt(#[trigger] keys[i], #[trigger] keys[j])
}

spec fn keys_of<V>(entries: Seq<(String, V)>) -> Seq<Seq<char>> {
    entries.map_values(|e: (String, V)| e.0@)
}

#[derive(Debug)]
pub struct TextMap<V> {
    entries: Vec<(String, V)>,
}

impl<V> TextMap<V> {
    /// The keys, in the order in which the map holds them (ascending).
    pub closed spec fn key_order(self) -> Seq<Seq<char>> {
        keys_of(self.entries@)
    }

    /// The values, in the order of their keys.
    pub closed spec fn value_order(self) -> Seq<V> {
        self.entries@.map_values(|e: (String, V)| e.1)
    }

    #[verifier::type_invariant]
    closed spec fn well_formed(self) -> bool {
        ascending(self.key_order())
    }

    /// The map from each key's characters to its value.
    pub open spec fn view(self) -> Map<Seq<char>, V> {
        Map::new(
            |k: Seq<char>| self.key_order().contains(k),
            |k: Seq<char>| self.value_order()[self.key_order().index_of(k)],
        )
    }

    proof fn lemma_distinct(self)
        requires
            self.well_formed(),
        ensures
            self.key_order().no_duplicates(),
    {
        let ks = self.key_order();
        assert forall|i: int, j: int| 0 <= i < ks.len() && 0 <= j < ks.len() && i != j implies ks[i]
            != ks[j] by {
            if i < j {
                assert(seq_lt(ks[i], ks[j]));
                lemma_seq_lt_irreflexive(ks[i]);
            } else {
                assert(seq_lt(ks[j], ks[i]));
                lemma_seq_lt_irreflexive(ks[j]);
            }
        }
    }

    proof fn lemma_entry(self, i: int)
        requires
            self.well_formed(),
            0 <= i < self.entries@.len(),
        ensures
            self@.contains_key(self.entries@[i].0@),
            self@[self.entries@[i].0@] == self.entries@[i].1,
            self.key_order().index_of(self.entries@[i].0@) == i,
    {
        self.lemma_distinct();
        let ks = self.key_order();
        assert(ks[i] == self.entries@[i].0@);
        assert(ks.contains(ks[i]));
        let j = ks.index_of(ks[i]);
        assert(ks[j] == ks[i]);
    }

    proof fn lemma_orders(self)
        requires
            self.well_formed(),
        ensures
            self.key_order().len() == self.value_order().len(),
            ascending(self.key_order()),
            self.key_order().no_duplicates(),
            self@.dom() == self.key_order().to_set(),
            self@.dom().finite(),
            self@.len() == self.key_order().len(),
            forall|i: int|
                0 <= i < self.key_order().len() ==> #[trigger] self@[self.key_order()[i]]
                    == self.value_order()[i],
    {
        self.lemma_distinct();
        let ks = self.key_order();
        assert forall|i: int| 0 <= i < ks.len() implies #[trigger] self@[ks[i]]
            == self.value_order()[i] by {
            self.lemma_entry(i);
        }
        assert(self@.dom() =~= ks.to_set());
        ks.unique_seq_to_set();
    }

    pub fn new() -> (m: Self)
        ensures
            m@ == Map::<Seq<char>, V>::empty(),
            m.key_order().len() == 0,
    {
        let m = TextMap { entries: Vec::new() };
        assert(m@ =~= Map::<Seq<char>, V>::empty());
        m
    }

    /// The number of entries. Also states how the orders tie to the map: the
    /// keys are distinct and ascending, and each is in the map with the value
    /// at the same position.
    pub fn len(&self) -> (n: usize)
        ensures
            n == self.key_order().len(),
            n == self@.len(),
            self.key_order().len() == self.value_order().len(),
            ascending(self.key_order()),
            self.key_order().no_duplicates(),
            self@.dom() == self.key_order().to_set(),
            self@.dom().finite(),
            forall|i: int|
                0 <= i < self.key_order().len() ==> #[trigger] self@[self.key_order()[i]]
                    == self.value_order()[i],
    {
        proof {
            use_type_invariant(self);
            self.lemma_orders();
        }
        self.entries.len()
    }

    pub fn key_at(&self, i: usize) -> (k: &String)
        requires
            i < self.key_order().len(),
        ensures
            k@ == self.key_order()[i as int],
    {
        &self.entries[i].0
    }

    pub fn value_at(&self, i: usize) -> (v: &V)
        requires
            i < self.key_order().len(),
        ensures
            *v == self.value_order()[i as int],
    {
        &self.entries[i].1
    }

    /// Position of `key` among the entries, if it is there.
    fn find(&self, key: &str) -> (r: Option<usize>)
        ensures
            match r {
                Some(i) => i < self.entries@.len() && self.entries@[i as int].0@ == key@,
                None => !self@.contains_key(key@),
            },
    {
        let mut i: usize = 0;
        while i < self.entries.len()
            invariant
                i <= self.entries@.len(),
                forall|k: int| 0 <= k < i ==> self.entries@[k].0@ != key@,
            decreases self.entries@.len() - i,
        {
            if same_text(self.entries[i].0.as_str(), key) {
                return Some(i);
            }
            i = i + 1;
        }
        proof {
            if self@.contains_key(key@) {
                let ks = self.key_order();
                let j = choose|j: int| 0 <= j < ks.len() && ks[j] == key@;
                assert(self.entries@[j].0@ == key@);
            }
        }
        None
    }

    pub fn contains_key(&self, key: &str) -> (r: bool)
        ensures
            r == self@.contains_key(key@),
    {
        match self.find(key) {
            Some(i) => {
                proof {
                    use_type_invariant(self);
                    self.lemma_entry(i as int);
                }
                true
            },
            None => false,
        }
    }

    pub fn get(&self, key: &str) -> (r: Option<&V>)
        ensures
            match r {
                Some(v) => self@.contains_key(key@) && *v == self@[key@],
                None => !self@.contains_key(key@),
            },
    {
        match self.find(key) {
            Some(i) => {
                proof {
                    use_type_invariant(self);
                    self.lemma_entry(i as int);
                }
                Some(&self.entries[i].1)
            },
            None => None,
        }
    }

    /// Sets `key` to `value`; hands back the value that `key` had before.
    pub fn insert(&mut self, key: String, value: V) -> (prior: Option<V>)
        ensures
            final(self)@ == old(self)@.insert(key@, value),
            match prior {
                Some(v) => old(self)@.contains_key(key@) && v == old(self)@[key@],
                None => !old(self)@.contains_key(key@),
            },
    {
        proof {
            use_type_invariant(&*self);
        }
        let ghost old_entries = self.entries@;
        let mut i: usize = 0;
        while i < self.entries.len() && text_less(self.entries[i].0.as_str(), key.as_str())
            invariant
                self.entries@ == old_entries,
                ascending(self.key_order()),
                i <= self.entries@.len(),
                forall|k: int| 0 <= k < i ==> seq_lt(#[trigger] self.entries@[k].0@, key@),
            decreases self.entries@.len() - i,
        {
            i = i + 1;
        }
        let ghost old_self = *self;
        proof {
            // every key from position i on is at least key@
            assert forall|k: int| i <= k < self.entries@.len() implies (self.entries@[k].0@
                == key@ || seq_lt(key@, #[trigger] self.entries@[k].0@)) by {
                let ks = self.key_order();
                assert(ks[k] == self.entries@[k].0@);
                assert(ks[i as int] == self.entries@[i as int].0@);
                lemma_seq_lt_trichotomy(ks[i as int], key@);
                if k > i {
                    assert(seq_lt(ks[i as int], ks[k]));
                    if ks[i as int] != key@ {
                        lemma_seq_lt_transitive(key@, ks[i as int], ks[k]);
                    }
                }
            }
        }
        if i < self.entries.len() && same_text(self.entries[i].0.as_str(), key.as_str()) {
            proof {
                old_self.lemma_entry(i as int);
            }
            let ghost k_view = key@;
            let mut entries: Vec<(String, V)> = Vec::new();
            std::mem::swap(&mut entries, &mut self.entries);
            let removed = entries.remove(i);
            proof {
                let ks = keys_of(entries@);
                assert forall|a: int, b: int| 0 <= a < b < ks.len() implies seq_lt(
                    #[trigger] ks[a],
                    #[trigger] ks[b],
                ) by {
                    let oks = old_self.key_order();
                    let a2 = if a < i { a } else { a + 1 };
                    let b2 = if b < i { b } else { b + 1 };
                    assert(ks[a] == oks[a2]);
                    assert(ks[b] == oks[b2]);
                }
            }
            entries.insert(i, (key, value));
            proof {
                let ks = keys_of(entries@);
                let oks = old_self.key_order();
                assert forall|a: int, b: int| 0 <= a < b < ks.len() implies seq_lt(
                    #[trigger] ks[a],
                    #[trigger] ks[b],
                ) by {
                    assert(ks[a] == oks[a]);
                    assert(ks[b] == oks[b]);
                }
                assert(ascending(ks));
            }
            self.entries = entries;
            proof {
                let oks = old_self.key_order();
                assert(self.key_order() =~= oks);
                assert forall|kk: Seq<char>| #[trigger] self@.contains_key(kk) implies self@[kk]
                    == old_self@.insert(k_view, value)[kk] by {
                    let j = self.key_order().index_of(kk);
                    self.lemma_entry(j);
                    if kk != k_view {
                        old_self.lemma_entry(j);
                    }
                }
                assert(self@ =~= old_self@.insert(k_view, value));
            }
            Some(removed.1)
        } else {
            let ghost k_view = key@;
            proof {
                assert forall|k: int| i <= k < self.entries@.len() implies seq_lt(
                    key@,
                    #[trigger] self.entries@[k].0@,
                ) by {
                    if self.entries@[k].0@ == key@ {
                        if k > i {
                            let ks = self.key_order();
                            assert(ks[i as int] == self.entries@[i as int].0@);
                            assert(ks[k] == self.entries@[k].0@);
                            assert(seq_lt(ks[i as int], ks[k]));
                            lemma_seq_lt_asymmetric(ks[i as int], key@);
                        }
                    }
                }
                assert(!old_self@.contains_key(k_view)) by {
                    if old_self@.contains_key(k_view) {
                        let j = old_self.key_order().index_of(k_view);
                        old_self.lemma_entry(j);
                        if j < i {
                            lemma_seq_lt_irreflexive(k_view);
                        } else {
                            lemma_seq_lt_irreflexive(k_view);
                        }
                    }
                }
            }
            let ghost key_copy = key;
            let mut entries: Vec<(String, V)> = Vec::new();
            std::mem::swap(&mut entries, &mut self.entries);
            entries.insert(i, (key, value));
            proof {
                let ks = keys_of(entries@);
                let oks = old_self.key_order();
                assert forall|a: int, b: int| 0 <= a < b < ks.len() implies seq_lt(
                    #[trigger] ks[a],
                    #[trigger] ks[b],
                ) by {
                    if a < i && b < i {
                        assert(ks[a] == oks[a]);
                        assert(ks[b] == oks[b]);
                    } else if a < i && b == i {
                        assert(ks[a] == oks[a]);
                        assert(ks[a] == old_self.entries@[a].0@);
                    } else if a < i {
                        assert(ks[a] == oks[a]);
                        assert(ks[b] == oks[b - 1]);
                        assert(oks[a] == old_self.entries@[a].0@);
                        assert(oks[b - 1] == old_self.entries@[b - 1].0@);
                        lemma_seq_lt_transitive(oks[a], k_view, oks[b - 1]);
                    } else if a == i {
                        assert(ks[b] == oks[b - 1]);
                        assert(oks[b - 1] == old_self.entries@[b - 1].0@);
                    } else {
                        assert(ks[a] == oks[a - 1]);
                        assert(ks[b] == oks[b - 1]);
                    }
                }
                assert(ascending(ks));
            }
            self.entries = entries;
            proof {
                assert forall|kk: Seq<char>| #[trigger] self@.contains_key(kk) implies old_self@.insert(
                    k_view,
                    value,
                ).contains_key(kk) && self@[kk] == old_self@.insert(k_view, value)[kk] by {
                    let j = self.key_order().index_of(kk);
                    self.lemma_entry(j);
                    assert(self.entries@ == old_self.entries@.insert(i as int, (key_copy, value)));
                    if kk != k_view {
                        if j < i {
                            assert(self.entries@[j] == old_self.entries@[j]);
                            old_self.lemma_entry(j);
                        } else {
                            assert(j != i);
                            assert(self.entries@[j] == old_self.entries@[j - 1]);
                            old_self.lemma_entry(j - 1);
                        }
                    } else {
                        self.lemma_entry(i as int);
                    }
                }
                assert forall|kk: Seq<char>| #[trigger] old_self@.insert(k_view, value).contains_key(
                    kk,
                ) implies self@.contains_key(kk) by {
                    if kk == k_view {
                        self.lemma_entry(i as int);
                    } else {
                        let j = old_self.key_order().index_of(kk);
                        old_self.lemma_entry(j);
                        if j < i {
                            self.lemma_entry(j);
                        } else {
                            self.lemma_entry(j + 1);
                        }
                    }
                }
                assert(self@ =~= old_self@.insert(k_view, value));
            }
            None
        }
    }

    /// Removes `key`; hands back the value that it had.
    pub fn remove(&mut self, key: &str) -> (prior: Option<V>)
        ensures
            final(self)@ == old(self)@.remove(key@),
            prior is None ==> *final(self) == *old(self),
            match prior {
                Some(v) => old(self)@.contains_key(key@) && v == old(self)@[key@],
                None => !old(self)@.contains_key(key@),
            },
    {
        proof {
            use_type_invariant(&*self);
        }
        match self.find(key) {
            None => {
                assert(self@ =~= self@.remove(key@));
                None
            },
            Some(i) => {
                let ghost old_self = *self;
                proof {
                    old_self.lemma_entry(i as int);
                    old_self.lemma_distinct();
                }
                let mut entries: Vec<(String, V)> = Vec::new();
                std::mem::swap(&mut entries, &mut self.entries);
                let removed = entries.remove(i);
                proof {
                    let ks = keys_of(entries@);
                    let oks = old_self.key_order();
                    assert forall|a: int| 0 <= a < ks.len() implies #[trigger] ks[a] == oks[if a < i {
                        a
                    } else {
                        a + 1
                    }] by {}
                    assert forall|a: int, b: int| 0 <= a < b < ks.len() implies seq_lt(
                        #[trigger] ks[a],
                        #[trigger] ks[b],
                    ) by {
                        let a2 = if a < i { a } else { a + 1 };
                        let b2 = if b < i { b } else { b + 1 };
                        assert(ks[a] == oks[a2]);
                        assert(ks[b] == oks[b2]);
                    }
                    assert(ascending(ks));
                }
                self.entries = entries;
                proof {
                    let oks = old_self.key_order();
                    assert forall|kk: Seq<char>| #[trigger] self@.contains_key(kk) implies (kk
                        != key@ && old_self@.contains_key(kk) && self@[kk] == old_self@[kk]) by {
                        let j = self.key_order().index_of(kk);
                        self.lemma_entry(j);
                        let j2 = if j < i { j } else { j + 1 };
                        assert(oks[j2] == kk);
                        assert(oks[i as int] == key@);
                        old_self.lemma_entry(j2);
                    }
                    assert forall|kk: Seq<char>| #[trigger] old_self@.contains_key(kk) && kk != key@
                        implies self@.contains_key(kk) by {
                        let j = oks.index_of(kk);
                        old_self.lemma_entry(j);
                        if j < i {
                            self.lemma_entry(j);
                        } else if j > i {
                            self.lemma_entry(j - 1);
                        }
                    }
                    assert(self@ =~= old_self@.remove(key@));
                }
                Some(removed.1)
            },
        }
    }
}

impl TextMap<String> {
    /// A copy of the map.
    pub fn duplicate(&self) -> (r: Self)
        ensures
            r@ == self@,
            r.key_order() == self.key_order(),
            r.value_order() == self.value_order(),
    {
        proof {
            use_type_invariant(self);
        }
        let mut entries: Vec<(String, String)> = Vec::new();
        let mut i: usize = 0;
        while i < self.entries.len()
            invariant
                i <= self.entries@.len(),
                entries@ == self.entries@.take(i as int),
            decreases self.entries@.len() - i,
        {
            let k = self.entries[i].0.clone();
            let v = self.entries[i].1.clone();
            entries.push((k, v));
            assert(entries@ =~= self.entries@.take(i + 1));
            i = i + 1;
        }
        assert(entries@ =~= self.entries@);
        TextMap { entries }
    }
}

} // verus!
