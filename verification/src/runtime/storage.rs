//! Association lists that hold the memory locations and labels of a program.
//!
//! An entry for a key replaces nothing: `insert` overwrites the last entry of
//! the key or appends one. A lookup finds the last entry of a key.
use vstd::prelude::*;

verus! {

/// The value of the last entry for `k` in `s`.
pub open spec fn lookup<K, V>(s: Seq<(K, V)>, k: K) -> Option<V>
    decreases s.len(),
{
    if s.len() == 0 {
        None
    } else if s.last().0 == k {
        Some(s.last().1)
    } else {
        lookup(s.drop_last(), k)
    }
}

/// The map that the association list `s` stands for.
pub open spec fn assoc_map<K, V>(s: Seq<(K, V)>) -> Map<K, V> {
    Map::new(|k: K| lookup(s, k) is Some, |k: K| lookup(s, k)->0)
}

/// Overwriting the last entry of a key changes the value of that key only.
pub proof fn lemma_lookup_update<K, V>(s: Seq<(K, V)>, i: int, k: K, v: V, q: K)
    requires
        0 <= i < s.len(),
        s[i].0 == k,
        forall|j: int| i < j < s.len() ==> s[j].0 != k,
    ensures
        lookup(s.update(i, (k, v)), q) == if q == k { Some(v) } else { lookup(s, q) },
    decreases s.len(),
{
    let t = s.update(i, (k, v));
    if i == s.len() - 1 {
        assert(t.drop_last() =~= s.drop_last());
    } else {
        assert(t.drop_last() =~= s.drop_last().update(i, (k, v)));
        lemma_lookup_update(s.drop_last(), i, k, v, q);
    }
}

/// Entries before index `i` decide the lookup of a key that no later entry has.
pub proof fn lemma_lookup_prefix<K, V>(s: Seq<(K, V)>, i: int, k: K)
    requires
        0 <= i <= s.len(),
        forall|j: int| i <= j < s.len() ==> s[j].0 != k,
    ensures
        lookup(s, k) == lookup(s.take(i), k),
    decreases s.len() - i,
{
    if i < s.len() {
        assert(s.take(i + 1).drop_last() =~= s.take(i));
        lemma_lookup_prefix(s, i + 1, k);
    } else {
        assert(s.take(i) =~= s);
    }
}

/// Setting every value to `v` keeps the keys.
pub proof fn lemma_lookup_all_set<K, V>(s: Seq<(K, V)>, t: Seq<(K, V)>, v: V, q: K)
    requires
        s.len() == t.len(),
        forall|j: int| 0 <= j < s.len() ==> (#[trigger] t[j]).0 == s[j].0 && t[j].1 == v,
    ensures
        lookup(t, q) == if lookup(s, q) is Some { Some(v) } else { None::<V> },
    decreases s.len(),
{
    if s.len() > 0 {
        lemma_lookup_all_set(s.drop_last(), t.drop_last(), v, q);
    }
}

/// No two entries of `s` have the same key.
pub open spec fn unique_keys<K, V>(s: Seq<(K, V)>) -> bool {
    forall|i: int, j: int| 0 <= i < j < s.len() ==> s[i].0 != s[j].0
}

/// A key has a value exactly when some entry has it.
pub proof fn lemma_lookup_some<K, V>(s: Seq<(K, V)>, k: K)
    ensures
        lookup(s, k) is Some <==> exists|i: int| 0 <= i < s.len() && s[i].0 == k,
    decreases s.len(),
{
    if s.len() > 0 {
        lemma_lookup_some(s.drop_last(), k);
        if lookup(s.drop_last(), k) is Some {
            let i = choose|i: int| 0 <= i < s.drop_last().len() && s.drop_last()[i].0 == k;
            assert(s[i].0 == k);
        }
        if exists|i: int| 0 <= i < s.len() && s[i].0 == k {
            let i = choose|i: int| 0 <= i < s.len() && s[i].0 == k;
            if i < s.len() - 1 {
                assert(s.drop_last()[i].0 == k);
            }
        }
    }
}

/// With unique keys, the map has as many keys as the list has entries.
pub proof fn lemma_unique_dom_len<K, V>(s: Seq<(K, V)>)
    requires
        unique_keys(s),
    ensures
        assoc_map(s).dom().finite(),
        assoc_map(s).dom().len() == s.len(),
    decreases s.len(),
{
    if s.len() == 0 {
        assert(assoc_map(s).dom() =~= Set::<K>::empty());
    } else {
        let t = s.drop_last();
        assert(unique_keys(t));
        lemma_unique_dom_len(t);
        lemma_lookup_some(t, s.last().0);
        assert(!assoc_map(t).dom().contains(s.last().0));
        assert(assoc_map(s).dom() =~= assoc_map(t).dom().insert(s.last().0));
    }
}

/// With unique keys, each entry gives the value of its key.
pub proof fn lemma_lookup_unique_at<K, V>(s: Seq<(K, V)>, i: int)
    requires
        unique_keys(s),
        0 <= i < s.len(),
    ensures
        lookup(s, s[i].0) == Some(s[i].1),
    decreases s.len(),
{
    if i < s.len() - 1 {
        assert(unique_keys(s.drop_last()));
        assert(s.last().0 != s[i].0);
        lemma_lookup_unique_at(s.drop_last(), i);
    }
}

/// A map from indices to values.
pub struct IdMap<V> {
    entries: Vec<(usize, V)>,
}

impl<V> IdMap<V> {
    #[verifier::type_invariant]
    spec fn keys_unique(&self) -> bool {
        unique_keys(self.entries@)
    }
}

impl<V: Copy> View for IdMap<V> {
    type V = Map<usize, V>;

    closed spec fn view(&self) -> Map<usize, V> {
        assoc_map(self.entries@)
    }
}

impl<V: Copy> IdMap<V> {
    /// An empty map.
    pub fn new() -> (res: Self)
        ensures
            res@ == Map::<usize, V>::empty(),
    {
        let res = IdMap { entries: Vec::new() };
        assert(res@ =~= Map::<usize, V>::empty());
        res
    }

    /// The value of `k`, if `k` has one.
    pub fn get(&self, k: usize) -> (res: Option<V>)
        ensures
            res == if self@.contains_key(k) { Some(self@[k]) } else { None::<V> },
    {
        let mut i = self.entries.len();
        assert(self.entries@.take(i as int) =~= self.entries@);
        while i > 0
            invariant
                i <= self.entries.len(),
                lookup(self.entries@, k) == lookup(self.entries@.take(i as int), k),
            decreases i,
        {
            i = i - 1;
            let e = self.entries[i];
            assert(self.entries@.take(i + 1).drop_last() =~= self.entries@.take(i as int));
            if e.0 == k {
                return Some(e.1);
            }
        }
        None
    }

    /// Whether `k` has a value.
    pub fn contains_key(&self, k: usize) -> (res: bool)
        ensures
            res == self@.contains_key(k),
    {
        self.get(k).is_some()
    }

    /// Gives `k` the value `v`.
    pub fn insert(&mut self, k: usize, v: V)
        ensures
            final(self)@ == old(self)@.insert(k, v),
    {
        proof {
            use_type_invariant(&*self);
        }
        let mut entries: Vec<(usize, V)> = Vec::new();
        std::mem::swap(&mut entries, &mut self.entries);
        let ghost s = entries@;
        let mut i = entries.len();
        while i > 0
            invariant
                i <= entries.len(),
                entries@ == s,
                s == old(self).entries@,
                unique_keys(s),
                forall|j: int| i <= j < entries.len() ==> entries@[j].0 != k,
            decreases i,
        {
            i = i - 1;
            if entries[i].0 == k {
                proof {
                    assert forall|q: usize| #![auto] lookup(s.update(i as int, (k, v)), q)
                        == if q == k { Some(v) } else { lookup(s, q) } by {
                        lemma_lookup_update(s, i as int, k, v, q);
                    }
                }
                entries.set(i, (k, v));
                assert(unique_keys(entries@)) by {
                    assert forall|a: int, b: int| 0 <= a < b < entries@.len() implies entries@[a].0 != entries@[b].0 by {
                        assert(entries@[a].0 == s[a].0 && entries@[b].0 == s[b].0);
                    }
                }
                self.entries = entries;
                assert(self@ =~= old(self)@.insert(k, v));
                return;
            }
        }
        entries.push((k, v));
        assert(unique_keys(entries@)) by {
            assert forall|a: int, b: int| 0 <= a < b < entries@.len() implies entries@[a].0 != entries@[b].0 by {
                if b < s.len() {
                    assert(entries@[a] == s[a] && entries@[b] == s[b]);
                } else {
                    assert(entries@[a] == s[a]);
                }
            }
        }
        self.entries = entries;
        assert(self.entries@.drop_last() =~= s);
        assert(self@ =~= old(self)@.insert(k, v));
    }

    /// The number of keys.
    pub fn len(&self) -> (res: usize)
        ensures
            res == self@.dom().len(),
            self@.dom().finite(),
    {
        proof {
            use_type_invariant(&*self);
            lemma_unique_dom_len(self.entries@);
        }
        self.entries.len()
    }

    /// Gives every key the value `v`.
    pub fn set_all(&mut self, v: V)
        ensures
            final(self)@.dom() == old(self)@.dom(),
            forall|k: usize| #[trigger] final(self)@.contains_key(k) ==> final(self)@[k] == v,
    {
        proof {
            use_type_invariant(&*self);
        }
        let mut entries: Vec<(usize, V)> = Vec::new();
        std::mem::swap(&mut entries, &mut self.entries);
        let ghost s = entries@;
        let mut i: usize = 0;
        while i < entries.len()
            invariant
                i <= entries.len(),
                entries.len() == s.len(),
                unique_keys(s),
                forall|j: int| 0 <= j < entries.len() ==> (#[trigger] entries@[j]).0 == s[j].0,
                forall|j: int| 0 <= j < i ==> (#[trigger] entries@[j]).1 == v,
            decreases entries.len() - i,
        {
            let k = entries[i].0;
            entries.set(i, (k, v));
            i = i + 1;
        }
        proof {
            assert forall|q: usize| #![auto] lookup(entries@, q) == if lookup(s, q) is Some {
                Some(v)
            } else {
                None::<V>
            } by {
                lemma_lookup_all_set(s, entries@, v, q);
            }
            assert forall|a: int, b: int| 0 <= a < b < entries@.len() implies entries@[a].0 != entries@[b].0 by {
                assert(entries@[a].0 == s[a].0 && entries@[b].0 == s[b].0);
            }
        }
        self.entries = entries;
        assert(self@.dom() =~= old(self)@.dom());
    }

    /// The keys and values, in the order in which the keys were added.
    pub fn entries(&self) -> (res: Vec<(usize, V)>)
        ensures
            assoc_map(res@) == self@,
            unique_keys(res@),
            res@.len() == self@.dom().len(),
            forall|i: int| 0 <= i < res@.len() ==> self@.contains_key(#[trigger] res@[i].0) && self@[res@[i].0] == res@[i].1,
    {
        proof {
            use_type_invariant(self);
            lemma_unique_dom_len(self.entries@);
            assert forall|i: int| 0 <= i < self.entries@.len() implies self@.contains_key(#[trigger] self.entries@[i].0) && self@[self.entries@[i].0] == self.entries@[i].1 by {
                lemma_lookup_unique_at(self.entries@, i);
            }
        }
        let mut res: Vec<(usize, V)> = Vec::new();
        let mut i: usize = 0;
        while i < self.entries.len()
            invariant
                i <= self.entries.len(),
                res@ == self.entries@.take(i as int),
            decreases self.entries.len() - i,
        {
            res.push(self.entries[i]);
            assert(res@ =~= self.entries@.take(i + 1));
            i = i + 1;
        }
        assert(res@ =~= self.entries@);
        res
    }
}

impl<V: Copy> IdMap<V> {
    /// A map with the same keys and values.
    pub fn duplicate(&self) -> (res: Self)
        ensures
            res@ == self@,
    {
        IdMap { entries: self.entries() }
    }
}

/// The association list of `s` keyed by the characters of each name.
pub open spec fn keyed<V>(s: Seq<(String, V)>) -> Seq<(Seq<char>, V)> {
    s.map_values(|e: (String, V)| (e.0@, e.1))
}

/// A map from names to values.
pub struct NameMap<V> {
    entries: Vec<(String, V)>,
}

impl<V: Copy> View for NameMap<V> {
    type V = Map<Seq<char>, V>;

    closed spec fn view(&self) -> Map<Seq<char>, V> {
        assoc_map(keyed(self.entries@))
    }
}

impl<V: Copy> NameMap<V> {
    /// An empty map.
    pub fn new() -> (res: Self)
        ensures
            res@ == Map::<Seq<char>, V>::empty(),
    {
        let res = NameMap { entries: Vec::new() };
        assert(res@ =~= Map::<Seq<char>, V>::empty());
        res
    }

    /// The value of `k`, if `k` has one.
    pub fn get(&self, k: &String) -> (res: Option<V>)
        ensures
            res == if self@.contains_key(k@) { Some(self@[k@]) } else { None::<V> },
    {
        let ghost ks = keyed(self.entries@);
        let mut i = self.entries.len();
        assert(ks.take(i as int) =~= ks);
        while i > 0
            invariant
                i <= self.entries.len(),
                ks == keyed(self.entries@),
                lookup(ks, k@) == lookup(ks.take(i as int), k@),
            decreases i,
        {
            i = i - 1;
            assert(ks.take(i + 1).drop_last() =~= ks.take(i as int));
            if self.entries[i].0 == *k {
                return Some(self.entries[i].1);
            }
        }
        None
    }

    /// Whether `k` has a value.
    pub fn contains_key(&self, k: &String) -> (res: bool)
        ensures
            res == self@.contains_key(k@),
    {
        self.get(k).is_some()
    }

    /// Gives `k` the value `v`.
    pub fn insert(&mut self, k: String, v: V)
        ensures
            final(self)@ == old(self)@.insert(k@, v),
    {
        let ghost ks = keyed(self.entries@);
        let mut i = self.entries.len();
        while i > 0
            invariant
                i <= self.entries.len(),
                self.entries@ == old(self).entries@,
                ks == keyed(self.entries@),
                forall|j: int| i <= j < self.entries.len() ==> ks[j].0 != k@,
            decreases i,
        {
            i = i - 1;
            if self.entries[i].0 == k {
                proof {
                    assert forall|q: Seq<char>| #![auto] lookup(ks.update(i as int, (k@, v)), q) == if q
                        == k@ {
                        Some(v)
                    } else {
                        lookup(ks, q)
                    } by {
                        lemma_lookup_update(ks, i as int, k@, v, q);
                    }
                }
                let ghost kv = k@;
                self.entries.set(i, (k, v));
                assert(keyed(self.entries@) =~= ks.update(i as int, (kv, v)));
                assert(self@ =~= old(self)@.insert(kv, v));
                return;
            }
        }
        let ghost kv = k@;
        self.entries.push((k, v));
        assert(keyed(self.entries@).drop_last() =~= ks);
        assert(self@ =~= old(self)@.insert(kv, v));
    }

    /// Gives every key the value `v`.
    pub fn set_all(&mut self, v: V)
        ensures
            final(self)@.dom() == old(self)@.dom(),
            forall|k: Seq<char>| #[trigger] final(self)@.contains_key(k) ==> final(self)@[k] == v,
    {
        let ghost ks = keyed(old(self).entries@);
        let mut i: usize = 0;
        while i < self.entries.len()
            invariant
                i <= self.entries.len(),
                self.entries.len() == ks.len(),
                forall|j: int| 0 <= j < self.entries.len() ==> (#[trigger] keyed(self.entries@)[j]).0
                    == ks[j].0,
                forall|j: int| 0 <= j < i ==> (#[trigger] keyed(self.entries@)[j]).1 == v,
            decreases self.entries.len() - i,
        {
            let name = self.entries[i].0.clone();
            let ghost before = self.entries@;
            self.entries.set(i, (name, v));
            proof {
                assert forall|j: int| 0 <= j < self.entries.len() implies (#[trigger] keyed(
                    self.entries@,
                )[j]).0 == ks[j].0 by {
                    assert(keyed(self.entries@)[j] == (self.entries@[j].0@, self.entries@[j].1));
                    assert(keyed(before)[j] == (before[j].0@, before[j].1));
                    if j != i {
                        assert(self.entries@[j] == before[j]);
                    }
                }
                assert forall|j: int| 0 <= j < i + 1 implies (#[trigger] keyed(self.entries@)[j]).1
                    == v by {
                    assert(keyed(self.entries@)[j] == (self.entries@[j].0@, self.entries@[j].1));
                    assert(keyed(before)[j] == (before[j].0@, before[j].1));
                    if j != i {
                        assert(self.entries@[j] == before[j]);
                    }
                }
            }
            i = i + 1;
        }
        proof {
            assert forall|q: Seq<char>| #![auto] lookup(keyed(self.entries@), q) == if lookup(ks, q) is Some {
                Some(v)
            } else {
                None::<V>
            } by {
                lemma_lookup_all_set(ks, keyed(self.entries@), v, q);
            }
        }
        assert(self@.dom() =~= old(self)@.dom());
    }

    /// The names and values, in the order in which the names were added.
    pub fn entries(&self) -> (res: Vec<(String, V)>)
        ensures
            assoc_map(keyed(res@)) == self@,
    {
        let mut res: Vec<(String, V)> = Vec::new();
        let mut i: usize = 0;
        while i < self.entries.len()
            invariant
                i <= self.entries.len(),
                keyed(res@) == keyed(self.entries@).take(i as int),
            decreases self.entries.len() - i,
        {
            let name = self.entries[i].0.clone();
            let ghost before = res@;
            res.push((name, self.entries[i].1));
            assert(keyed(res@) =~= keyed(before).push((self.entries@[i as int].0@, self.entries@[i as int].1)));
            assert(keyed(res@) =~= keyed(self.entries@).take(i + 1));
            i = i + 1;
        }
        assert(keyed(res@) =~= keyed(self.entries@));
        res
    }
}


impl<V: Copy> NameMap<V> {
    /// A map with the same keys and values.
    pub fn duplicate(&self) -> (res: Self)
        ensures
            res@ == self@,
    {
        NameMap { entries: self.entries() }
    }
}

} // verus!
