//! A small exact-match store keyed by [`UniqId`], backed by a vector of
//! entries with pairwise-distinct keys and abstracted as a [`Map`].

use vstd::prelude::*;

use crate::primitives::UniqId;

verus! {

/// The map an entry sequence denotes: later entries win, though well-formed
/// stores never repeat a key.
pub open spec fn uni_assoc_map<V>(s: Seq<(UniqId, V)>) -> Map<UniqId, V>
    decreases s.len(),
{
    if s.len() == 0 {
        Map::empty()
    } else {
        uni_assoc_map(s.drop_last()).insert(s.last().0, s.last().1)
    }
}

/// No key occurs twice.
pub open spec fn uni_distinct_keys<V>(s: Seq<(UniqId, V)>) -> bool {
    forall|i: int, j: int|
        #![trigger s[i], s[j]]
        0 <= i < j < s.len() ==> s[i].0 != s[j].0
}

proof fn lemma_uni_assoc_map_contains<V>(s: Seq<(UniqId, V)>, key: UniqId)
    ensures
        uni_assoc_map(s).dom().contains(key) <==> (exists|i: int|
            0 <= i < s.len() && #[trigger] s[i].0 == key),
    decreases s.len(),
{
    if s.len() > 0 {
        lemma_uni_assoc_map_contains(s.drop_last(), key);
        if s.last().0 == key {
            assert(s[s.len() - 1].0 == key);
        } else {
            if exists|i: int| 0 <= i < s.len() && #[trigger] s[i].0 == key {
                let i = choose|i: int| 0 <= i < s.len() && #[trigger] s[i].0 == key;
                assert(s.drop_last()[i].0 == key);
            }
            if exists|i: int| 0 <= i < s.drop_last().len() && #[trigger] s.drop_last()[i].0
                == key {
                let i = choose|i: int|
                    0 <= i < s.drop_last().len() && #[trigger] s.drop_last()[i].0 == key;
                assert(s[i].0 == key);
            }
        }
    }
}

proof fn lemma_uni_assoc_map_index<V>(s: Seq<(UniqId, V)>, key: UniqId, i: int)
    requires
        uni_distinct_keys(s),
        0 <= i < s.len(),
        s[i].0 == key,
    ensures
        uni_assoc_map(s).dom().contains(key),
        uni_assoc_map(s)[key] == s[i].1,
    decreases s.len(),
{
    if i == s.len() - 1 {
    } else {
        assert(s.drop_last()[i] == s[i]);
        lemma_uni_assoc_map_index(s.drop_last(), key, i);
        assert(s.last().0 != key);
    }
}

proof fn lemma_uni_assoc_map_push<V>(s: Seq<(UniqId, V)>, key: UniqId, value: V)
    ensures
        uni_assoc_map(s.push((key, value))) == uni_assoc_map(s).insert(key, value),
{
    assert(s.push((key, value)).drop_last() =~= s);
    assert(s.push((key, value)).last() == (key, value));
}

proof fn lemma_uni_assoc_map_update<V>(s: Seq<(UniqId, V)>, i: int, key: UniqId, value: V)
    requires
        uni_distinct_keys(s),
        0 <= i < s.len(),
        s[i].0 == key,
    ensures
        uni_assoc_map(s.update(i, (key, value))) == uni_assoc_map(s).insert(key, value),
        uni_distinct_keys(s.update(i, (key, value))),
    decreases s.len(),
{
    let t = s.update(i, (key, value));
    if i == s.len() - 1 {
        assert(t.drop_last() =~= s.drop_last());
        assert(uni_assoc_map(s.drop_last()).insert(key, value) =~= uni_assoc_map(
            s.drop_last(),
        ).insert(key, s.last().1).insert(key, value));
    } else {
        assert(t.drop_last() =~= s.drop_last().update(i, (key, value)));
        assert(s.drop_last()[i] == s[i]);
        lemma_uni_assoc_map_update(s.drop_last(), i, key, value);
        assert(s.last().0 != key);
        assert(uni_assoc_map(s.drop_last()).insert(key, value).insert(s.last().0, s.last().1)
            =~= uni_assoc_map(s.drop_last()).insert(s.last().0, s.last().1).insert(key, value));
        assert(t.last() == s.last());
    }
}

/// Exact-match key-value store with [`UniqId`] keys.
pub struct UniMap<V> {
    entries: Vec<(UniqId, V)>,
}

impl<V> View for UniMap<V> {
    type V = Map<UniqId, V>;

    closed spec fn view(&self) -> Map<UniqId, V> {
        uni_assoc_map(self.entries@)
    }
}

impl<V: Copy> UniMap<V> {
    /// Keys are pairwise distinct.
    pub closed spec fn wf(&self) -> bool {
        uni_distinct_keys(self.entries@)
    }

    /// An empty store.
    pub fn new() -> (r: Self)
        ensures
            r.wf(),
            r@ == Map::<UniqId, V>::empty(),
    {
        UniMap { entries: Vec::new() }
    }

    /// Exact-match lookup.
    pub fn get(&self, key: UniqId) -> (r: Option<V>)
        requires
            self.wf(),
        ensures
            r == if self@.dom().contains(key) {
                Some(self@[key])
            } else {
                None::<V>
            },
    {
        proof {
            lemma_uni_assoc_map_contains(self.entries@, key);
        }
        let mut i: usize = 0;
        while i < self.entries.len()
            invariant
                self.wf(),
                i <= self.entries@.len(),
                forall|j: int| 0 <= j < i ==> (#[trigger] self.entries@[j]).0 != key,
            decreases self.entries@.len() - i,
        {
            let entry = &self.entries[i];
            if entry.0 == key {
                proof {
                    lemma_uni_assoc_map_index(self.entries@, key, i as int);
                }
                return Some(entry.1);
            }
            i = i + 1;
        }
        None
    }

    /// True exactly when the key is present.
    pub fn contains(&self, key: UniqId) -> (r: bool)
        requires
            self.wf(),
        ensures
            r == self@.dom().contains(key),
    {
        self.get(key).is_some()
    }

    /// Inserts the pair, overwriting any stored value under the same key.
    pub fn upsert(&mut self, key: UniqId, value: V)
        requires
            old(self).wf(),
        ensures
            final(self).wf(),
            final(self)@ == old(self)@.insert(key, value),
    {
        proof {
            lemma_uni_assoc_map_contains(self.entries@, key);
        }
        let mut i: usize = 0;
        while i < self.entries.len()
            invariant
                self.wf(),
                self.entries@ == old(self).entries@,
                i <= self.entries@.len(),
                forall|j: int| 0 <= j < i ==> (#[trigger] self.entries@[j]).0 != key,
            decreases self.entries@.len() - i,
        {
            if self.entries[i].0 == key {
                proof {
                    lemma_uni_assoc_map_update(self.entries@, i as int, key, value);
                }
                self.entries.set(i, (key, value));
                return ;
            }
            i = i + 1;
        }
        proof {
            lemma_uni_assoc_map_push(self.entries@, key, value);
            assert(uni_distinct_keys(self.entries@.push((key, value))));
        }
        self.entries.push((key, value));
    }
}

} // verus!
