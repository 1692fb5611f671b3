//! The durable store of intake windows, keyed by [`IntakeId`].

use vstd::prelude::*;

use crate::intake::IntakeId;
use crate::intake::IntakeInfo;
use crate::intake::IntakeStatus;
use crate::intake::with_status;

verus! {

/// The map an entry sequence denotes.
pub open spec fn intake_assoc_map(s: Seq<(IntakeId, IntakeInfo)>) -> Map<IntakeId, IntakeInfo>
    decreases s.len(),
{
    if s.len() == 0 {
        Map::empty()
    } else {
        intake_assoc_map(s.drop_last()).insert(s.last().0, s.last().1)
    }
}

/// No intake id occurs twice.
pub open spec fn intake_distinct_keys(s: Seq<(IntakeId, IntakeInfo)>) -> bool {
    forall|i: int, j: int|
        #![trigger s[i], s[j]]
        0 <= i < j < s.len() ==> s[i].0 != s[j].0
}

proof fn lemma_intake_assoc_map_contains(s: Seq<(IntakeId, IntakeInfo)>, key: IntakeId)
    ensures
        intake_assoc_map(s).dom().contains(key) <==> (exists|i: int|
            0 <= i < s.len() && #[trigger] s[i].0 == key),
    decreases s.len(),
{
    if s.len() > 0 {
        lemma_intake_assoc_map_contains(s.drop_last(), key);
        if s.last().0 == key {
            assert(s[s.len() - 1].0 == key);
        } else {
            if exists|i: int| 0 <= i < s.len() && #[trigger] s[i].0 == key {
                let i = choose|i: int| 0 <= i < s.len() && #[trigger] s[i].0 == key;
                assert(s.drop_last()[i].0 == key);
            }
            if exists|i: int| 0 <= i < s.drop_last().len() && #[trigger] s.drop_last()[i].0
                == key {
                let i = choose|i: int|
                    0 <= i < s.drop_last().len() && #[trigger] s.drop_last()[i].0 == key;
                assert(s[i].0 == key);
            }
        }
    }
}

proof fn lemma_intake_assoc_map_index(s: Seq<(IntakeId, IntakeInfo)>, key: IntakeId, i: int)
    requires
        intake_distinct_keys(s),
        0 <= i < s.len(),
        s[i].0 == key,
    ensures
        intake_assoc_map(s).dom().contains(key),
        intake_assoc_map(s)[key] == s[i].1,
    decreases s.len(),
{
    if i == s.len() - 1 {
    } else {
        assert(s.drop_last()[i] == s[i]);
        lemma_intake_assoc_map_index(s.drop_last(), key, i);
        assert(s.last().0 != key);
    }
}

proof fn lemma_intake_assoc_map_push(s: Seq<(IntakeId, IntakeInfo)>, key: IntakeId, value: IntakeInfo)
    ensures
        intake_assoc_map(s.push((key, value))) == intake_assoc_map(s).insert(key, value),
{
    assert(s.push((key, value)).drop_last() =~= s);
    assert(s.push((key, value)).last() == (key, value));
}

proof fn lemma_intake_assoc_map_update(
    s: Seq<(IntakeId, IntakeInfo)>,
    i: int,
    key: IntakeId,
    value: IntakeInfo,
)
    requires
        intake_distinct_keys(s),
        0 <= i < s.len(),
        s[i].0 == key,
    ensures
        intake_assoc_map(s.update(i, (key, value))) == intake_assoc_map(s).insert(key, value),
        intake_distinct_keys(s.update(i, (key, value))),
    decreases s.len(),
{
    let t = s.update(i, (key, value));
    if i == s.len() - 1 {
        assert(t.drop_last() =~= s.drop_last());
        assert(intake_assoc_map(s.drop_last()).insert(key, value) =~= intake_assoc_map(
            s.drop_last(),
        ).insert(key, s.last().1).insert(key, value));
    } else {
        assert(t.drop_last() =~= s.drop_last().update(i, (key, value)));
        assert(s.drop_last()[i] == s[i]);
        lemma_intake_assoc_map_update(s.drop_last(), i, key, value);
        assert(s.last().0 != key);
        assert(intake_assoc_map(s.drop_last()).insert(key, value).insert(
            s.last().0,
            s.last().1,
        ) =~= intake_assoc_map(s.drop_last()).insert(s.last().0, s.last().1).insert(key, value));
        assert(t.last() == s.last());
    }
}

/// Durable key-value store of intake windows. Windows are never deleted;
/// their status reaches a terminal value instead.
pub struct IntakeRegistry {
    entries: Vec<(IntakeId, IntakeInfo)>,
}

impl View for IntakeRegistry {
    type V = Map<IntakeId, IntakeInfo>;

    closed spec fn view(&self) -> Map<IntakeId, IntakeInfo> {
        intake_assoc_map(self.entries@)
    }
}

impl IntakeRegistry {
    /// Keys are pairwise distinct.
    pub closed spec fn wf(&self) -> bool {
        intake_distinct_keys(self.entries@)
    }

    /// An empty registry.
    pub fn new() -> (r: Self)
        ensures
            r.wf(),
            r@ == Map::<IntakeId, IntakeInfo>::empty(),
    {
        IntakeRegistry { entries: Vec::new() }
    }

    /// Exact-match lookup.
    pub fn get(&self, key: IntakeId) -> (r: Option<IntakeInfo>)
        requires
            self.wf(),
        ensures
            r == if self@.dom().contains(key) {
                Some(self@[key])
            } else {
                None::<IntakeInfo>
            },
    {
        proof {
            lemma_intake_assoc_map_contains(self.entries@, key);
        }
        let mut i: usize = 0;
        while i < self.entries.len()
            invariant
                self.wf(),
                i <= self.entries@.len(),
                forall|j: int| 0 <= j < i ==> (#[trigger] self.entries@[j]).0 != key,
            decreases self.entries@.len() - i,
        {
            let entry = &self.entries[i];
            if entry.0 == key {
                proof {
                    lemma_intake_assoc_map_index(self.entries@, key, i as int);
                }
                return Some(entry.1);
            }
            i = i + 1;
        }
        None
    }

    /// True exactly when the intake is registered.
    pub fn contains(&self, key: IntakeId) -> (r: bool)
        requires
            self.wf(),
        ensures
            r == self@.dom().contains(key),
    {
        self.get(key).is_some()
    }

    /// Registers a fresh intake.
    pub fn insert_new(&mut self, key: IntakeId, value: IntakeInfo)
        requires
            old(self).wf(),
            !old(self)@.dom().contains(key),
        ensures
            final(self).wf(),
            final(self)@ == old(self)@.insert(key, value),
    {
        proof {
            lemma_intake_assoc_map_contains(self.entries@, key);
            lemma_intake_assoc_map_push(self.entries@, key, value);
            assert(intake_distinct_keys(self.entries@.push((key, value))));
        }
        self.entries.push((key, value));
    }

    /// Rewrites the status of a registered intake; every other field stays.
    pub fn set_status(&mut self, key: IntakeId, status: IntakeStatus)
        requires
            old(self).wf(),
            old(self)@.dom().contains(key),
        ensures
            final(self).wf(),
            final(self)@ == old(self)@.insert(key, with_status(old(self)@[key], status)),
    {
        proof {
            lemma_intake_assoc_map_contains(self.entries@, key);
        }
        let mut i: usize = 0;
        while i < self.entries.len()
            invariant
                self.wf(),
                self.entries@ == old(self).entries@,
                i <= self.entries@.len(),
                forall|j: int| 0 <= j < i ==> (#[trigger] self.entries@[j]).0 != key,
                exists|j: int| i <= j < self.entries@.len() && (#[trigger] self.entries@[j]).0
                    == key,
            decreases self.entries@.len() - i,
        {
            if self.entries[i].0 == key {
                let updated = IntakeInfo { status, ..self.entries[i].1 };
                proof {
                    assert(updated == with_status(self.entries@[i as int].1, status));
                    lemma_intake_assoc_map_index(self.entries@, key, i as int);
                    lemma_intake_assoc_map_update(self.entries@, i as int, key, updated);
                }
                self.entries.set(i, (key, updated));
                return ;
            }
            i = i + 1;
        }
    }
}

} // verus!
