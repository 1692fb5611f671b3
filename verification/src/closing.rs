//! The secondary index that maps a scheduled closing time to the intakes
//! still open at that time. The scheduler sweep drains one time key per step,
//! so its cost is proportional to the windows closing right then, not to the
//! number of open windows.

use vstd::prelude::*;

use crate::intake::IntakeId;
use crate::primitives::BlockNumber;

verus! {

/// One index entry: this intake is scheduled to close at this time.
pub type ClosingEntry = (BlockNumber, IntakeId);

/// The set an entry sequence denotes.
pub open spec fn closing_set(s: Seq<ClosingEntry>) -> Set<ClosingEntry>
    decreases s.len(),
{
    if s.len() == 0 {
        Set::empty()
    } else {
        closing_set(s.drop_last()).insert(s.last())
    }
}

/// What is left of an index after one time key is drained.
pub open spec fn entries_except(s: Set<ClosingEntry>, time: BlockNumber) -> Set<ClosingEntry> {
    Set::new(|entry: ClosingEntry| s.contains(entry) && entry.0 != time)
}

proof fn lemma_closing_set_contains(s: Seq<ClosingEntry>, entry: ClosingEntry)
    ensures
        closing_set(s).contains(entry) <==> s.contains(entry),
    decreases s.len(),
{
    if s.len() > 0 {
        lemma_closing_set_contains(s.drop_last(), entry);
        if s.last() == entry {
            assert(s[s.len() - 1] == entry);
        } else {
            if s.contains(entry) {
                let i = choose|i: int| 0 <= i < s.len() && s[i] == entry;
                assert(s.drop_last()[i] == entry);
            }
            if s.drop_last().contains(entry) {
                let i = choose|i: int|
                    0 <= i < s.drop_last().len() && s.drop_last()[i] == entry;
                assert(s[i] == entry);
            }
        }
    }
}

/// Index of scheduled closing times.
pub struct ClosingIndex {
    entries: Vec<ClosingEntry>,
}

impl View for ClosingIndex {
    type V = Set<ClosingEntry>;

    closed spec fn view(&self) -> Set<ClosingEntry> {
        closing_set(self.entries@)
    }
}

impl ClosingIndex {
    /// An empty index.
    pub fn new() -> (r: Self)
        ensures
            r@ == Set::<ClosingEntry>::empty(),
    {
        ClosingIndex { entries: Vec::new() }
    }

    /// True exactly when the intake is indexed under the time.
    #[verifier::loop_isolation(false)]
    pub fn contains(&self, time: BlockNumber, intake_id: IntakeId) -> (r: bool)
        ensures
            r == self@.contains((time, intake_id)),
    {
        let entry = (time, intake_id);
        proof {
            lemma_closing_set_contains(self.entries@, entry);
        }
        let mut i: usize = 0;
        while i < self.entries.len()
            invariant
                i <= self.entries@.len(),
                forall|j: int| 0 <= j < i ==> #[trigger] self.entries@[j] != entry,
            decreases self.entries@.len() - i,
        {
            let stored = &self.entries[i];
            if stored.0 == time && stored.1.university_id == intake_id.university_id
                && stored.1.intake_index == intake_id.intake_index {
                assert(self.entries@[i as int] == entry);
                assert(self.entries@.contains(entry));
                return true;
            }
            i = i + 1;
        }
        proof {
            if self.entries@.contains(entry) {
                let j = choose|j: int|
                    0 <= j < self.entries@.len() && self.entries@[j] == entry;
                assert(self.entries@[j] == entry);
            }
        }
        false
    }

    /// Schedules an intake to close at the given time.
    pub fn insert(&mut self, time: BlockNumber, intake_id: IntakeId)
        ensures
            final(self)@ == old(self)@.insert((time, intake_id)),
    {
        let entry = (time, intake_id);
        proof {
            assert(self.entries@.push(entry).drop_last() =~= self.entries@);
            assert(self.entries@.push(entry).last() == entry);
        }
        self.entries.push(entry);
    }

    /// Removes every entry scheduled for `time` and hands the drained intake
    /// ids out. An id is drained exactly when it was indexed under `time`.
    #[verifier::loop_isolation(false)]
    pub fn drain_at(&mut self, time: BlockNumber) -> (drained: Vec<IntakeId>)
        ensures
            final(self)@ == entries_except(old(self)@, time),
            forall|intake_id: IntakeId| #[trigger]
                drained@.contains(intake_id) <==> old(self)@.contains((time, intake_id)),
    {
        let ghost s = self.entries@;
        let mut kept: Vec<ClosingEntry> = Vec::new();
        let mut drained: Vec<IntakeId> = Vec::new();
        let mut j: usize = 0;
        proof {
            assert(s.subrange(0, 0) =~= Seq::<ClosingEntry>::empty());
            assert(closing_set(kept@) =~= entries_except(closing_set(s.subrange(0, 0)), time));
        }
        while j < self.entries.len()
            invariant
                self.entries@ == s,
                j <= s.len(),
                closing_set(kept@) == entries_except(closing_set(s.subrange(0, j as int)), time),
                forall|intake_id: IntakeId| #[trigger]
                    drained@.contains(intake_id) <==> closing_set(
                        s.subrange(0, j as int),
                    ).contains((time, intake_id)),
            decreases s.len() - j,
        {
            let ghost prefix = s.subrange(0, j as int);
            let ghost prefix1 = s.subrange(0, j as int + 1);
            proof {
                assert(prefix1.drop_last() =~= prefix);
                assert(prefix1.last() == s[j as int]);
            }
            let entry = (self.entries[j].0, self.entries[j].1);
            proof {
                assert(entry == s[j as int]);
            }
            if entry.0 == time {
                let ghost old_drained = drained@;
                drained.push(entry.1);
                proof {
                    assert(closing_set(kept@) =~= entries_except(closing_set(prefix1), time));
                    assert forall|intake_id: IntakeId| #[trigger]
                        drained@.contains(intake_id) <==> closing_set(prefix1).contains(
                        (time, intake_id),
                    ) by {
                        if drained@.contains(intake_id) {
                            let k = choose|k: int|
                                0 <= k < drained@.len() && drained@[k] == intake_id;
                            if k < old_drained.len() {
                                assert(old_drained[k] == intake_id);
                                assert(old_drained.contains(intake_id));
                            } else {
                                assert(intake_id == entry.1);
                                assert(closing_set(prefix1).contains((time, intake_id)));
                            }
                        }
                        if closing_set(prefix1).contains((time, intake_id)) {
                            if intake_id == entry.1 {
                                assert(drained@[drained@.len() - 1] == intake_id);
                            } else {
                                assert(closing_set(prefix).contains((time, intake_id)));
                                assert(old_drained.contains(intake_id));
                                let k = choose|k: int|
                                    0 <= k < old_drained.len() && old_drained[k] == intake_id;
                                assert(drained@[k] == intake_id);
                            }
                        }
                    }
                }
            } else {
                proof {
                    assert(closing_set(kept@).insert(entry) =~= entries_except(
                        closing_set(prefix1),
                        time,
                    ));
                    assert(kept@.push(entry).drop_last() =~= kept@);
                    assert(kept@.push(entry).last() == entry);
                    assert forall|intake_id: IntakeId| #[trigger]
                        drained@.contains(intake_id) <==> closing_set(prefix1).contains(
                        (time, intake_id),
                    ) by {
                        assert((time, intake_id) != entry);
                    }
                }
                kept.push(entry);
            }
            j = j + 1;
        }
        proof {
            assert(s.subrange(0, s.len() as int) =~= s);
        }
        self.entries = kept;
        drained
    }
}

} // verus!
