//! The per-applicant application store, keyed by (intake, applicant), and the
//! separate store of accepted applicants.

use vstd::prelude::*;

use crate::intake::ApplicationView;
use crate::intake::IntakeApplication;
use crate::intake::IntakeId;
use crate::primitives::AccountId;

verus! {

/// A composite application key: which intake, which applicant.
pub type ApplicationKey = (IntakeId, AccountId);

/// The map an entry sequence denotes, with stored applications abstracted to
/// their views.
pub open spec fn app_assoc_map(s: Seq<(ApplicationKey, IntakeApplication)>) -> Map<
    ApplicationKey,
    ApplicationView,
>
    decreases s.len(),
{
    if s.len() == 0 {
        Map::empty()
    } else {
        app_assoc_map(s.drop_last()).insert(s.last().0, s.last().1@)
    }
}

/// No key occurs twice.
pub open spec fn app_distinct_keys(s: Seq<(ApplicationKey, IntakeApplication)>) -> bool {
    forall|i: int, j: int|
        #![trigger s[i], s[j]]
        0 <= i < j < s.len() ==> s[i].0 != s[j].0
}

/// The keys a bulk purge of one intake takes out.
pub open spec fn keys_of_intake(intake_id: IntakeId) -> Set<ApplicationKey> {
    Set::new(|key: ApplicationKey| key.0 == intake_id)
}

proof fn lemma_app_assoc_map_contains(s: Seq<(ApplicationKey, IntakeApplication)>, key: ApplicationKey)
    ensures
        app_assoc_map(s).dom().contains(key) <==> (exists|i: int|
            0 <= i < s.len() && #[trigger] s[i].0 == key),
    decreases s.len(),
{
    if s.len() > 0 {
        lemma_app_assoc_map_contains(s.drop_last(), key);
        if s.last().0 == key {
            assert(s[s.len() - 1].0 == key);
        } else {
            if exists|i: int| 0 <= i < s.len() && #[trigger] s[i].0 == key {
                let i = choose|i: int| 0 <= i < s.len() && #[trigger] s[i].0 == key;
                assert(s.drop_last()[i].0 == key);
            }
            if exists|i: int| 0 <= i < s.drop_last().len() && #[trigger] s.drop_last()[i].0
                == key {
                let i = choose|i: int|
                    0 <= i < s.drop_last().len() && #[trigger] s.drop_last()[i].0 == key;
                assert(s[i].0 == key);
            }
        }
    }
}

proof fn lemma_app_assoc_map_index(
    s: Seq<(ApplicationKey, IntakeApplication)>,
    key: ApplicationKey,
    i: int,
)
    requires
        app_distinct_keys(s),
        0 <= i < s.len(),
        s[i].0 == key,
    ensures
        app_assoc_map(s).dom().contains(key),
        app_assoc_map(s)[key] == s[i].1@,
    decreases s.len(),
{
    if i == s.len() - 1 {
    } else {
        assert(s.drop_last()[i] == s[i]);
        lemma_app_assoc_map_index(s.drop_last(), key, i);
        assert(s.last().0 != key);
    }
}

proof fn lemma_app_assoc_map_push(
    s: Seq<(ApplicationKey, IntakeApplication)>,
    key: ApplicationKey,
    value: IntakeApplication,
)
    ensures
        app_assoc_map(s.push((key, value))) == app_assoc_map(s).insert(key, value@),
{
    assert(s.push((key, value)).drop_last() =~= s);
    assert(s.push((key, value)).last() == (key, value));
}

proof fn lemma_app_assoc_map_remove(s: Seq<(ApplicationKey, IntakeApplication)>, i: int)
    requires
        app_distinct_keys(s),
        0 <= i < s.len(),
    ensures
        app_assoc_map(s.remove(i)) == app_assoc_map(s).remove(s[i].0),
        app_distinct_keys(s.remove(i)),
    decreases s.len(),
{
    let key = s[i].0;
    let t = s.remove(i);
    assert forall|a: int, b: int|
        #![trigger t[a], t[b]]
        0 <= a < b < t.len() implies t[a].0 != t[b].0 by {
        let a0 = if a < i { a } else { a + 1 };
        let b0 = if b < i { b } else { b + 1 };
        assert(t[a] == s[a0]);
        assert(t[b] == s[b0]);
    }
    if i == s.len() - 1 {
        assert(t =~= s.drop_last());
        lemma_app_assoc_map_contains(s.drop_last(), key);
        assert(!app_assoc_map(s.drop_last()).dom().contains(key));
        assert(app_assoc_map(s.drop_last()).insert(key, s.last().1@).remove(key)
            =~= app_assoc_map(s.drop_last()));
    } else {
        assert(t.drop_last() =~= s.drop_last().remove(i));
        assert(s.drop_last()[i] == s[i]);
        lemma_app_assoc_map_remove(s.drop_last(), i);
        assert(t.last() == s.last());
        assert(s.last().0 != key);
        assert(app_assoc_map(s.drop_last()).remove(key).insert(s.last().0, s.last().1@)
            =~= app_assoc_map(s.drop_last()).insert(s.last().0, s.last().1@).remove(key));
    }
}

/// Durable store of submitted applications.
pub struct ApplicationLedger {
    entries: Vec<(ApplicationKey, IntakeApplication)>,
}

impl View for ApplicationLedger {
    type V = Map<ApplicationKey, ApplicationView>;

    closed spec fn view(&self) -> Map<ApplicationKey, ApplicationView> {
        app_assoc_map(self.entries@)
    }
}

impl ApplicationLedger {
    /// Keys are pairwise distinct.
    pub closed spec fn wf(&self) -> bool {
        app_distinct_keys(self.entries@)
    }

    /// An empty ledger.
    pub fn new() -> (r: Self)
        ensures
            r.wf(),
            r@ == Map::<ApplicationKey, ApplicationView>::empty(),
    {
        ApplicationLedger { entries: Vec::new() }
    }

    /// Read access to a stored application.
    #[verifier::loop_isolation(false)]
    pub fn get(&self, intake_id: IntakeId, applicant: AccountId) -> (r: Option<
        &IntakeApplication,
    >)
        requires
            self.wf(),
        ensures
            match r {
                Some(application) => self@.dom().contains((intake_id, applicant))
                    && application@ == self@[(intake_id, applicant)],
                None => !self@.dom().contains((intake_id, applicant)),
            },
    {
        let key = (intake_id, applicant);
        proof {
            lemma_app_assoc_map_contains(self.entries@, key);
        }
        let mut i: usize = 0;
        while i < self.entries.len()
            invariant
                self.wf(),
                i <= self.entries@.len(),
                forall|j: int| 0 <= j < i ==> (#[trigger] self.entries@[j]).0 != key,
            decreases self.entries@.len() - i,
        {
            let entry = &self.entries[i];
            if entry.0.0 == intake_id && entry.0.1 == applicant {
                proof {
                    lemma_app_assoc_map_index(self.entries@, key, i as int);
                }
                return Some(&entry.1);
            }
            i = i + 1;
        }
        None
    }

    /// True exactly when this applicant has an application for this intake.
    pub fn contains(&self, intake_id: IntakeId, applicant: AccountId) -> (r: bool)
        requires
            self.wf(),
        ensures
            r == self@.dom().contains((intake_id, applicant)),
    {
        self.get(intake_id, applicant).is_some()
    }

    /// Records a fresh application.
    pub fn insert_new(
        &mut self,
        intake_id: IntakeId,
        applicant: AccountId,
        application: IntakeApplication,
    )
        requires
            old(self).wf(),
            !old(self)@.dom().contains((intake_id, applicant)),
        ensures
            final(self).wf(),
            final(self)@ == old(self)@.insert((intake_id, applicant), application@),
    {
        let key = (intake_id, applicant);
        proof {
            lemma_app_assoc_map_contains(self.entries@, key);
            lemma_app_assoc_map_push(self.entries@, key, application);
            assert(app_distinct_keys(self.entries@.push((key, application))));
        }
        self.entries.push((key, application));
    }

    /// Deletes one stored application.
    #[verifier::loop_isolation(false)]
    pub fn remove(&mut self, intake_id: IntakeId, applicant: AccountId)
        requires
            old(self).wf(),
            old(self)@.dom().contains((intake_id, applicant)),
        ensures
            final(self).wf(),
            final(self)@ == old(self)@.remove((intake_id, applicant)),
    {
        let key = (intake_id, applicant);
        proof {
            lemma_app_assoc_map_contains(self.entries@, key);
        }
        let mut i: usize = 0;
        while i < self.entries.len()
            invariant
                self.wf(),
                self.entries@ == old(self).entries@,
                i <= self.entries@.len(),
                forall|j: int| 0 <= j < i ==> (#[trigger] self.entries@[j]).0 != key,
                exists|j: int| i <= j < self.entries@.len() && (#[trigger] self.entries@[j]).0
                    == key,
            decreases self.entries@.len() - i,
        {
            let found = {
                let entry = &self.entries[i];
                entry.0.0 == intake_id && entry.0.1 == applicant
            };
            if found {
                proof {
                    lemma_app_assoc_map_remove(self.entries@, i as int);
                }
                self.entries.remove(i);
                return ;
            }
            i = i + 1;
        }
    }

    /// Bulk purge: deletes every stored application for the given intake.
    #[verifier::loop_isolation(false)]
    pub fn remove_intake(&mut self, intake_id: IntakeId)
        requires
            old(self).wf(),
        ensures
            final(self).wf(),
            final(self)@ == old(self)@.remove_keys(keys_of_intake(intake_id)),
    {
        let ghost s = self.entries@;
        let mut kept: Vec<(ApplicationKey, IntakeApplication)> = Vec::new();
        let mut j: usize = 0;
        proof {
            assert(s.subrange(0, 0) =~= Seq::<(ApplicationKey, IntakeApplication)>::empty());
            assert(app_assoc_map(kept@) =~= app_assoc_map(s.subrange(0, 0)).remove_keys(
                keys_of_intake(intake_id),
            ));
        }
        while j < self.entries.len()
            invariant
                self.wf(),
                self.entries@ == s,
                j <= s.len(),
                app_distinct_keys(kept@),
                app_assoc_map(kept@) == app_assoc_map(s.subrange(0, j as int)).remove_keys(
                    keys_of_intake(intake_id),
                ),
                forall|a: int| 0 <= a < kept@.len() ==> app_assoc_map(
                    s.subrange(0, j as int),
                ).dom().contains((#[trigger] kept@[a]).0),
            decreases s.len() - j,
        {
            let ghost prefix = s.subrange(0, j as int);
            let ghost prefix1 = s.subrange(0, j as int + 1);
            proof {
                assert(prefix1.drop_last() =~= prefix);
                assert(prefix1.last() == s[j as int]);
                lemma_app_assoc_map_contains(prefix, s[j as int].0);
                assert(forall|b: int| 0 <= b < j ==> (#[trigger] prefix[b]) == s[b]);
                assert(!app_assoc_map(prefix).dom().contains(s[j as int].0));
            }
            let keep = {
                let entry = &self.entries[j];
                !(entry.0.0 == intake_id)
            };
            if keep {
                let entry_copy = {
                    let entry = &self.entries[j];
                    ((entry.0.0, entry.0.1), entry.1.clone())
                };
                proof {
                    assert(entry_copy.0 == s[j as int].0);
                    assert(entry_copy.1@ == s[j as int].1@);
                    lemma_app_assoc_map_push(kept@, entry_copy.0, entry_copy.1);
                    assert(forall|a: int| 0 <= a < kept@.len() ==> (#[trigger] kept@[a]).0
                        != s[j as int].0);
                    assert(app_distinct_keys(kept@.push((entry_copy.0, entry_copy.1))));
                    assert(app_assoc_map(kept@).insert(entry_copy.0, entry_copy.1@)
                        =~= app_assoc_map(prefix1).remove_keys(keys_of_intake(intake_id)));
                }
                kept.push(entry_copy);
            } else {
                proof {
                    assert(app_assoc_map(kept@) =~= app_assoc_map(prefix1).remove_keys(
                        keys_of_intake(intake_id),
                    ));
                }
            }
            j = j + 1;
        }
        proof {
            assert(s.subrange(0, s.len() as int) =~= s);
        }
        self.entries = kept;
    }
}

/// The set an entry sequence denotes.
pub open spec fn accepted_set(s: Seq<ApplicationKey>) -> Set<ApplicationKey>
    decreases s.len(),
{
    if s.len() == 0 {
        Set::empty()
    } else {
        accepted_set(s.drop_last()).insert(s.last())
    }
}

proof fn lemma_accepted_set_contains(s: Seq<ApplicationKey>, key: ApplicationKey)
    ensures
        accepted_set(s).contains(key) <==> s.contains(key),
    decreases s.len(),
{
    if s.len() > 0 {
        lemma_accepted_set_contains(s.drop_last(), key);
        if s.last() == key {
            assert(s[s.len() - 1] == key);
        } else {
            if s.contains(key) {
                let i = choose|i: int| 0 <= i < s.len() && s[i] == key;
                assert(s.drop_last()[i] == key);
            }
            if s.drop_last().contains(key) {
                let i = choose|i: int| 0 <= i < s.drop_last().len() && s.drop_last()[i] == key;
                assert(s[i] == key);
            }
        }
    }
}

/// Presence markers for accepted applicants. Never purged; rows persist after
/// the intake is finalised.
pub struct AcceptedApplications {
    entries: Vec<ApplicationKey>,
}

impl View for AcceptedApplications {
    type V = Set<ApplicationKey>;

    closed spec fn view(&self) -> Set<ApplicationKey> {
        accepted_set(self.entries@)
    }
}

impl AcceptedApplications {
    /// An empty store.
    pub fn new() -> (r: Self)
        ensures
            r@ == Set::<ApplicationKey>::empty(),
    {
        AcceptedApplications { entries: Vec::new() }
    }

    /// True exactly when the applicant was accepted for the intake.
    #[verifier::loop_isolation(false)]
    pub fn contains(&self, intake_id: IntakeId, applicant: AccountId) -> (r: bool)
        ensures
            r == self@.contains((intake_id, applicant)),
    {
        let key = (intake_id, applicant);
        proof {
            lemma_accepted_set_contains(self.entries@, key);
        }
        let mut i: usize = 0;
        while i < self.entries.len()
            invariant
                i <= self.entries@.len(),
                forall|j: int| 0 <= j < i ==> #[trigger] self.entries@[j] != key,
            decreases self.entries@.len() - i,
        {
            let entry = &self.entries[i];
            if entry.0 == intake_id && entry.1 == applicant {
                assert(self.entries@[i as int] == key);
                assert(self.entries@.contains(key));
                return true;
            }
            i = i + 1;
        }
        proof {
            if self.entries@.contains(key) {
                let j = choose|j: int|
                    0 <= j < self.entries@.len() && self.entries@[j] == key;
                assert(self.entries@[j] == key);
            }
        }
        false
    }

    /// Records an acceptance.
    pub fn insert(&mut self, intake_id: IntakeId, applicant: AccountId)
        ensures
            final(self)@ == old(self)@.insert((intake_id, applicant)),
    {
        let key = (intake_id, applicant);
        proof {
            assert(self.entries@.push(key).drop_last() =~= self.entries@);
            assert(self.entries@.push(key).last() == key);
        }
        self.entries.push(key);
    }
}

} // verus!
