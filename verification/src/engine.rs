//! The intake lifecycle engine: the one component that mutates the stores.
//!
//! Every operation validates all of its preconditions against the current
//! state before it writes anything, so a failed operation returns a typed
//! error and leaves the state untouched. The meaning of each operation is
//! written down once, as a specification function from an abstract state to
//! an abstract state, and every executable operation is proved to match it.

use vstd::prelude::*;

use crate::applications::AcceptedApplications;
use crate::applications::ApplicationKey;
use crate::applications::ApplicationLedger;
use crate::applications::keys_of_intake;
use crate::closing::ClosingEntry;
use crate::closing::ClosingIndex;
use crate::closing::entries_except;
use crate::directory::InstitutionDirectory;
use crate::directory::ensure_institution_admin;
use crate::directory::spec_ensure_admin;
use crate::errors::Error;
use crate::intake::ApplicationView;
use crate::intake::IntakeApplication;
use crate::intake::IntakeId;
use crate::intake::IntakeInfo;
use crate::intake::IntakeStatus;
use crate::intake::NewIntakeParam;
use crate::intake::effective_status;
use crate::intake::effective_status_of;
use crate::intake::valid_intake_info;
use crate::intake::valid_intake_params;
use crate::intake::with_status;
use crate::primitives::AccountId;
use crate::primitives::BlockNumber;
use crate::primitives::UniqId;
use crate::registry::IntakeRegistry;
use crate::umap::UniMap;

verus! {

/// A lifecycle event, appended to the engine's log when an operation
/// succeeds.
#[derive(Clone, Copy, PartialEq, Eq, Structural, Debug)]
pub enum Event {
    /// A new intake was announced.
    NewIntakeAnnounced(IntakeId),
    /// An applicant submitted an application.
    AppliedForIntake(IntakeId, AccountId),
    /// An applicant withdrew an application.
    ApplicationWithdrawn(IntakeId, AccountId),
    /// The institution accepted an application.
    ApplicationAccepted(IntakeId, AccountId),
    /// The institution finalised the intake.
    IntakeFinalised(IntakeId),
}

/// The abstract state of the engine: the four keyed stores, the convenience
/// pointer to each institution's latest intake, and the event log.
#[verifier::ext_equal]
pub ghost struct EngineView {
    pub intakes: Map<IntakeId, IntakeInfo>,
    pub closing: Set<ClosingEntry>,
    pub applications: Map<ApplicationKey, ApplicationView>,
    pub accepted: Set<ApplicationKey>,
    pub last_intake: Map<UniqId, IntakeId>,
    pub events: Seq<Event>,
}

/// The state a freshly constructed engine has.
pub open spec fn spec_init() -> EngineView {
    EngineView {
        intakes: Map::empty(),
        closing: Set::empty(),
        applications: Map::empty(),
        accepted: Set::empty(),
        last_intake: Map::empty(),
        events: Seq::empty(),
    }
}

/// Every registered intake satisfies the announcement bounds.
pub open spec fn all_intakes_valid(intakes: Map<IntakeId, IntakeInfo>) -> bool {
    forall|intake_id: IntakeId| #[trigger]
        intakes.dom().contains(intake_id) ==> valid_intake_info(intakes[intake_id])
}

/// The status a newly announced intake starts in: announcing at or after the
/// opening time opens the window at once.
pub open spec fn initial_status(now: BlockNumber, opens: BlockNumber) -> IntakeStatus {
    if now >= opens {
        IntakeStatus::IntakeOngoing
    } else {
        IntakeStatus::IntakePending
    }
}

/// What announcing an intake does. On success the intake is registered with
/// its initial status, indexed under its closing time, and remembered as the
/// institution's latest intake.
pub open spec fn spec_announce(
    s: EngineView,
    directory: Map<UniqId, AccountId>,
    caller: AccountId,
    intake_id: IntakeId,
    university_id: UniqId,
    params: NewIntakeParam,
    now: BlockNumber,
) -> (EngineView, Result<(), Error>) {
    match spec_ensure_admin(directory, caller, university_id) {
        Err(e) => (s, Err(e)),
        Ok(()) => if s.intakes.dom().contains(intake_id) {
            (s, Err(Error::IntakeAlreadyExists))
        } else if !valid_intake_params(params) {
            (s, Err(Error::InvalidParameter))
        } else {
            let info = IntakeInfo {
                application_opens: params.application_opens,
                application_closes: params.application_closes,
                max_applicants: params.max_applicants,
                max_accepted: params.max_accepted,
                status: initial_status(now, params.application_opens),
            };
            (
                EngineView {
                    intakes: s.intakes.insert(intake_id, info),
                    closing: s.closing.insert((params.application_closes, intake_id)),
                    last_intake: s.last_intake.insert(university_id, intake_id),
                    events: s.events.push(Event::NewIntakeAnnounced(intake_id)),
                    ..s
                },
                Ok(()),
            )
        },
    }
}

/// What applying for an intake does. The stored `applied_on` stamp is always
/// the time of the call; the value the caller supplied is discarded.
pub open spec fn spec_apply(
    s: EngineView,
    caller: AccountId,
    intake_id: IntakeId,
    document: Seq<u8>,
    now: BlockNumber,
) -> (EngineView, Result<(), Error>) {
    if !s.intakes.dom().contains(intake_id) {
        (s, Err(Error::NoSuchIntake))
    } else if !(effective_status(s.intakes[intake_id], now) is IntakeOngoing) {
        (s, Err(Error::IntakeClosed))
    } else if s.applications.dom().contains((intake_id, caller)) {
        (s, Err(Error::DuplicateApplication))
    } else {
        (
            EngineView {
                applications: s.applications.insert(
                    (intake_id, caller),
                    ApplicationView { applied_on: now, info: document },
                ),
                events: s.events.push(Event::AppliedForIntake(intake_id, caller)),
                ..s
            },
            Ok(()),
        )
    }
}

/// What withdrawing an application does. Withdrawal is permitted only while
/// the window is effectively ongoing.
pub open spec fn spec_withdraw(
    s: EngineView,
    caller: AccountId,
    intake_id: IntakeId,
    now: BlockNumber,
) -> (EngineView, Result<(), Error>) {
    if !s.applications.dom().contains((intake_id, caller)) {
        (s, Err(Error::NoSuchApplication))
    } else if !s.intakes.dom().contains(intake_id) {
        (s, Err(Error::NoSuchIntake))
    } else if !(effective_status(s.intakes[intake_id], now) is IntakeOngoing) {
        (s, Err(Error::IntakeClosed))
    } else {
        (
            EngineView {
                applications: s.applications.remove((intake_id, caller)),
                events: s.events.push(Event::ApplicationWithdrawn(intake_id, caller)),
                ..s
            },
            Ok(()),
        )
    }
}

/// What accepting an application does. Acceptance happens only after the
/// window has closed, at most once per applicant, and only for applicants
/// who applied.
pub open spec fn spec_accept(
    s: EngineView,
    directory: Map<UniqId, AccountId>,
    caller: AccountId,
    intake_id: IntakeId,
    student_id: AccountId,
) -> (EngineView, Result<(), Error>) {
    match spec_ensure_admin(directory, caller, intake_id.university_id) {
        Err(e) => (s, Err(e)),
        Ok(()) => if !s.intakes.dom().contains(intake_id) {
            (s, Err(Error::NoSuchIntake))
        } else if !(s.intakes[intake_id].status is IntakeClosed) {
            (s, Err(Error::IntakeOngoing))
        } else if !s.applications.dom().contains((intake_id, student_id)) {
            (s, Err(Error::NoSuchApplication))
        } else if s.accepted.contains((intake_id, student_id)) {
            (s, Err(Error::DuplicateAcceptance))
        } else {
            (
                EngineView {
                    accepted: s.accepted.insert((intake_id, student_id)),
                    events: s.events.push(Event::ApplicationAccepted(intake_id, student_id)),
                    ..s
                },
                Ok(()),
            )
        },
    }
}

/// What finalising an intake does. On success the status becomes terminal and
/// every remaining application row for the intake is purged; the accepted
/// store is never touched.
pub open spec fn spec_finalise(
    s: EngineView,
    directory: Map<UniqId, AccountId>,
    caller: AccountId,
    intake_id: IntakeId,
) -> (EngineView, Result<(), Error>) {
    match spec_ensure_admin(directory, caller, intake_id.university_id) {
        Err(e) => (s, Err(e)),
        Ok(()) => if !s.intakes.dom().contains(intake_id) {
            (s, Err(Error::NoSuchIntake))
        } else if !(s.intakes[intake_id].status is IntakeClosed) {
            (s, Err(Error::IntakeNotClosed))
        } else {
            (
                EngineView {
                    intakes: s.intakes.insert(
                        intake_id,
                        with_status(s.intakes[intake_id], IntakeStatus::IntakeFinalised),
                    ),
                    applications: s.applications.remove_keys(keys_of_intake(intake_id)),
                    events: s.events.push(Event::IntakeFinalised(intake_id)),
                    ..s
                },
                Ok(()),
            )
        },
    }
}

/// What the scheduler sweep does at one time step: every intake indexed under
/// `current_time` and still registered becomes `IntakeClosed`, and the index
/// entries for `current_time` are drained. A drained id without a registered
/// intake is tolerated as a no-op.
pub open spec fn spec_sweep(s: EngineView, current_time: BlockNumber) -> EngineView {
    EngineView {
        intakes: Map::new(
            |intake_id: IntakeId| s.intakes.dom().contains(intake_id),
            |intake_id: IntakeId|
                if s.closing.contains((current_time, intake_id)) {
                    with_status(s.intakes[intake_id], IntakeStatus::IntakeClosed)
                } else {
                    s.intakes[intake_id]
                },
        ),
        closing: entries_except(s.closing, current_time),
        ..s
    }
}

/// Orchestrates the intake lifecycle. It exclusively owns the stores below;
/// the institution directory is only read, through the reference each
/// operation takes.
pub struct IntakeLifecycleEngine {
    intakes: IntakeRegistry,
    closing: ClosingIndex,
    applications: ApplicationLedger,
    accepted: AcceptedApplications,
    last_intake: UniMap<IntakeId>,
    events: Vec<Event>,
}

impl View for IntakeLifecycleEngine {
    type V = EngineView;

    closed spec fn view(&self) -> EngineView {
        EngineView {
            intakes: self.intakes@,
            closing: self.closing@,
            applications: self.applications@,
            accepted: self.accepted@,
            last_intake: self.last_intake@,
            events: self.events@,
        }
    }
}

impl IntakeLifecycleEngine {
    /// The stores are well formed and every registered intake satisfies the
    /// announcement bounds. Constructors establish this and every operation
    /// preserves it.
    pub closed spec fn wf(&self) -> bool {
        &&& self.intakes.wf()
        &&& self.applications.wf()
        &&& self.last_intake.wf()
        &&& all_intakes_valid(self.intakes@)
    }

    /// A fresh engine with empty stores.
    pub fn new() -> (r: Self)
        ensures
            r.wf(),
            r@ == spec_init(),
    {
        let engine = IntakeLifecycleEngine {
            intakes: IntakeRegistry::new(),
            closing: ClosingIndex::new(),
            applications: ApplicationLedger::new(),
            accepted: AcceptedApplications::new(),
            last_intake: UniMap::new(),
            events: Vec::new(),
        };
        proof {
            assert(engine@ =~~= spec_init());
        }
        engine
    }

    /// Announces a new intake for an institution.
    pub fn announce_intake_application(
        &mut self,
        directory: &InstitutionDirectory,
        caller: AccountId,
        intake_id: IntakeId,
        university_id: UniqId,
        params: NewIntakeParam,
        now: BlockNumber,
    ) -> (r: Result<(), Error>)
        requires
            old(self).wf(),
            directory.wf(),
        ensures
            final(self).wf(),
            r == spec_announce(
                old(self)@,
                directory@,
                caller,
                intake_id,
                university_id,
                params,
                now,
            ).1,
            final(self)@ == spec_announce(
                old(self)@,
                directory@,
                caller,
                intake_id,
                university_id,
                params,
                now,
            ).0,
    {
        if let Err(e) = ensure_institution_admin(directory, caller, university_id) {
            return Err(e);
        }
        if self.intakes.contains(intake_id) {
            return Err(Error::IntakeAlreadyExists);
        }
        let params_ok = params.application_closes > params.application_opens
            && params.max_applicants > 0 && params.max_accepted > 0 && params.max_accepted
            <= params.max_applicants;
        if !params_ok {
            return Err(Error::InvalidParameter);
        }
        let status = if now >= params.application_opens {
            IntakeStatus::IntakeOngoing
        } else {
            IntakeStatus::IntakePending
        };
        let info = IntakeInfo {
            application_opens: params.application_opens,
            application_closes: params.application_closes,
            max_applicants: params.max_applicants,
            max_accepted: params.max_accepted,
            status,
        };
        self.intakes.insert_new(intake_id, info);
        self.closing.insert(params.application_closes, intake_id);
        self.last_intake.upsert(university_id, intake_id);
        self.events.push(Event::NewIntakeAnnounced(intake_id));
        proof {
            assert(all_intakes_valid(self.intakes@)) by {
                assert(forall|id: IntakeId| #[trigger]
                    self.intakes@.dom().contains(id) ==> (id == intake_id || old(
                        self,
                    ).intakes@.dom().contains(id)));
            }
            assert(self@ =~~= spec_announce(
                old(self)@,
                directory@,
                caller,
                intake_id,
                university_id,
                params,
                now,
            ).0);
        }
        Ok(())
    }

    /// Submits an application for an ongoing intake. The `applied_on` field
    /// of the submission is overwritten with `now`; a caller cannot backdate
    /// an application.
    pub fn apply_for_intake(
        &mut self,
        caller: AccountId,
        intake_id: IntakeId,
        application: IntakeApplication,
        now: BlockNumber,
    ) -> (r: Result<(), Error>)
        requires
            old(self).wf(),
        ensures
            final(self).wf(),
            r == spec_apply(old(self)@, caller, intake_id, application@.info, now).1,
            final(self)@ == spec_apply(old(self)@, caller, intake_id, application@.info, now).0,
    {
        let info = match self.intakes.get(intake_id) {
            None => {
                return Err(Error::NoSuchIntake);
            },
            Some(info) => info,
        };
        let status = effective_status_of(&info, now);
        if !matches!(status, IntakeStatus::IntakeOngoing) {
            return Err(Error::IntakeClosed);
        }
        if self.applications.contains(intake_id, caller) {
            return Err(Error::DuplicateApplication);
        }
        let stamped = IntakeApplication { applied_on: now, info: application.info };
        self.applications.insert_new(intake_id, caller, stamped);
        self.events.push(Event::AppliedForIntake(intake_id, caller));
        proof {
            assert(self@ =~~= spec_apply(
                old(self)@,
                caller,
                intake_id,
                application@.info,
                now,
            ).0);
        }
        Ok(())
    }

    /// Withdraws the caller's application while the intake is still ongoing.
    pub fn withdraw_application(
        &mut self,
        caller: AccountId,
        intake_id: IntakeId,
        now: BlockNumber,
    ) -> (r: Result<(), Error>)
        requires
            old(self).wf(),
        ensures
            final(self).wf(),
            r == spec_withdraw(old(self)@, caller, intake_id, now).1,
            final(self)@ == spec_withdraw(old(self)@, caller, intake_id, now).0,
    {
        if !self.applications.contains(intake_id, caller) {
            return Err(Error::NoSuchApplication);
        }
        let info = match self.intakes.get(intake_id) {
            None => {
                return Err(Error::NoSuchIntake);
            },
            Some(info) => info,
        };
        let status = effective_status_of(&info, now);
        if !matches!(status, IntakeStatus::IntakeOngoing) {
            return Err(Error::IntakeClosed);
        }
        self.applications.remove(intake_id, caller);
        self.events.push(Event::ApplicationWithdrawn(intake_id, caller));
        proof {
            assert(self@ =~~= spec_withdraw(old(self)@, caller, intake_id, now).0);
        }
        Ok(())
    }

    /// Records the institution's acceptance of one application, after the
    /// window has closed.
    pub fn accept_application(
        &mut self,
        directory: &InstitutionDirectory,
        caller: AccountId,
        intake_id: IntakeId,
        student_id: AccountId,
    ) -> (r: Result<(), Error>)
        requires
            old(self).wf(),
            directory.wf(),
        ensures
            final(self).wf(),
            r == spec_accept(old(self)@, directory@, caller, intake_id, student_id).1,
            final(self)@ == spec_accept(old(self)@, directory@, caller, intake_id, student_id).0,
    {
        if let Err(e) = ensure_institution_admin(directory, caller, intake_id.university_id) {
            return Err(e);
        }
        let info = match self.intakes.get(intake_id) {
            None => {
                return Err(Error::NoSuchIntake);
            },
            Some(info) => info,
        };
        if !matches!(info.status, IntakeStatus::IntakeClosed) {
            return Err(Error::IntakeOngoing);
        }
        if !self.applications.contains(intake_id, student_id) {
            return Err(Error::NoSuchApplication);
        }
        if self.accepted.contains(intake_id, student_id) {
            return Err(Error::DuplicateAcceptance);
        }
        self.accepted.insert(intake_id, student_id);
        self.events.push(Event::ApplicationAccepted(intake_id, student_id));
        proof {
            assert(self@ =~~= spec_accept(
                old(self)@,
                directory@,
                caller,
                intake_id,
                student_id,
            ).0);
        }
        Ok(())
    }

    /// Finalises a closed intake: the status becomes terminal and every
    /// remaining application row for the intake is purged in bulk. Accepted
    /// applicants stay queryable, in their separate store.
    pub fn finalise_intake(
        &mut self,
        directory: &InstitutionDirectory,
        caller: AccountId,
        intake_id: IntakeId,
    ) -> (r: Result<(), Error>)
        requires
            old(self).wf(),
            directory.wf(),
        ensures
            final(self).wf(),
            r == spec_finalise(old(self)@, directory@, caller, intake_id).1,
            final(self)@ == spec_finalise(old(self)@, directory@, caller, intake_id).0,
    {
        if let Err(e) = ensure_institution_admin(directory, caller, intake_id.university_id) {
            return Err(e);
        }
        let info = match self.intakes.get(intake_id) {
            None => {
                return Err(Error::NoSuchIntake);
            },
            Some(info) => info,
        };
        if !matches!(info.status, IntakeStatus::IntakeClosed) {
            return Err(Error::IntakeNotClosed);
        }
        self.intakes.set_status(intake_id, IntakeStatus::IntakeFinalised);
        self.applications.remove_intake(intake_id);
        self.events.push(Event::IntakeFinalised(intake_id));
        proof {
            assert(all_intakes_valid(self.intakes@)) by {
                assert(forall|id: IntakeId| #[trigger]
                    self.intakes@.dom().contains(id) ==> old(self).intakes@.dom().contains(id));
            }
            assert(self@ =~~= spec_finalise(old(self)@, directory@, caller, intake_id).0);
        }
        Ok(())
    }

    /// The scheduler's expiry sweep. The host ledger invokes it exactly once
    /// per discrete time step, before the user-submitted operations of that
    /// step.
    #[verifier::loop_isolation(false)]
    pub fn sweep_expired(&mut self, current_time: BlockNumber)
        requires
            old(self).wf(),
        ensures
            final(self).wf(),
            final(self)@ == spec_sweep(old(self)@, current_time),
    {
        let drained = self.closing.drain_at(current_time);
        let mut i: usize = 0;
        while i < drained.len()
            invariant
                i <= drained@.len(),
                self.intakes.wf(),
                self.applications@ == old(self)@.applications,
                self.applications.wf(),
                self.last_intake@ == old(self)@.last_intake,
                self.last_intake.wf(),
                self.accepted@ == old(self)@.accepted,
                self.closing@ == entries_except(old(self)@.closing, current_time),
                self.events@ == old(self)@.events,
                self.intakes@.dom() == old(self)@.intakes.dom(),
                forall|id: IntakeId| #[trigger] self.intakes@.dom().contains(id)
                    ==> self.intakes@[id] == if drained@.subrange(0, i as int).contains(id) {
                        with_status(old(self)@.intakes[id], IntakeStatus::IntakeClosed)
                    } else {
                        old(self)@.intakes[id]
                    },
            decreases drained@.len() - i,
        {
            let intake_id = drained[i];
            proof {
                assert(drained@.subrange(0, i as int + 1).drop_last() =~= drained@.subrange(
                    0,
                    i as int,
                ));
            }
            if self.intakes.contains(intake_id) {
                self.intakes.set_status(intake_id, IntakeStatus::IntakeClosed);
                proof {
                    assert(self.intakes@.dom() =~= old(self)@.intakes.dom());
                    assert forall|id: IntakeId| #[trigger] self.intakes@.dom().contains(id)
                        implies self.intakes@[id] == if drained@.subrange(
                        0,
                        i as int + 1,
                    ).contains(id) {
                        with_status(old(self)@.intakes[id], IntakeStatus::IntakeClosed)
                    } else {
                        old(self)@.intakes[id]
                    } by {
                        if drained@.subrange(0, i as int + 1).contains(id) {
                            if id != intake_id {
                                let k = choose|k: int|
                                    0 <= k < i + 1 && #[trigger] drained@.subrange(
                                        0,
                                        i as int + 1,
                                    )[k] == id;
                                assert(drained@.subrange(0, i as int)[k] == id);
                            }
                        } else {
                            assert(id != intake_id) by {
                                assert(drained@.subrange(0, i as int + 1)[i as int]
                                    == intake_id);
                            }
                        }
                    }
                }
            } else {
                proof {
                    assert forall|id: IntakeId| #[trigger] self.intakes@.dom().contains(id)
                        implies self.intakes@[id] == if drained@.subrange(
                        0,
                        i as int + 1,
                    ).contains(id) {
                        with_status(old(self)@.intakes[id], IntakeStatus::IntakeClosed)
                    } else {
                        old(self)@.intakes[id]
                    } by {
                        if drained@.subrange(0, i as int + 1).contains(id) && !drained@.subrange(
                            0,
                            i as int,
                        ).contains(id) {
                            assert(id == intake_id) by {
                                let k = choose|k: int|
                                    0 <= k < i + 1 && #[trigger] drained@.subrange(
                                        0,
                                        i as int + 1,
                                    )[k] == id;
                                if k < i {
                                    assert(drained@.subrange(0, i as int)[k] == id);
                                }
                            }
                            assert(drained@.contains(id)) by {
                                assert(drained@[i as int] == id);
                            }
                            assert(false);
                        }
                    }
                }
            }
            i = i + 1;
        }
        proof {
            assert(drained@.subrange(0, drained@.len() as int) =~= drained@);
            assert(all_intakes_valid(self.intakes@));
            assert(self@ =~~= spec_sweep(old(self)@, current_time));
        }
    }

    /// Read-only query: the stored record of an intake. The record keeps the
    /// status as last written; whether the window counts as open at a given
    /// time is read off the record with [`effective_status`], since a stored
    /// `IntakePending` is never rewritten by the mere passing of the opening
    /// time.
    pub fn get_intake(&self, intake_id: IntakeId) -> (r: Option<IntakeInfo>)
        requires
            self.wf(),
        ensures
            r == if self@.intakes.dom().contains(intake_id) {
                Some(self@.intakes[intake_id])
            } else {
                None::<IntakeInfo>
            },
    {
        self.intakes.get(intake_id)
    }

    /// The provider interface other modules consume; the same record
    /// `get_intake` returns.
    pub fn intake_info(&self, intake_id: IntakeId) -> (r: Option<IntakeInfo>)
        requires
            self.wf(),
        ensures
            r == if self@.intakes.dom().contains(intake_id) {
                Some(self@.intakes[intake_id])
            } else {
                None::<IntakeInfo>
            },
    {
        self.get_intake(intake_id)
    }

    /// Read-only query: one applicant's stored application.
    pub fn get_application(&self, intake_id: IntakeId, applicant: AccountId) -> (r: Option<
        &IntakeApplication,
    >)
        requires
            self.wf(),
        ensures
            match r {
                Some(application) => self@.applications.dom().contains((intake_id, applicant))
                    && application@ == self@.applications[(intake_id, applicant)],
                None => !self@.applications.dom().contains((intake_id, applicant)),
            },
    {
        self.applications.get(intake_id, applicant)
    }

    /// Read-only query: was this applicant accepted for this intake?
    pub fn get_accepted_application(&self, intake_id: IntakeId, student_id: AccountId) -> (r:
        bool)
        requires
            self.wf(),
        ensures
            r == self@.accepted.contains((intake_id, student_id)),
    {
        self.accepted.contains(intake_id, student_id)
    }

    /// Read-only query: is this intake still indexed under this closing time?
    pub fn get_intake_closing_date(&self, time: BlockNumber, intake_id: IntakeId) -> (r: bool)
        requires
            self.wf(),
        ensures
            r == self@.closing.contains((time, intake_id)),
    {
        self.closing.contains(time, intake_id)
    }

    /// Read-only query: the most recently announced intake of an institution.
    pub fn last_university_intake(&self, university_id: UniqId) -> (r: Option<IntakeId>)
        requires
            self.wf(),
        ensures
            r == if self@.last_intake.dom().contains(university_id) {
                Some(self@.last_intake[university_id])
            } else {
                None::<IntakeId>
            },
    {
        self.last_intake.get(university_id)
    }

    /// The log of lifecycle events, oldest first.
    pub fn events(&self) -> (r: &Vec<Event>)
        ensures
            r@ == self@.events,
    {
        &self.events
    }
}

} // verus!
