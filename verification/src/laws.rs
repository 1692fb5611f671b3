//! Laws of the intake lifecycle, stated over the engine's abstract state and
//! proved once and for all. Each executable operation is already proved to
//! match its specification function, so these laws carry over to every run of
//! the engine.

use vstd::prelude::*;

use crate::applications::ApplicationKey;
use crate::directory::spec_ensure_admin;
use crate::engine::EngineView;
use crate::engine::spec_accept;
use crate::engine::spec_announce;
use crate::engine::spec_apply;
use crate::engine::spec_finalise;
use crate::engine::spec_sweep;
use crate::engine::spec_withdraw;
use crate::errors::Error;
use crate::intake::IntakeId;
use crate::intake::IntakeStatus;
use crate::intake::NewIntakeParam;
use crate::intake::effective_status;
use crate::intake::valid_intake_params;
use crate::primitives::AccountId;
use crate::primitives::BlockNumber;
use crate::primitives::UniqId;

verus! {

/// Announcing with valid bounds, by the institution's administrator, under a
/// fresh id, always succeeds, and the stored status is `IntakePending` when
/// the call happens before the opening time and `IntakeOngoing` otherwise.
pub proof fn lemma_announce_valid_succeeds(
    s: EngineView,
    directory: Map<UniqId, AccountId>,
    caller: AccountId,
    intake_id: IntakeId,
    university_id: UniqId,
    params: NewIntakeParam,
    now: BlockNumber,
)
    requires
        spec_ensure_admin(directory, caller, university_id) is Ok,
        !s.intakes.dom().contains(intake_id),
        valid_intake_params(params),
    ensures
        spec_announce(s, directory, caller, intake_id, university_id, params, now).1
            == Ok::<(), Error>(()),
        spec_announce(
            s,
            directory,
            caller,
            intake_id,
            university_id,
            params,
            now,
        ).0.intakes.dom().contains(intake_id),
        spec_announce(
            s,
            directory,
            caller,
            intake_id,
            university_id,
            params,
            now,
        ).0.intakes[intake_id].status == if now < params.application_opens {
            IntakeStatus::IntakePending
        } else {
            IntakeStatus::IntakeOngoing
        },
{
}

/// Announcing with a capacity bound that admits more acceptances than
/// applicants is always refused with `InvalidParameter`, whatever the other
/// fields hold, and changes nothing.
pub proof fn lemma_announce_capacity_rejected(
    s: EngineView,
    directory: Map<UniqId, AccountId>,
    caller: AccountId,
    intake_id: IntakeId,
    university_id: UniqId,
    params: NewIntakeParam,
    now: BlockNumber,
)
    requires
        spec_ensure_admin(directory, caller, university_id) is Ok,
        !s.intakes.dom().contains(intake_id),
        params.max_accepted > params.max_applicants,
    ensures
        spec_announce(s, directory, caller, intake_id, university_id, params, now) == (
            s,
            Err::<(), Error>(Error::InvalidParameter),
        ),
{
}

/// A successful application is stamped with the time of the call — whatever
/// `applied_on` the submission carried — and applying again for the same
/// (intake, applicant) pair, while the window is still open, is refused with
/// `DuplicateApplication` and changes nothing.
pub proof fn lemma_apply_stamps_and_deduplicates(
    s: EngineView,
    caller: AccountId,
    intake_id: IntakeId,
    document: Seq<u8>,
    now: BlockNumber,
    second_document: Seq<u8>,
    later: BlockNumber,
)
    requires
        spec_apply(s, caller, intake_id, document, now).1 is Ok,
        effective_status(s.intakes[intake_id], later) is IntakeOngoing,
    ensures
        spec_apply(s, caller, intake_id, document, now).0.applications[(
            intake_id,
            caller,
        )].applied_on == now,
        spec_apply(
            spec_apply(s, caller, intake_id, document, now).0,
            caller,
            intake_id,
            second_document,
            later,
        ) == (
            spec_apply(s, caller, intake_id, document, now).0,
            Err::<(), Error>(Error::DuplicateApplication),
        ),
{
}

/// Withdrawing after the intake's status has become `IntakeClosed` is refused
/// with `IntakeClosed` and changes nothing, even though the application still
/// exists.
pub proof fn lemma_withdraw_after_close_rejected(
    s: EngineView,
    caller: AccountId,
    intake_id: IntakeId,
    now: BlockNumber,
)
    requires
        s.applications.dom().contains((intake_id, caller)),
        s.intakes.dom().contains(intake_id),
        s.intakes[intake_id].status is IntakeClosed,
    ensures
        spec_withdraw(s, caller, intake_id, now) == (s, Err::<(), Error>(Error::IntakeClosed)),
{
}

/// The sweep at time `t` closes every registered intake indexed under `t`,
/// and registers or deletes nothing.
pub proof fn lemma_sweep_closes_due_intake(s: EngineView, intake_id: IntakeId, t: BlockNumber)
    requires
        s.intakes.dom().contains(intake_id),
        s.closing.contains((t, intake_id)),
    ensures
        spec_sweep(s, t).intakes.dom() == s.intakes.dom(),
        spec_sweep(s, t).intakes[intake_id].status is IntakeClosed,
{
    assert(spec_sweep(s, t).intakes.dom() =~= s.intakes.dom());
}

/// The sweep is idempotent: a second sweep at the same time changes nothing,
/// because the first one already drained every index entry for that time.
pub proof fn lemma_sweep_idempotent(s: EngineView, t: BlockNumber)
    ensures
        spec_sweep(spec_sweep(s, t), t) == spec_sweep(s, t),
{
    let once = spec_sweep(s, t);
    let twice = spec_sweep(once, t);
    assert forall|intake_id: IntakeId| !(#[trigger] once.closing.contains((t, intake_id))) by {}
    assert(twice.intakes =~= once.intakes);
    assert(twice.closing =~= once.closing);
    assert(twice =~~= once);
}

/// Accepting before the window has closed is refused with `IntakeOngoing`
/// and changes nothing.
pub proof fn lemma_accept_before_close_rejected(
    s: EngineView,
    directory: Map<UniqId, AccountId>,
    caller: AccountId,
    intake_id: IntakeId,
    student_id: AccountId,
)
    requires
        spec_ensure_admin(directory, caller, intake_id.university_id) is Ok,
        s.intakes.dom().contains(intake_id),
        s.intakes[intake_id].status is IntakeOngoing,
    ensures
        spec_accept(s, directory, caller, intake_id, student_id) == (
            s,
            Err::<(), Error>(Error::IntakeOngoing),
        ),
{
}

/// Accepting an applicant who never applied is refused with
/// `NoSuchApplication` and changes nothing.
pub proof fn lemma_accept_without_application_rejected(
    s: EngineView,
    directory: Map<UniqId, AccountId>,
    caller: AccountId,
    intake_id: IntakeId,
    student_id: AccountId,
)
    requires
        spec_ensure_admin(directory, caller, intake_id.university_id) is Ok,
        s.intakes.dom().contains(intake_id),
        s.intakes[intake_id].status is IntakeClosed,
        !s.applications.dom().contains((intake_id, student_id)),
    ensures
        spec_accept(s, directory, caller, intake_id, student_id) == (
            s,
            Err::<(), Error>(Error::NoSuchApplication),
        ),
{
}

/// A successful finalisation purges every remaining application row of the
/// intake — and only those — leaves the accepted store untouched, and makes
/// the status terminal.
pub proof fn lemma_finalise_purges_only_this_intake(
    s: EngineView,
    directory: Map<UniqId, AccountId>,
    caller: AccountId,
    intake_id: IntakeId,
)
    requires
        spec_finalise(s, directory, caller, intake_id).1 is Ok,
    ensures
        forall|applicant: AccountId|
            !(#[trigger] spec_finalise(s, directory, caller, intake_id).0.applications.dom().contains(
                (intake_id, applicant),
            )),
        forall|key: ApplicationKey|
            key.0 != intake_id ==> (#[trigger] spec_finalise(
                s,
                directory,
                caller,
                intake_id,
            ).0.applications.dom().contains(key) <==> s.applications.dom().contains(key)),
        forall|key: ApplicationKey|
            key.0 != intake_id && s.applications.dom().contains(key) ==> #[trigger] spec_finalise(
                s,
                directory,
                caller,
                intake_id,
            ).0.applications[key] == s.applications[key],
        spec_finalise(s, directory, caller, intake_id).0.accepted == s.accepted,
        spec_finalise(s, directory, caller, intake_id).0.intakes[intake_id].status
            is IntakeFinalised,
{
}

} // verus!
