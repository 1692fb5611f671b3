//! Data model of an admission window (an intake) and of the applications
//! submitted to it.

use vstd::prelude::*;

use crate::document::IpfsLink;
use crate::primitives::BlockNumber;
use crate::primitives::UniqId;

verus! {

/// Uniquely identifies an intake: an institution together with a window index.
#[derive(Clone, Copy, PartialEq, Eq, Structural, Debug)]
pub struct IntakeId {
    pub university_id: UniqId,
    pub intake_index: u32,
}

/// Parameters an institution supplies when announcing a new intake.
#[derive(Clone, Copy, PartialEq, Eq, Structural, Debug)]
pub struct NewIntakeParam {
    pub application_opens: BlockNumber,
    pub application_closes: BlockNumber,
    pub max_applicants: u32,
    pub max_accepted: u32,
}

/// Lifecycle states of an intake. The only transitions are
/// `IntakePending -> IntakeOngoing -> IntakeClosed -> IntakeFinalised`,
/// and `IntakeFinalised` is terminal.
#[derive(Clone, Copy, PartialEq, Eq, Structural, Debug)]
pub enum IntakeStatus {
    /// The window was announced but has not opened yet.
    IntakePending,
    /// The window is open: applications may be submitted and withdrawn.
    IntakeOngoing,
    /// The window was closed by the scheduler sweep; acceptances may be recorded.
    IntakeClosed,
    /// The institution finalised its decisions; nothing changes any more.
    IntakeFinalised,
}

/// Everything the ledger stores about one intake.
#[derive(Clone, Copy, PartialEq, Eq, Structural, Debug)]
pub struct IntakeInfo {
    pub application_opens: BlockNumber,
    pub application_closes: BlockNumber,
    pub max_applicants: u32,
    pub max_accepted: u32,
    pub status: IntakeStatus,
}

/// The bounds an announced intake always satisfies.
pub open spec fn valid_intake_params(params: NewIntakeParam) -> bool {
    &&& params.application_closes > params.application_opens
    &&& params.max_applicants > 0
    &&& params.max_accepted > 0
    &&& params.max_accepted <= params.max_applicants
}

/// The bounds restated over a stored record.
pub open spec fn valid_intake_info(info: IntakeInfo) -> bool {
    &&& info.application_closes > info.application_opens
    &&& info.max_applicants > 0
    &&& info.max_accepted > 0
    &&& info.max_accepted <= info.max_applicants
}

/// The same record with another status.
pub open spec fn with_status(info: IntakeInfo, status: IntakeStatus) -> IntakeInfo {
    IntakeInfo { status, ..info }
}

/// The status an intake effectively has at `now`: a stored `IntakePending`
/// counts as `IntakeOngoing` once the opening time has been reached. Opening
/// is decided by this comparison at read time; no operation rewrites a stored
/// `IntakePending`.
pub open spec fn effective_status(info: IntakeInfo, now: BlockNumber) -> IntakeStatus {
    if info.status is IntakePending && now >= info.application_opens {
        IntakeStatus::IntakeOngoing
    } else {
        info.status
    }
}

/// Computes [`effective_status`] on a stored record.
pub fn effective_status_of(info: &IntakeInfo, now: BlockNumber) -> (r: IntakeStatus)
    ensures
        r == effective_status(*info, now),
{
    if matches!(info.status, IntakeStatus::IntakePending) && now >= info.application_opens {
        IntakeStatus::IntakeOngoing
    } else {
        info.status
    }
}

/// One applicant's submission for one intake.
#[derive(Debug)]
pub struct IntakeApplication {
    /// Time step at which the application was recorded. Always stamped by the
    /// engine at write time; never taken from the caller.
    pub applied_on: BlockNumber,
    /// Content reference to the application details.
    pub info: IpfsLink,
}

/// Mathematical abstraction of a stored application.
pub ghost struct ApplicationView {
    pub applied_on: BlockNumber,
    pub info: Seq<u8>,
}

impl View for IntakeApplication {
    type V = ApplicationView;

    open spec fn view(&self) -> ApplicationView {
        ApplicationView { applied_on: self.applied_on, info: self.info@ }
    }
}

impl IntakeApplication {
    /// Builds a submission from its parts.
    pub fn new(applied_on: BlockNumber, info: IpfsLink) -> (r: Self)
        ensures
            r@ == (ApplicationView { applied_on, info: info@ }),
    {
        IntakeApplication { applied_on, info }
    }
}

impl Clone for IntakeApplication {
    fn clone(&self) -> (r: Self)
        ensures
            r@ == self@,
    {
        IntakeApplication { applied_on: self.applied_on, info: self.info.clone() }
    }
}

} // verus!
