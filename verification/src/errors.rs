//! The typed errors the engine's operations return. Every precondition is
//! checked before any mutation, so a failed operation leaves no partial
//! writes behind.

use vstd::prelude::*;

verus! {

/// Why an operation was refused.
#[derive(Clone, Copy, PartialEq, Eq, Structural, Debug)]
pub enum Error {
    /// The caller is not the institution's recorded administrator.
    InsufficientPermission,
    /// The institution id cannot be resolved in the directory.
    NoSuchInstitution,
    /// An intake under this id was already announced.
    IntakeAlreadyExists,
    /// Malformed window bounds or capacity bounds.
    InvalidParameter,
    /// No intake under this id exists.
    NoSuchIntake,
    /// The operation needs an ongoing intake, but its window is not open.
    IntakeClosed,
    /// The operation needs a closed intake, but its window has not closed yet.
    IntakeOngoing,
    /// Finalisation needs a closed intake, but the status is something else.
    IntakeNotClosed,
    /// The referenced application does not exist.
    NoSuchApplication,
    /// This applicant already has an application for this intake.
    DuplicateApplication,
    /// This applicant was already accepted for this intake.
    DuplicateAcceptance,
}

impl Error {
    /// A stable, human-readable name for the error.
    pub fn as_str(&self) -> (r: &'static str)
    {
        match self {
            Error::InsufficientPermission => "insufficient permission",
            Error::NoSuchInstitution => "no such institution",
            Error::IntakeAlreadyExists => "intake already exists",
            Error::InvalidParameter => "invalid parameter",
            Error::NoSuchIntake => "no such intake",
            Error::IntakeClosed => "intake closed",
            Error::IntakeOngoing => "intake ongoing",
            Error::IntakeNotClosed => "intake not closed",
            Error::NoSuchApplication => "no such application",
            Error::DuplicateApplication => "duplicate application",
            Error::DuplicateAcceptance => "duplicate acceptance",
        }
    }
}

} // verus!
