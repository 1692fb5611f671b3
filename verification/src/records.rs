//! Record vocabulary of the surrounding ledger modules (examinations,
//! lectures, scholarships, students, validators). These modules delegate all
//! their behaviour to the host ledger; the intake engine shares identifiers
//! with them but reads none of their records.

use vstd::prelude::*;

use crate::primitives::UniqId;

verus! {

/// Marker trait for identifier types that can stand for a professor.
pub trait ProfessorIdDef: Clone + Eq {

}

impl ProfessorIdDef for UniqId {

}

/// Parameters for registering an examination; the module keeps no on-ledger
/// fields of its own.
#[derive(Clone, Copy, PartialEq, Eq, Structural, Debug)]
pub struct NewExamParam {}

/// Record of an examination.
#[derive(Clone, Copy, PartialEq, Eq, Structural, Debug)]
pub struct Exam {}

/// Parameters for registering a lecture.
#[derive(Clone, Copy, PartialEq, Eq, Structural, Debug)]
pub struct NewLectureParam {}

/// Record of a lecture.
#[derive(Clone, Copy, PartialEq, Eq, Structural, Debug)]
pub struct Lecture {}

/// Parameters for registering a scholarship.
#[derive(Clone, Copy, PartialEq, Eq, Structural, Debug)]
pub struct NewScholarshipParam {}

/// Record of a scholarship.
#[derive(Clone, Copy, PartialEq, Eq, Structural, Debug)]
pub struct Scholarship {}

/// Parameters for registering a student.
#[derive(Clone, Copy, PartialEq, Eq, Structural, Debug)]
pub struct NewStudentParam {}

/// Record of a student.
#[derive(Clone, Copy, PartialEq, Eq, Structural, Debug)]
pub struct Student {}

/// A validator's statement that it vouches for a university.
#[derive(Clone, Copy, PartialEq, Eq, Structural, Debug)]
pub struct ValidateUniversityParam<UniversityId> {
    pub university: UniversityId,
}

/// A validator's statement that it vouches for a professor.
#[derive(Clone, Copy, PartialEq, Eq, Structural, Debug)]
pub struct ValidateProfessorParam<ProfessorId> {
    pub professor: ProfessorId,
}

/// Record of a validated university.
#[derive(Clone, Copy, PartialEq, Eq, Structural, Debug)]
pub struct ValidatedUniversityInfo {}

/// Record of a validated professor.
#[derive(Clone, Copy, PartialEq, Eq, Structural, Debug)]
pub struct ValidatedProfessorInfo {}

} // verus!
