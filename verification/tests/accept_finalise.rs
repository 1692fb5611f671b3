use intake_lifecycle::directory::InstitutionDirectory;
use intake_lifecycle::document::IpfsLink;
use intake_lifecycle::engine::Event;
use intake_lifecycle::engine::IntakeLifecycleEngine;
use intake_lifecycle::errors::Error;
use intake_lifecycle::intake::IntakeApplication;
use intake_lifecycle::intake::IntakeId;
use intake_lifecycle::intake::IntakeStatus;
use intake_lifecycle::intake::NewIntakeParam;
use intake_lifecycle::primitives::UniqId;

const ADMIN: u64 = 7;
const ALICE: u64 = 42;
const BOB: u64 = 43;

fn uni() -> UniqId {
    UniqId { id: 1 }
}

fn iid() -> IntakeId {
    IntakeId { university_id: uni(), intake_index: 0 }
}

fn application(bytes: &[u8]) -> IntakeApplication {
    IntakeApplication::new(0, IpfsLink::new(bytes.to_vec()))
}

/// An intake that opened at 10 with applications from two students.
fn setup_ongoing() -> (InstitutionDirectory, IntakeLifecycleEngine) {
    let mut dir = InstitutionDirectory::new();
    dir.register_university(uni(), ADMIN);
    let mut engine = IntakeLifecycleEngine::new();
    let params = NewIntakeParam { application_opens: 10, application_closes: 20, max_applicants: 5, max_accepted: 2 };
    engine.announce_intake_application(&dir, ADMIN, iid(), uni(), params, 10).unwrap();
    engine.apply_for_intake(ALICE, iid(), application(b"alice"), 12).unwrap();
    engine.apply_for_intake(BOB, iid(), application(b"bob"), 13).unwrap();
    (dir, engine)
}

/// The same state after the window was swept shut at 20.
fn setup_closed() -> (InstitutionDirectory, IntakeLifecycleEngine) {
    let (dir, mut engine) = setup_ongoing();
    engine.sweep_expired(20);
    (dir, engine)
}

#[test]
fn accept_before_close_fails_with_intake_ongoing() {
    let (dir, mut engine) = setup_ongoing();
    assert_eq!(
        engine.accept_application(&dir, ADMIN, iid(), ALICE),
        Err(Error::IntakeOngoing)
    );
    assert!(!engine.get_accepted_application(iid(), ALICE));
}

#[test]
fn accept_without_application_fails() {
    let (dir, mut engine) = setup_closed();
    assert_eq!(
        engine.accept_application(&dir, ADMIN, iid(), 99),
        Err(Error::NoSuchApplication)
    );
}

#[test]
fn accept_records_the_acceptance_once() {
    let (dir, mut engine) = setup_closed();
    assert_eq!(engine.accept_application(&dir, ADMIN, iid(), ALICE), Ok(()));
    assert!(engine.get_accepted_application(iid(), ALICE));
    assert!(!engine.get_accepted_application(iid(), BOB));
    assert_eq!(
        engine.accept_application(&dir, ADMIN, iid(), ALICE),
        Err(Error::DuplicateAcceptance)
    );
}

#[test]
fn accept_requires_the_institution_admin() {
    let (dir, mut engine) = setup_closed();
    assert_eq!(
        engine.accept_application(&dir, ALICE, iid(), ALICE),
        Err(Error::InsufficientPermission)
    );
    let empty = InstitutionDirectory::new();
    assert_eq!(
        engine.accept_application(&empty, ADMIN, iid(), ALICE),
        Err(Error::NoSuchInstitution)
    );
}

#[test]
fn finalise_before_close_fails() {
    let (dir, mut engine) = setup_ongoing();
    assert_eq!(engine.finalise_intake(&dir, ADMIN, iid()), Err(Error::IntakeNotClosed));
}

#[test]
fn finalise_purges_applications_and_keeps_acceptances() {
    let (dir, mut engine) = setup_closed();
    engine.accept_application(&dir, ADMIN, iid(), ALICE).unwrap();
    assert_eq!(engine.finalise_intake(&dir, ADMIN, iid()), Ok(()));
    assert_eq!(engine.get_intake(iid()).unwrap().status, IntakeStatus::IntakeFinalised);
    // Every application row of the intake is gone, accepted or not.
    assert!(engine.get_application(iid(), ALICE).is_none());
    assert!(engine.get_application(iid(), BOB).is_none());
    // The acceptance record survives finalisation.
    assert!(engine.get_accepted_application(iid(), ALICE));
    assert!(!engine.get_accepted_application(iid(), BOB));
}

#[test]
fn finalise_leaves_other_intakes_applications_alone() {
    let (dir, mut engine) = setup_closed();
    let other = IntakeId { university_id: uni(), intake_index: 1 };
    let params = NewIntakeParam { application_opens: 10, application_closes: 30, max_applicants: 5, max_accepted: 2 };
    engine.announce_intake_application(&dir, ADMIN, other, uni(), params, 20).unwrap();
    engine.apply_for_intake(ALICE, other, application(b"again"), 21).unwrap();
    engine.finalise_intake(&dir, ADMIN, iid()).unwrap();
    assert!(engine.get_application(other, ALICE).is_some());
}

#[test]
fn finalise_twice_fails_with_intake_not_closed() {
    let (dir, mut engine) = setup_closed();
    engine.finalise_intake(&dir, ADMIN, iid()).unwrap();
    assert_eq!(engine.finalise_intake(&dir, ADMIN, iid()), Err(Error::IntakeNotClosed));
}

#[test]
fn finalise_requires_the_institution_admin() {
    let (dir, mut engine) = setup_closed();
    assert_eq!(engine.finalise_intake(&dir, BOB, iid()), Err(Error::InsufficientPermission));
}

#[test]
fn accept_and_finalise_emit_their_events() {
    let (dir, mut engine) = setup_closed();
    engine.accept_application(&dir, ADMIN, iid(), ALICE).unwrap();
    engine.finalise_intake(&dir, ADMIN, iid()).unwrap();
    let events = engine.events();
    assert_eq!(events[events.len() - 2], Event::ApplicationAccepted(iid(), ALICE));
    assert_eq!(events[events.len() - 1], Event::IntakeFinalised(iid()));
}
