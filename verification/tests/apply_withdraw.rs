use intake_lifecycle::directory::InstitutionDirectory;
use intake_lifecycle::document::IpfsLink;
use intake_lifecycle::engine::Event;
use intake_lifecycle::engine::IntakeLifecycleEngine;
use intake_lifecycle::errors::Error;
use intake_lifecycle::intake::IntakeApplication;
use intake_lifecycle::intake::IntakeId;
use intake_lifecycle::intake::NewIntakeParam;
use intake_lifecycle::primitives::UniqId;

const ADMIN: u64 = 7;
const STUDENT: u64 = 42;

fn uni() -> UniqId {
    UniqId { id: 1 }
}

fn iid() -> IntakeId {
    IntakeId { university_id: uni(), intake_index: 0 }
}

fn application(applied_on: u64, bytes: &[u8]) -> IntakeApplication {
    IntakeApplication::new(applied_on, IpfsLink::new(bytes.to_vec()))
}

/// An engine with one intake announced at time 5: opens 10, closes 20.
fn setup() -> (InstitutionDirectory, IntakeLifecycleEngine) {
    let mut dir = InstitutionDirectory::new();
    dir.register_university(uni(), ADMIN);
    let mut engine = IntakeLifecycleEngine::new();
    let params = NewIntakeParam { application_opens: 10, application_closes: 20, max_applicants: 5, max_accepted: 2 };
    engine
        .announce_intake_application(&dir, ADMIN, iid(), uni(), params, 5)
        .unwrap();
    (dir, engine)
}

#[test]
fn apply_stamps_applied_on_with_call_time() {
    let (_dir, mut engine) = setup();
    // The submission claims it was made at time 3; the engine stamps 12.
    let r = engine.apply_for_intake(STUDENT, iid(), application(3, b"cv"), 12);
    assert_eq!(r, Ok(()));
    let stored = engine.get_application(iid(), STUDENT).unwrap();
    assert_eq!(stored.applied_on, 12);
    assert_eq!(stored.info.get().as_slice(), b"cv");
}

#[test]
fn apply_twice_fails_with_duplicate_application() {
    let (_dir, mut engine) = setup();
    assert_eq!(engine.apply_for_intake(STUDENT, iid(), application(0, b"a"), 12), Ok(()));
    let r = engine.apply_for_intake(STUDENT, iid(), application(0, b"b"), 13);
    assert_eq!(r, Err(Error::DuplicateApplication));
    // The first submission is untouched.
    let stored = engine.get_application(iid(), STUDENT).unwrap();
    assert_eq!(stored.applied_on, 12);
    assert_eq!(stored.info.get().as_slice(), b"a");
}

#[test]
fn apply_to_unknown_intake_fails() {
    let (_dir, mut engine) = setup();
    let other = IntakeId { university_id: uni(), intake_index: 9 };
    assert_eq!(
        engine.apply_for_intake(STUDENT, other, application(0, b"x"), 12),
        Err(Error::NoSuchIntake)
    );
}

#[test]
fn apply_before_window_opens_fails() {
    let (_dir, mut engine) = setup();
    // Announced at 5, opens at 10: at time 9 the window is not open yet.
    assert_eq!(
        engine.apply_for_intake(STUDENT, iid(), application(0, b"x"), 9),
        Err(Error::IntakeClosed)
    );
}

#[test]
fn apply_succeeds_once_opening_time_is_reached() {
    let (_dir, mut engine) = setup();
    // The stored status is still pending, but the window counts as open at 10.
    assert_eq!(engine.apply_for_intake(STUDENT, iid(), application(0, b"x"), 10), Ok(()));
}

#[test]
fn apply_after_sweep_fails() {
    let (_dir, mut engine) = setup();
    engine.sweep_expired(20);
    assert_eq!(
        engine.apply_for_intake(STUDENT, iid(), application(0, b"x"), 20),
        Err(Error::IntakeClosed)
    );
}

#[test]
fn withdraw_removes_the_application() {
    let (_dir, mut engine) = setup();
    engine.apply_for_intake(STUDENT, iid(), application(0, b"x"), 12).unwrap();
    assert_eq!(engine.withdraw_application(STUDENT, iid(), 13), Ok(()));
    assert!(engine.get_application(iid(), STUDENT).is_none());
    assert_eq!(engine.events().as_slice(), &[
        Event::NewIntakeAnnounced(iid()),
        Event::AppliedForIntake(iid(), STUDENT),
        Event::ApplicationWithdrawn(iid(), STUDENT),
    ]);
}

#[test]
fn withdraw_without_application_fails() {
    let (_dir, mut engine) = setup();
    assert_eq!(engine.withdraw_application(STUDENT, iid(), 12), Err(Error::NoSuchApplication));
}

#[test]
fn withdraw_after_close_fails_but_application_remains() {
    let (_dir, mut engine) = setup();
    engine.apply_for_intake(STUDENT, iid(), application(0, b"x"), 12).unwrap();
    engine.sweep_expired(20);
    assert_eq!(engine.withdraw_application(STUDENT, iid(), 21), Err(Error::IntakeClosed));
    // The application still exists; only withdrawal is refused.
    assert!(engine.get_application(iid(), STUDENT).is_some());
}
