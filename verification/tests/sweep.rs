use intake_lifecycle::directory::InstitutionDirectory;
use intake_lifecycle::engine::IntakeLifecycleEngine;
use intake_lifecycle::intake::IntakeId;
use intake_lifecycle::intake::IntakeStatus;
use intake_lifecycle::intake::NewIntakeParam;
use intake_lifecycle::primitives::UniqId;

const ADMIN: u64 = 7;

fn uni() -> UniqId {
    UniqId { id: 1 }
}

fn iid(index: u32) -> IntakeId {
    IntakeId { university_id: uni(), intake_index: index }
}

fn params(opens: u64, closes: u64) -> NewIntakeParam {
    NewIntakeParam { application_opens: opens, application_closes: closes, max_applicants: 5, max_accepted: 2 }
}

fn setup() -> (InstitutionDirectory, IntakeLifecycleEngine) {
    let mut dir = InstitutionDirectory::new();
    dir.register_university(uni(), ADMIN);
    (dir, IntakeLifecycleEngine::new())
}

#[test]
fn sweep_closes_due_intake_and_is_idempotent() {
    let (dir, mut engine) = setup();
    engine.announce_intake_application(&dir, ADMIN, iid(0), uni(), params(10, 20), 10).unwrap();
    assert_eq!(engine.get_intake(iid(0)).unwrap().status, IntakeStatus::IntakeOngoing);

    engine.sweep_expired(20);
    assert_eq!(engine.get_intake(iid(0)).unwrap().status, IntakeStatus::IntakeClosed);
    assert!(!engine.get_intake_closing_date(20, iid(0)));

    // A second sweep at the same time changes nothing.
    let before = engine.get_intake(iid(0)).unwrap();
    engine.sweep_expired(20);
    assert_eq!(engine.get_intake(iid(0)).unwrap(), before);
}

#[test]
fn sweep_at_other_times_is_a_no_op() {
    let (dir, mut engine) = setup();
    engine.announce_intake_application(&dir, ADMIN, iid(0), uni(), params(10, 20), 10).unwrap();
    engine.sweep_expired(19);
    assert_eq!(engine.get_intake(iid(0)).unwrap().status, IntakeStatus::IntakeOngoing);
    assert!(engine.get_intake_closing_date(20, iid(0)));
    engine.sweep_expired(21);
    assert_eq!(engine.get_intake(iid(0)).unwrap().status, IntakeStatus::IntakeOngoing);
}

#[test]
fn sweep_only_touches_intakes_closing_at_that_time() {
    let (dir, mut engine) = setup();
    engine.announce_intake_application(&dir, ADMIN, iid(0), uni(), params(10, 20), 10).unwrap();
    engine.announce_intake_application(&dir, ADMIN, iid(1), uni(), params(10, 25), 10).unwrap();
    engine.sweep_expired(20);
    assert_eq!(engine.get_intake(iid(0)).unwrap().status, IntakeStatus::IntakeClosed);
    assert_eq!(engine.get_intake(iid(1)).unwrap().status, IntakeStatus::IntakeOngoing);
    assert!(engine.get_intake_closing_date(25, iid(1)));
    engine.sweep_expired(25);
    assert_eq!(engine.get_intake(iid(1)).unwrap().status, IntakeStatus::IntakeClosed);
}

#[test]
fn sweep_closes_a_still_pending_intake_whose_window_passed() {
    let (dir, mut engine) = setup();
    // Announced before it opens; never receives an application.
    engine.announce_intake_application(&dir, ADMIN, iid(0), uni(), params(10, 20), 5).unwrap();
    assert_eq!(engine.get_intake(iid(0)).unwrap().status, IntakeStatus::IntakePending);
    engine.sweep_expired(20);
    assert_eq!(engine.get_intake(iid(0)).unwrap().status, IntakeStatus::IntakeClosed);
}

#[test]
fn sweep_emits_no_events() {
    let (dir, mut engine) = setup();
    engine.announce_intake_application(&dir, ADMIN, iid(0), uni(), params(10, 20), 10).unwrap();
    let before = engine.events().len();
    engine.sweep_expired(20);
    assert_eq!(engine.events().len(), before);
}
