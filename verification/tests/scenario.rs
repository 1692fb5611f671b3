//! The full lifecycle of one intake, step by step.

use intake_lifecycle::directory::InstitutionDirectory;
use intake_lifecycle::document::IpfsLink;
use intake_lifecycle::engine::Event;
use intake_lifecycle::engine::IntakeLifecycleEngine;
use intake_lifecycle::intake::IntakeApplication;
use intake_lifecycle::intake::IntakeId;
use intake_lifecycle::intake::IntakeStatus;
use intake_lifecycle::intake::NewIntakeParam;
use intake_lifecycle::primitives::UniqId;

#[test]
fn end_to_end_intake_lifecycle() {
    let university = UniqId { id: 1 };
    let admin: u64 = 7;
    let student_a: u64 = 42;
    let intake = IntakeId { university_id: university, intake_index: 0 };

    let mut dir = InstitutionDirectory::new();
    dir.register_university(university, admin);
    let mut engine = IntakeLifecycleEngine::new();

    // Announce at time 5: opens=10, closes=20, max_applicants=5, max_accepted=2.
    let params = NewIntakeParam {
        application_opens: 10,
        application_closes: 20,
        max_applicants: 5,
        max_accepted: 2,
    };
    assert_eq!(
        engine.announce_intake_application(&dir, admin, intake, university, params, 5),
        Ok(())
    );
    assert_eq!(engine.get_intake(intake).unwrap().status, IntakeStatus::IntakePending);

    // Apply as student A at time 12: the window counts as open, even though
    // no sweep rewrote the stored status.
    let submission = IntakeApplication::new(0, IpfsLink::new(b"transcript".to_vec()));
    assert_eq!(engine.apply_for_intake(student_a, intake, submission, 12), Ok(()));
    assert_eq!(engine.get_application(intake, student_a).unwrap().applied_on, 12);

    // Sweep at time 20 closes the window.
    engine.sweep_expired(20);
    assert_eq!(engine.get_intake(intake).unwrap().status, IntakeStatus::IntakeClosed);

    // Accept A.
    assert_eq!(engine.accept_application(&dir, admin, intake, student_a), Ok(()));
    let events = engine.events();
    assert_eq!(events[events.len() - 1], Event::ApplicationAccepted(intake, student_a));

    // Finalise: the application row is gone, the acceptance record remains.
    assert_eq!(engine.finalise_intake(&dir, admin, intake), Ok(()));
    assert_eq!(engine.get_intake(intake).unwrap().status, IntakeStatus::IntakeFinalised);
    assert!(engine.get_application(intake, student_a).is_none());
    assert!(engine.get_accepted_application(intake, student_a));

    // The provider interface agrees with the query interface.
    assert_eq!(engine.intake_info(intake), engine.get_intake(intake));
}
