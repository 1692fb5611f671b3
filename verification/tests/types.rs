use intake_lifecycle::directory::InstitutionDirectory;
use intake_lifecycle::document::IpfsLink;
use intake_lifecycle::document::IpfsLinkLength;
use intake_lifecycle::errors::Error;
use intake_lifecycle::intake::IntakeApplication;
use intake_lifecycle::primitives::Scaler;
use intake_lifecycle::primitives::UniqId;

#[test]
fn scaler_reports_its_variant() {
    let limited: Scaler<u32> = Scaler::Limited(5);
    let unlimited: Scaler<u32> = Scaler::Unlimited;
    assert!(limited.is_limited());
    assert!(!limited.is_unlimited());
    assert!(unlimited.is_unlimited());
    assert!(!unlimited.is_limited());
    assert_eq!(limited.limit(), Some(&5));
    assert_eq!(unlimited.limit(), None);
}

#[test]
fn ipfs_link_length_is_the_documented_bound() {
    assert_eq!(IpfsLinkLength::get(), 300);
}

#[test]
fn ipfs_link_round_trips_its_bytes() {
    let mut link = IpfsLink::new(b"abc".to_vec());
    assert_eq!(link.get().as_slice(), b"abc");
    link.set(b"de".to_vec());
    assert_eq!(link.get().as_slice(), b"de");
    assert_eq!(link.inner(), b"de".to_vec());
}

#[test]
fn ipfs_link_equality_compares_bytes() {
    let a = IpfsLink::new(b"abc".to_vec());
    let b = IpfsLink::new(b"abc".to_vec());
    let c = IpfsLink::new(b"abd".to_vec());
    let d = IpfsLink::new(b"ab".to_vec());
    assert!(a == b);
    assert!(a != c);
    assert!(a != d);
}

#[test]
fn intake_application_clone_keeps_the_fields() {
    let app = IntakeApplication::new(4, IpfsLink::new(b"xy".to_vec()));
    let copy = app.clone();
    assert_eq!(copy.applied_on, 4);
    assert_eq!(copy.info.get().as_slice(), b"xy");
}

#[test]
fn directory_resolves_the_latest_registration() {
    let mut dir = InstitutionDirectory::new();
    let uni = UniqId { id: 3 };
    assert_eq!(dir.university_admin(uni), None);
    dir.register_university(uni, 7);
    assert_eq!(dir.university_admin(uni), Some(7));
    dir.register_university(uni, 8);
    assert_eq!(dir.university_admin(uni), Some(8));
}

#[test]
fn errors_have_stable_names() {
    assert_eq!(Error::InsufficientPermission.as_str(), "insufficient permission");
    assert_eq!(Error::DuplicateAcceptance.as_str(), "duplicate acceptance");
}
