use elearning::context::{CallContext, ContractError};
use elearning::elearning::ELearningContract;
use elearning::models::Roles;

const YOCTO: u128 = 1_000_000_000_000_000_000_000_000;

fn ctx(signer: &str) -> CallContext {
    CallContext {
        signer: signer.to_string(),
        predecessor: signer.to_string(),
        current_account: "elearning.testnet".to_string(),
        block_timestamp_ms: 1_000,
        attached_deposit: 0,
    }
}

fn with_deposit(signer: &str, deposit: u128) -> CallContext {
    let mut c = ctx(signer);
    c.attached_deposit = deposit;
    c
}

fn register(c: &mut ELearningContract, who: &str) {
    c.create_user(&ctx(who), None, None, None, None, None).unwrap();
}

fn make_instructor(c: &mut ELearningContract, who: &str) {
    register(c, who);
    c.update_user_information(&ctx(who), None, None, None, None, None, Some("cv".to_string())).unwrap();
    c.update_role(&ctx(who)).unwrap();
}

fn hex(bytes: &[u8]) -> String {
    bytes.iter().map(|b| format!("{:02x}", b)).collect()
}

#[test]
fn create_user_takes_account_without_network_as_nickname() {
    let mut c = ELearningContract::init("owner.testnet".to_string());
    register(&mut c, "alice.testnet");
    let user = c.get_user_metadata_by_user_id(&"alice.testnet".to_string()).unwrap();
    assert_eq!(user.metadata.nickname, "alice");
    assert_eq!(user.metadata.role, Roles::Subscriber);
    assert_eq!(user.metadata.created_at, 1_000);
    assert_eq!(c.get_user_role(&"alice.testnet".to_string()), Ok(Roles::Subscriber));
}

#[test]
fn create_user_twice_is_refused() {
    let mut c = ELearningContract::init("owner.testnet".to_string());
    register(&mut c, "alice.testnet");
    let r = c.create_user(&ctx("alice.testnet"), Some("a".to_string()), None, None, None, None);
    assert_eq!(r, Err(ContractError::AlreadyRegistered));
}

#[test]
fn update_role_needs_a_resume() {
    let mut c = ELearningContract::init("owner.testnet".to_string());
    register(&mut c, "bob.testnet");
    assert!(matches!(c.update_role(&ctx("bob.testnet")), Err(ContractError::ResumeMissing)));
    assert!(matches!(c.update_role(&ctx("nobody.testnet")), Err(ContractError::NotRegistered)));
}

#[test]
fn create_course_gives_creator_all_units() {
    let mut c = ELearningContract::init("owner.testnet".to_string());
    make_instructor(&mut c, "alice.testnet");
    let course = c
        .create_course(&ctx("alice.testnet"), "Rust Basics".to_string(), None, None, 5, vec!["rust".to_string()])
        .unwrap();
    assert_eq!(course.course_id, "rust_basics_alice");
    assert_eq!(course.instructor_id.get(&"alice.testnet".to_string()), Some(&10000));
    assert_eq!(course.instructor_id.len(), 1);
    assert!(c.check_course_existence(&"rust_basics_alice".to_string()));
    assert_eq!(c.get_all_course_id(None, None), vec!["rust_basics_alice".to_string()]);
}

#[test]
fn course_title_is_transliterated() {
    let mut c = ELearningContract::init("owner.testnet".to_string());
    make_instructor(&mut c, "alice.testnet");
    let course =
        c.create_course(&ctx("alice.testnet"), "Café Déjà".to_string(), None, None, 1, Vec::new()).unwrap();
    assert_eq!(course.course_id, "cafe_deja_alice");
}

#[test]
fn subscriber_cannot_create_course() {
    let mut c = ELearningContract::init("owner.testnet".to_string());
    register(&mut c, "bob.testnet");
    let r = c.create_course(&ctx("bob.testnet"), "X".to_string(), None, None, 1, Vec::new());
    assert!(matches!(r, Err(ContractError::NotInstructor)));
}

#[test]
fn payment_course_pays_instructor_and_enrolls_buyer() {
    let mut c = ELearningContract::init("owner.testnet".to_string());
    make_instructor(&mut c, "alice.testnet");
    register(&mut c, "bob.testnet");
    c.create_course(&ctx("alice.testnet"), "Rust Basics".to_string(), None, None, 5, Vec::new()).unwrap();
    let id = "rust_basics_alice".to_string();
    let transfers = c.payment_course(&with_deposit("bob.testnet", 5 * YOCTO), id.clone(), "abc".to_string()).unwrap();
    assert_eq!(transfers.len(), 1);
    assert_eq!(transfers[0].receiver, "alice.testnet");
    assert_eq!(transfers[0].amount, 5 * YOCTO / 10_000 * 10_000);
    let course = c.get_course_metadata_by_course_id(&id).unwrap();
    assert_eq!(course.students_studying_map.get(&"bob.testnet".to_string()), Some(&"abc".to_string()));
    let bob = c.get_user_metadata_by_user_id(&"bob.testnet".to_string()).unwrap();
    assert_eq!(bob.courses, vec![id.clone()]);
    let alice = c.get_user_metadata_by_user_id(&"alice.testnet".to_string()).unwrap();
    assert_eq!(alice.metadata.students, 1);
    assert_eq!(c.get_purchase_course_by_user_id(&"bob.testnet".to_string(), None, None).unwrap().len(), 1);
}

#[test]
fn payment_course_refusals() {
    let mut c = ELearningContract::init("owner.testnet".to_string());
    make_instructor(&mut c, "alice.testnet");
    register(&mut c, "bob.testnet");
    c.create_course(&ctx("alice.testnet"), "Rust Basics".to_string(), None, None, 5, Vec::new()).unwrap();
    let id = "rust_basics_alice".to_string();
    let low = c.payment_course(&with_deposit("bob.testnet", 5 * YOCTO - 1), id.clone(), "h".to_string());
    assert!(matches!(low, Err(ContractError::DepositTooLow)));
    let missing = c.payment_course(&with_deposit("bob.testnet", 5 * YOCTO), "nope".to_string(), "h".to_string());
    assert!(matches!(missing, Err(ContractError::CourseMissing)));
    let stranger = c.payment_course(&with_deposit("eve.testnet", 5 * YOCTO), id.clone(), "h".to_string());
    assert!(matches!(stranger, Err(ContractError::NotRegistered)));
    c.payment_course(&with_deposit("bob.testnet", 5 * YOCTO), id.clone(), "h".to_string()).unwrap();
    let again = c.payment_course(&with_deposit("bob.testnet", 5 * YOCTO), id, "h".to_string());
    assert!(matches!(again, Err(ContractError::CourseAlreadyOwned)));
}

#[test]
fn every_fifth_student_sale_keeps_instructor_credit() {
    let mut c = ELearningContract::init("owner.testnet".to_string());
    make_instructor(&mut c, "alice.testnet");
    c.create_course(&ctx("alice.testnet"), "Rust".to_string(), None, None, 1, Vec::new()).unwrap();
    let id = "rust_alice".to_string();
    for i in 0..5 {
        let who = format!("s{}.testnet", i);
        register(&mut c, &who);
        c.payment_course(&with_deposit(&who, YOCTO), id.clone(), "h".to_string()).unwrap();
    }
    let alice = c.get_user_metadata_by_user_id(&"alice.testnet".to_string()).unwrap();
    assert_eq!(alice.metadata.students, 5);
    assert_eq!(alice.metadata.total_credit, 0);
}

#[test]
fn finishing_a_course_mints_certificate_and_credits() {
    let mut c = ELearningContract::init("owner.testnet".to_string());
    make_instructor(&mut c, "alice.testnet");
    register(&mut c, "bob.testnet");
    c.create_course(&ctx("alice.testnet"), "Rust".to_string(), None, None, 1, vec!["rust".to_string(), "cargo".to_string()])
        .unwrap();
    let id = "rust_alice".to_string();
    let digest: Vec<u8> = (0u8..32).collect();
    c.payment_course(&with_deposit("bob.testnet", YOCTO), id.clone(), hex(&digest)).unwrap();
    let wrong = c.make_user_finish_course(&ctx("bob.testnet"), id.clone(), "m".to_string(), 9, &[1, 2, 3]);
    assert!(matches!(wrong, Err(ContractError::HashMismatch)));
    let too_high = c.make_user_finish_course(&ctx("bob.testnet"), id.clone(), "m".to_string(), 11, &digest);
    assert!(matches!(too_high, Err(ContractError::RatingTooHigh)));
    c.make_user_finish_course(&ctx("bob.testnet"), id.clone(), "m".to_string(), 9, &digest).unwrap();
    let bob = c.get_user_metadata_by_user_id(&"bob.testnet".to_string()).unwrap();
    assert_eq!(bob.certificate, vec!["cert_rust_alice_bob".to_string()]);
    assert_eq!(bob.metadata.total_credit, 20);
    assert_eq!(bob.skill.get(&"rust".to_string()), Some(&10));
    assert_eq!(c.check_course_completed(&id, &"bob.testnet".to_string()), Ok(true));
    let cert = c.get_certificate_metadata_by_certificate_id(&"cert_rust_alice_bob".to_string()).unwrap();
    assert_eq!(cert.student, "bob.testnet");
    assert_eq!(cert.skills.len(), 2);
    let again = c.make_user_finish_course(&ctx("bob.testnet"), id, "m".to_string(), 9, &digest);
    assert!(matches!(again, Err(ContractError::CertificateExists)));
}

#[test]
fn course_pages_follow_creation_order() {
    let mut c = ELearningContract::init("owner.testnet".to_string());
    make_instructor(&mut c, "alice.testnet");
    for t in ["A", "B", "C"] {
        c.create_course(&ctx("alice.testnet"), t.to_string(), None, None, 1, Vec::new()).unwrap();
    }
    assert_eq!(c.get_all_course_id(Some(1), Some(1)), vec!["b_alice".to_string()]);
    assert_eq!(c.get_all_course_id(Some(5), None), Vec::<String>::new());
    assert_eq!(c.get_all_course_metadata(None, Some(2)).len(), 2);
    assert_eq!(c.get_all_courses_per_instructor(&"alice.testnet".to_string(), None, None).unwrap().len(), 3);
}
