use elearning::context::{CallContext, ContractError};
use elearning::elearning::ELearningContract;
use elearning::models::{ComboState, WrapCombo, WrapComboHash};

const YOCTO: u128 = 1_000_000_000_000_000_000_000_000;

fn ctx(signer: &str) -> CallContext {
    CallContext {
        signer: signer.to_string(),
        predecessor: signer.to_string(),
        current_account: "elearning.testnet".to_string(),
        block_timestamp_ms: 7,
        attached_deposit: 0,
    }
}

fn with_deposit(signer: &str, deposit: u128) -> CallContext {
    let mut c = ctx(signer);
    c.attached_deposit = deposit;
    c
}

fn make_instructor(c: &mut ELearningContract, who: &str) {
    c.create_user(&ctx(who), None, None, None, None, None).unwrap();
    c.update_user_information(&ctx(who), None, None, None, None, None, Some("cv".to_string())).unwrap();
    c.update_role(&ctx(who)).unwrap();
}

fn units(c: &ELearningContract, course: &str, who: &str) -> Option<u32> {
    c.get_course_metadata_by_course_id(&course.to_string()).unwrap().instructor_id.get(&who.to_string()).copied()
}

fn total_units(c: &ELearningContract, course: &str) -> u32 {
    let m = &c.get_course_metadata_by_course_id(&course.to_string()).unwrap().instructor_id;
    m.keys().iter().map(|k| *m.get(k).unwrap()).sum()
}

fn setup_course() -> ELearningContract {
    let mut c = ELearningContract::init("owner.testnet".to_string());
    make_instructor(&mut c, "alice.testnet");
    make_instructor(&mut c, "bob.testnet");
    c.create_course(&ctx("alice.testnet"), "Rust".to_string(), None, None, 2, Vec::new()).unwrap();
    c
}

#[test]
fn sole_instructor_adds_a_co_instructor() {
    let mut c = setup_course();
    assert_eq!(c.check_consensus(&"rust_alice".to_string()), Ok(true));
    c.agree_consensus(&ctx("alice.testnet"), "rust_alice".to_string(), 4000).unwrap();
    c.add_instructor("rust_alice".to_string(), "bob.testnet".to_string()).unwrap();
    assert_eq!(units(&c, "rust_alice", "alice.testnet"), Some(6000));
    assert_eq!(units(&c, "rust_alice", "bob.testnet"), Some(4000));
    assert_eq!(total_units(&c, "rust_alice"), 10000);
    let course = c.get_course_metadata_by_course_id(&"rust_alice".to_string()).unwrap();
    assert_eq!(course.consensus.len(), 0);
}

#[test]
fn agreeing_twice_or_beyond_units_is_refused() {
    let mut c = setup_course();
    let over = c.agree_consensus(&ctx("alice.testnet"), "rust_alice".to_string(), 10001);
    assert_eq!(over, Err(ContractError::NotEnoughUnit));
    let outsider = c.agree_consensus(&ctx("bob.testnet"), "rust_alice".to_string(), 1);
    assert_eq!(outsider, Err(ContractError::NotCourseMember));
    c.agree_consensus(&ctx("alice.testnet"), "rust_alice".to_string(), 10).unwrap();
    let twice = c.agree_consensus(&ctx("alice.testnet"), "rust_alice".to_string(), 10);
    assert_eq!(twice, Err(ContractError::AlreadyAgreed));
    c.update_consensus(&ctx("alice.testnet"), "rust_alice".to_string(), 20).unwrap();
    let course = c.get_course_metadata_by_course_id(&"rust_alice".to_string()).unwrap();
    assert_eq!(course.consensus.get(&"alice.testnet".to_string()), Some(&20));
}

#[test]
fn two_instructors_need_two_thirds() {
    let mut c = setup_course();
    make_instructor(&mut c, "carol.testnet");
    c.agree_consensus(&ctx("alice.testnet"), "rust_alice".to_string(), 5000).unwrap();
    c.add_instructor("rust_alice".to_string(), "bob.testnet".to_string()).unwrap();
    c.agree_consensus(&ctx("alice.testnet"), "rust_alice".to_string(), 1000).unwrap();
    assert_eq!(c.check_consensus(&"rust_alice".to_string()), Ok(false));
    let refused = c.add_instructor("rust_alice".to_string(), "carol.testnet".to_string());
    assert_eq!(refused, Err(ContractError::NoConsensus));
    c.agree_consensus(&ctx("bob.testnet"), "rust_alice".to_string(), 1000).unwrap();
    c.add_instructor("rust_alice".to_string(), "carol.testnet".to_string()).unwrap();
    assert_eq!(units(&c, "rust_alice", "carol.testnet"), Some(2000));
    assert_eq!(units(&c, "rust_alice", "alice.testnet"), Some(4000));
    assert_eq!(units(&c, "rust_alice", "bob.testnet"), Some(4000));
    assert_eq!(total_units(&c, "rust_alice"), 10000);
}

#[test]
fn transfer_unit_moves_units_between_instructors() {
    let mut c = setup_course();
    c.agree_consensus(&ctx("alice.testnet"), "rust_alice".to_string(), 1000).unwrap();
    c.add_instructor("rust_alice".to_string(), "bob.testnet".to_string()).unwrap();
    let copy = c.transfer_unit(&ctx("alice.testnet"), "rust_alice".to_string(), "bob.testnet".to_string(), 2500).unwrap();
    assert_eq!(copy.instructor_id.get(&"bob.testnet".to_string()), Some(&3500));
    assert_eq!(units(&c, "rust_alice", "alice.testnet"), Some(6500));
    assert_eq!(total_units(&c, "rust_alice"), 10000);
    let too_much = c.transfer_unit(&ctx("bob.testnet"), "rust_alice".to_string(), "alice.testnet".to_string(), 3501);
    assert!(matches!(too_much, Err(ContractError::NotEnoughUnit)));
}

#[test]
fn remove_instructor_returns_units_to_agreeing_instructors() {
    let mut c = setup_course();
    c.agree_consensus(&ctx("alice.testnet"), "rust_alice".to_string(), 3000).unwrap();
    c.add_instructor("rust_alice".to_string(), "bob.testnet".to_string()).unwrap();
    c.agree_consensus(&ctx("alice.testnet"), "rust_alice".to_string(), 2998).unwrap();
    c.agree_consensus(&ctx("bob.testnet"), "rust_alice".to_string(), 1).unwrap();
    let mismatch = c.remove_instructor("rust_alice".to_string(), "bob.testnet".to_string());
    assert_eq!(mismatch, Err(ContractError::UnitMismatch));
    c.update_consensus(&ctx("bob.testnet"), "rust_alice".to_string(), 0).unwrap();
    c.update_consensus(&ctx("alice.testnet"), "rust_alice".to_string(), 3000).unwrap();
    c.remove_instructor("rust_alice".to_string(), "bob.testnet".to_string()).unwrap();
    assert_eq!(units(&c, "rust_alice", "bob.testnet"), None);
    assert_eq!(units(&c, "rust_alice", "alice.testnet"), Some(10000));
}

fn setup_combo() -> ELearningContract {
    let mut c = setup_course();
    c.create_course(&ctx("bob.testnet"), "Go".to_string(), None, None, 3, Vec::new()).unwrap();
    let courses = vec![
        WrapCombo { course_id: "rust_alice".to_string(), price: 1 },
        WrapCombo { course_id: "go_bob".to_string(), price: 2 },
    ];
    c.create_combo(&ctx("alice.testnet"), "Systems".to_string(), courses, None, None).unwrap();
    c
}

#[test]
fn combo_activates_when_every_course_is_enabled() {
    let mut c = setup_combo();
    let id = "combo_systems".to_string();
    assert_eq!(c.check_combo_state(&id), ComboState::DEACTIVED);
    let not_owner = c.enable_course(&ctx("alice.testnet"), id.clone(), "go_bob".to_string());
    assert_eq!(not_owner, Err(ContractError::NotCourseOwner));
    c.enable_course(&ctx("alice.testnet"), id.clone(), "rust_alice".to_string()).unwrap();
    assert_eq!(c.check_combo_state(&id), ComboState::DEACTIVED);
    let twice = c.enable_course(&ctx("alice.testnet"), id.clone(), "rust_alice".to_string());
    assert_eq!(twice, Err(ContractError::CourseAlreadyEnabled));
    c.enable_course(&ctx("bob.testnet"), id.clone(), "go_bob".to_string()).unwrap();
    assert_eq!(c.check_combo_state(&id), ComboState::ACTIVE);
    assert_eq!(c.get_all_combo_metadata(None, None).len(), 1);
}

#[test]
fn create_combo_refusals() {
    let mut c = setup_combo();
    let missing = vec![WrapCombo { course_id: "nope".to_string(), price: 1 }];
    let r = c.create_combo(&ctx("alice.testnet"), "Other".to_string(), missing, None, None);
    assert_eq!(r, Err(ContractError::CourseMissing));
    let again = c.create_combo(&ctx("alice.testnet"), "Systems".to_string(), Vec::new(), None, None);
    assert_eq!(again, Err(ContractError::ComboExists));
    let stranger = c.create_combo(&ctx("eve.testnet"), "Z".to_string(), Vec::new(), None, None);
    assert_eq!(stranger, Err(ContractError::NotRegistered));
}

#[test]
fn payment_combo_sells_each_course_once() {
    let mut c = setup_combo();
    let id = "combo_systems".to_string();
    let hashes = vec![
        WrapComboHash { course_id: "rust_alice".to_string(), encode_check: "h1".to_string() },
        WrapComboHash { course_id: "go_bob".to_string(), encode_check: "h2".to_string() },
        WrapComboHash { course_id: "rust_alice".to_string(), encode_check: "h3".to_string() },
    ];
    let inactive = c.payment_combo(&with_deposit("carol.testnet", 3 * YOCTO), id.clone(), hashes.clone());
    assert!(matches!(inactive, Err(ContractError::ComboInactive)));
    c.enable_course(&ctx("alice.testnet"), id.clone(), "rust_alice".to_string()).unwrap();
    c.enable_course(&ctx("bob.testnet"), id.clone(), "go_bob".to_string()).unwrap();
    c.create_user(&ctx("carol.testnet"), None, None, None, None, None).unwrap();
    let low = c.payment_combo(&with_deposit("carol.testnet", 3 * YOCTO - 1), id.clone(), hashes.clone());
    assert!(matches!(low, Err(ContractError::DepositTooLow)));
    let transfers = c.payment_combo(&with_deposit("carol.testnet", 3 * YOCTO), id.clone(), hashes).unwrap();
    assert_eq!(transfers.len(), 2);
    assert_eq!(transfers[0].receiver, "alice.testnet");
    assert_eq!(transfers[0].amount, YOCTO);
    assert_eq!(transfers[1].receiver, "bob.testnet");
    assert_eq!(transfers[1].amount, 2 * YOCTO);
    let carol = c.get_user_metadata_by_user_id(&"carol.testnet".to_string()).unwrap();
    assert_eq!(carol.courses, vec!["rust_alice".to_string(), "go_bob".to_string()]);
    let rust = c.get_course_metadata_by_course_id(&"rust_alice".to_string()).unwrap();
    assert_eq!(rust.students_studying_map.get(&"carol.testnet".to_string()), Some(&"h1".to_string()));
}

#[test]
fn payment_combo_needs_one_hash_per_enabled_course() {
    let mut c = setup_combo();
    let id = "combo_systems".to_string();
    c.enable_course(&ctx("alice.testnet"), id.clone(), "rust_alice".to_string()).unwrap();
    c.enable_course(&ctx("bob.testnet"), id.clone(), "go_bob".to_string()).unwrap();
    let only_one = vec![WrapComboHash { course_id: "rust_alice".to_string(), encode_check: "h".to_string() }];
    let r = c.payment_combo(&with_deposit("alice.testnet", 3 * YOCTO), id.clone(), only_one);
    assert!(matches!(r, Err(ContractError::ComboCoursesDuplicated)));
    let outside = vec![WrapComboHash { course_id: "x".to_string(), encode_check: "h".to_string() }];
    let r = c.payment_combo(&with_deposit("alice.testnet", 3 * YOCTO), id, outside);
    assert!(matches!(r, Err(ContractError::CourseNotInCombo)));
    let r = c.payment_combo(&with_deposit("alice.testnet", 3 * YOCTO), "combo_none".to_string(), Vec::new());
    assert!(matches!(r, Err(ContractError::ComboMissing)));
}

#[test]
fn a_sale_pays_co_instructors_by_their_units() {
    let mut c = setup_course();
    c.agree_consensus(&ctx("alice.testnet"), "rust_alice".to_string(), 2500).unwrap();
    c.add_instructor("rust_alice".to_string(), "bob.testnet".to_string()).unwrap();
    c.create_user(&ctx("dan.testnet"), None, None, None, None, None).unwrap();
    let transfers = c.payment_course(&with_deposit("dan.testnet", 2 * YOCTO), "rust_alice".to_string(), "h".to_string()).unwrap();
    assert_eq!(transfers.len(), 2);
    let paid: u128 = transfers.iter().map(|t| t.amount).sum();
    assert_eq!(paid, 2 * YOCTO);
    assert_eq!(transfers[0].receiver, "alice.testnet");
    assert_eq!(transfers[0].amount, 2 * YOCTO / 10_000 * 7_500);
    assert_eq!(transfers[1].receiver, "bob.testnet");
    assert_eq!(transfers[1].amount, 2 * YOCTO / 10_000 * 2_500);
    let alice = c.get_user_metadata_by_user_id(&"alice.testnet".to_string()).unwrap();
    let bob = c.get_user_metadata_by_user_id(&"bob.testnet".to_string()).unwrap();
    assert_eq!((alice.metadata.students, bob.metadata.students), (1, 1));
}

#[test]
fn identifiers_hold_no_space() {
    let mut c = setup_course();
    let course = c.create_course(&ctx("bob.testnet"), "  Deep   Dive ".to_string(), None, None, 1, Vec::new()).unwrap();
    assert!(!course.course_id.contains(' '));
    assert_eq!(course.course_id, "__deep___dive__bob");
}

#[test]
fn a_leaving_instructor_takes_what_they_agreed_to_give_up() {
    let mut c = setup_course();
    c.agree_consensus(&ctx("alice.testnet"), "rust_alice".to_string(), 3000).unwrap();
    c.add_instructor("rust_alice".to_string(), "bob.testnet".to_string()).unwrap();
    c.agree_consensus(&ctx("alice.testnet"), "rust_alice".to_string(), 2000).unwrap();
    c.agree_consensus(&ctx("bob.testnet"), "rust_alice".to_string(), 1000).unwrap();
    c.remove_instructor("rust_alice".to_string(), "bob.testnet".to_string()).unwrap();
    assert_eq!(units(&c, "rust_alice", "alice.testnet"), Some(9000));
    assert_eq!(total_units(&c, "rust_alice"), 9000);
}
