use elearning::context::{CallContext, ContractError, PromiseOutcome};
use elearning::elearning::ELearningContract;

const YOCTO: u128 = 1_000_000_000_000_000_000_000_000;
const POOL: &str = "pool.testnet";

fn ctx(signer: &str) -> CallContext {
    CallContext {
        signer: signer.to_string(),
        predecessor: signer.to_string(),
        current_account: "elearning.testnet".to_string(),
        block_timestamp_ms: 9,
        attached_deposit: 0,
    }
}

fn from_pool(signer: &str) -> CallContext {
    let mut c = ctx(signer);
    c.predecessor = POOL.to_string();
    c
}

fn contract() -> ELearningContract {
    let mut c = ELearningContract::init("owner.testnet".to_string());
    c.update_pool_address(&ctx("owner.testnet"), POOL.to_string()).unwrap();
    c
}

fn register(c: &mut ELearningContract, who: &str) {
    c.create_user(&ctx(who), None, None, None, None, None).unwrap();
}

fn make_instructor(c: &mut ELearningContract, who: &str) {
    register(c, who);
    c.update_user_information(&ctx(who), None, None, None, None, None, Some("cv".to_string())).unwrap();
    c.update_role(&ctx(who)).unwrap();
}

fn paid() -> PromiseOutcome {
    PromiseOutcome::Successful(b"\"1\"".to_vec())
}

#[test]
fn second_promotion_to_instructor_is_refused() {
    let mut c = contract();
    make_instructor(&mut c, "alice.testnet");
    assert!(matches!(c.update_role(&ctx("alice.testnet")), Err(ContractError::AlreadyInstructor)));
}

#[test]
fn same_course_title_twice_is_refused() {
    let mut c = contract();
    make_instructor(&mut c, "alice.testnet");
    c.create_course(&ctx("alice.testnet"), "Rust".to_string(), None, None, 1, Vec::new()).unwrap();
    let again = c.create_course(&ctx("alice.testnet"), "Rust".to_string(), None, None, 3, Vec::new());
    assert!(matches!(again, Err(ContractError::CourseExists)));
    assert_eq!(c.get_all_course_id(None, None).len(), 1);
}

#[test]
fn finishing_a_course_one_does_not_study_is_refused() {
    let mut c = contract();
    make_instructor(&mut c, "alice.testnet");
    register(&mut c, "bob.testnet");
    c.create_course(&ctx("alice.testnet"), "Rust".to_string(), None, None, 1, Vec::new()).unwrap();
    let r = c.make_user_finish_course(&ctx("bob.testnet"), "rust_alice".to_string(), "m".to_string(), 5, &[0u8; 32]);
    assert_eq!(r, Err(ContractError::NotStudent));
    let r = c.make_user_finish_course(&ctx("bob.testnet"), "rust_alice".to_string(), "m".to_string(), 11, &[0u8; 32]);
    assert_eq!(r, Err(ContractError::RatingTooHigh));
}

#[test]
fn consensus_changes_and_membership_are_checked() {
    let mut c = contract();
    make_instructor(&mut c, "alice.testnet");
    make_instructor(&mut c, "bob.testnet");
    c.create_course(&ctx("alice.testnet"), "Rust".to_string(), None, None, 1, Vec::new()).unwrap();
    let course = "rust_alice".to_string();
    let not_agreed = c.update_consensus(&ctx("alice.testnet"), course.clone(), 5);
    assert_eq!(not_agreed, Err(ContractError::NotAgreed));
    let missing = c.update_consensus(&ctx("alice.testnet"), "nope".to_string(), 5);
    assert_eq!(missing, Err(ContractError::CourseMissing));
    c.agree_consensus(&ctx("alice.testnet"), course.clone(), 100).unwrap();
    let existing = c.add_instructor(course.clone(), "alice.testnet".to_string());
    assert_eq!(existing, Err(ContractError::InstructorExists));
    let stranger = c.remove_instructor(course.clone(), "bob.testnet".to_string());
    assert_eq!(stranger, Err(ContractError::InstructorMissing));
    let course_meta = c.get_course_metadata_by_course_id(&course).unwrap();
    assert_eq!(course_meta.instructor_id.get(&"alice.testnet".to_string()), Some(&10000));
    assert_eq!(course_meta.consensus.get(&"alice.testnet".to_string()), Some(&100));
}

#[test]
fn creating_a_stored_mentoring_again_is_refused() {
    let mut c = contract();
    register(&mut c, "mentor.testnet");
    c.storage_mentoring(&ctx("mentor.testnet"), "Help".to_string(), "mentoring_help_mentor".to_string(), 1, None)
        .unwrap();
    let again = c.create_mentoring(&ctx("mentor.testnet"), "Help".to_string(), 1, None);
    assert!(matches!(again, Err(ContractError::MentoringExists)));
    let stranger = c.create_mentoring(&ctx("nobody.testnet"), "Other".to_string(), 1, None);
    assert!(matches!(stranger, Err(ContractError::NotRegistered)));
}

#[test]
fn a_price_beyond_u128_in_yocto_is_refused() {
    let mut c = contract();
    register(&mut c, "mentor.testnet");
    let r = c.storage_mentoring(&ctx("mentor.testnet"), "Big".to_string(), "mentoring_big_mentor".to_string(), u128::MAX / YOCTO + 1, None);
    assert_eq!(r, Err(ContractError::ArithmeticOverflow));
    assert!(!c.check_mentoring_existence(&"mentoring_big_mentor".to_string()));
    let r = c.storage_mentoring(&ctx("mentor.testnet"), "Big".to_string(), "mentoring_big_mentor".to_string(), u128::MAX / YOCTO, None);
    assert_eq!(r, Ok(()));
}

#[test]
fn lessons_of_unknown_records_are_refused() {
    let mut c = contract();
    register(&mut c, "mentor.testnet");
    register(&mut c, "student.testnet");
    let id = "mentoring_help_mentor".to_string();
    let missing = c.make_lession_completed(&ctx("student.testnet"), id.clone(), "x".to_string());
    assert!(matches!(missing, Err(ContractError::MentoringMissing)));
    c.storage_mentoring(&ctx("mentor.testnet"), "Help".to_string(), id.clone(), 2, None).unwrap();
    let no_student = c.make_lession_completed(&ctx("student.testnet"), id.clone(), "x".to_string());
    assert!(matches!(no_student, Err(ContractError::StudentNotInMentoring)));
    c.buy_mentoring_process(&from_pool("student.testnet"), id.clone(), 4 * YOCTO).unwrap();
    let no_process = c.make_lession_completed(&ctx("student.testnet"), id.clone(), "x".to_string());
    assert!(matches!(no_process, Err(ContractError::StudyProcessMissing)));
    let claim = c.remove_claim_info(id.clone(), "student.testnet".to_string(), "x".to_string(), &paid());
    assert_eq!(claim, Err(ContractError::RecordMissing));
    let unpaid = c.remove_claim_info(id, "student.testnet".to_string(), "x".to_string(), &PromiseOutcome::Failed);
    assert_eq!(unpaid, Ok(()));
}

#[test]
fn a_purchase_below_one_lesson_has_no_lesson_to_complete() {
    let mut c = contract();
    register(&mut c, "mentor.testnet");
    register(&mut c, "student.testnet");
    let id = "mentoring_help_mentor".to_string();
    c.storage_mentoring(&ctx("mentor.testnet"), "Help".to_string(), id.clone(), 2, None).unwrap();
    assert_eq!(c.buy_mentoring_process(&from_pool("student.testnet"), id.clone(), YOCTO), Ok(1));
    let sp_id = "mentoring_help_mentor_for_student_9".to_string();
    let r = c.make_lession_completed(&ctx("student.testnet"), id, sp_id);
    assert!(matches!(r, Err(ContractError::InvalidLessonState)));
}

#[test]
fn a_free_mentoring_cannot_be_bought() {
    let mut c = contract();
    register(&mut c, "mentor.testnet");
    register(&mut c, "student.testnet");
    let id = "mentoring_free_mentor".to_string();
    c.storage_mentoring(&ctx("mentor.testnet"), "Free".to_string(), id.clone(), 0, None).unwrap();
    let r = c.buy_mentoring_process(&from_pool("student.testnet"), id.clone(), YOCTO);
    assert_eq!(r, Err(ContractError::InvalidLessonState));
    let unknown = c.buy_mentoring_process(&from_pool("student.testnet"), "nope".to_string(), YOCTO);
    assert_eq!(unknown, Err(ContractError::MentoringMissing));
}

fn pool_with_applicant() -> (ELearningContract, String) {
    let mut c = contract();
    register(&mut c, "owner2.testnet");
    c.storage_pool_request(&ctx("owner2.testnet"), "top_pool".to_string(), 1, 100, &paid()).unwrap();
    make_instructor(&mut c, "teach.testnet");
    make_instructor(&mut c, "other.testnet");
    let pool = "top_pool".to_string();
    c.apply_pool(&ctx("teach.testnet"), pool.clone()).unwrap();
    register(&mut c, "a.testnet");
    register(&mut c, "b.testnet");
    c.stake_process(&from_pool("a.testnet"), pool.clone(), 10).unwrap();
    (c, pool)
}

#[test]
fn votes_need_a_stake_and_an_applicant() {
    let (mut c, pool) = pool_with_applicant();
    let not_staker = c.vote_instructor(&ctx("b.testnet"), pool.clone(), "teach.testnet".to_string());
    assert_eq!(not_staker, Err(ContractError::NotStaker));
    let not_applied = c.vote_instructor(&ctx("a.testnet"), pool.clone(), "other.testnet".to_string());
    assert_eq!(not_applied, Err(ContractError::NotApplied));
    let no_pool = c.vote_instructor(&ctx("a.testnet"), "nope".to_string(), "teach.testnet".to_string());
    assert_eq!(no_pool, Err(ContractError::PoolMissing));
    let p = c.get_pool_metadata_by_pool_id(&pool).unwrap();
    assert_eq!(p.instructors_votes.get(&"teach.testnet".to_string()), Some(&0));
}

#[test]
fn unstaking_from_an_ended_pool_is_refused() {
    let (mut c, pool) = pool_with_applicant();
    c.make_end_stake_process(&ctx("owner2.testnet"), pool.clone()).unwrap();
    let r = c.unstake(&ctx("a.testnet"), pool);
    assert!(matches!(r, Err(ContractError::PoolInactive)));
}

#[test]
fn no_certificate_before_the_course_is_finished() {
    let mut c = contract();
    make_instructor(&mut c, "alice.testnet");
    register(&mut c, "bob.testnet");
    c.create_course(&ctx("alice.testnet"), "Rust".to_string(), None, None, 1, Vec::new()).unwrap();
    let mut pay = ctx("bob.testnet");
    pay.attached_deposit = YOCTO;
    c.payment_course(&pay, "rust_alice".to_string(), "h".to_string()).unwrap();
    let early = c.mint_certificate("rust_alice".to_string(), "bob.testnet".to_string(), Vec::new(), "m".to_string());
    assert_eq!(early, Err(ContractError::CourseNotCompleted));
    assert!(c.get_all_certificate_by_user_id(&"bob.testnet".to_string(), None, None).unwrap().is_empty());
}
