use elearning::context::{CallContext, Callback, ContractError, PoolCall, PromiseOutcome};
use elearning::elearning::ELearningContract;
use elearning::models::PoolState;

const YOCTO: u128 = 1_000_000_000_000_000_000_000_000;
const POOL: &str = "pool.testnet";

fn ctx(signer: &str) -> CallContext {
    CallContext {
        signer: signer.to_string(),
        predecessor: signer.to_string(),
        current_account: "elearning.testnet".to_string(),
        block_timestamp_ms: 42,
        attached_deposit: 0,
    }
}

fn from_pool(signer: &str) -> CallContext {
    let mut c = ctx(signer);
    c.predecessor = POOL.to_string();
    c
}

fn paid() -> PromiseOutcome {
    PromiseOutcome::Successful(b"\"1\"".to_vec())
}

fn contract() -> ELearningContract {
    let mut c = ELearningContract::init("owner.testnet".to_string());
    c.update_pool_address(&ctx("owner.testnet"), POOL.to_string()).unwrap();
    c
}

fn register(c: &mut ELearningContract, who: &str) {
    c.create_user(&ctx(who), None, None, None, None, None).unwrap();
}

fn make_instructor(c: &mut ELearningContract, who: &str) {
    register(c, who);
    c.update_user_information(&ctx(who), None, None, None, None, None, Some("cv".to_string())).unwrap();
    c.update_role(&ctx(who)).unwrap();
}

fn mentoring_contract() -> (ELearningContract, String, String) {
    let mut c = contract();
    register(&mut c, "mentor.testnet");
    register(&mut c, "student.testnet");
    let call = c.create_mentoring(&ctx("mentor.testnet"), "Rust Help".to_string(), 2, None).unwrap();
    assert!(matches!(call.call, PoolCall::AddMentoringId { .. }));
    let id = "mentoring_rust_help_mentor".to_string();
    c.storage_mentoring(&ctx("mentor.testnet"), "Rust Help".to_string(), id.clone(), 2, None).unwrap();
    let r = c.buy_mentoring_process(&from_pool("student.testnet"), id.clone(), 6 * YOCTO).unwrap();
    assert_eq!(r, 1);
    (c, id, "mentoring_rust_help_mentor_for_student_42".to_string())
}

#[test]
fn update_pool_address_only_by_owner() {
    let mut c = ELearningContract::init("owner.testnet".to_string());
    let r = c.update_pool_address(&ctx("eve.testnet"), "x".to_string());
    assert_eq!(r, Err(ContractError::NoPermission));
    c.update_pool_address(&ctx("owner.testnet"), POOL.to_string()).unwrap();
    assert_eq!(c.pool_address, POOL);
}

#[test]
fn buying_a_mentoring_creates_a_study_process() {
    let (c, id, sp_id) = mentoring_contract();
    let m = c.get_mentoring_metadata_by_mentoring_id(&id).unwrap();
    assert_eq!(m.price_per_lession, 2 * YOCTO);
    let sp = m
        .study_process
        .get(&"student.testnet".to_string())
        .unwrap()
        .study_process_list
        .get(&sp_id)
        .unwrap();
    assert_eq!(sp.total_lession, 3);
    assert_eq!(sp.remaining_amount, 6 * YOCTO);
    assert_eq!(sp.start_at, 42);
}

#[test]
fn buy_mentoring_process_answers_two_for_owner_and_stranger() {
    let (mut c, id, _) = mentoring_contract();
    assert_eq!(c.buy_mentoring_process(&from_pool("mentor.testnet"), id.clone(), YOCTO), Ok(2));
    assert_eq!(c.buy_mentoring_process(&from_pool("eve.testnet"), id.clone(), YOCTO), Ok(2));
    assert_eq!(c.buy_mentoring_process(&from_pool("student.testnet"), id.clone(), YOCTO), Ok(2));
    let direct = c.buy_mentoring_process(&ctx("student.testnet"), id, YOCTO);
    assert_eq!(direct, Err(ContractError::NoPermission));
}

#[test]
fn lessons_move_price_from_remaining_to_claims() {
    let (mut c, id, sp_id) = mentoring_contract();
    let call = c.make_lession_completed(&ctx("student.testnet"), id.clone(), sp_id.clone()).unwrap();
    assert!(matches!(call.callback, Callback::RemoveClaimInfo { .. }));
    c.remove_claim_info(id.clone(), "student.testnet".to_string(), sp_id.clone(), &paid()).unwrap();
    let sp = |c: &ELearningContract| {
        c.get_mentoring_metadata_by_mentoring_id(&id)
            .unwrap()
            .study_process
            .get(&"student.testnet".to_string())
            .unwrap()
            .study_process_list
            .get(&sp_id)
            .unwrap()
            .clone()
    };
    let now = sp(&c);
    assert_eq!(now.lession_completed, 1);
    assert_eq!(now.remaining_amount, 4 * YOCTO);
    assert_eq!(now.total_claim, 2 * YOCTO);
    assert_eq!(now.remaining_amount + now.lession_completed as u128 * now.price_per_lession, now.total_amount);
    c.make_lession_completed(&ctx("student.testnet"), id.clone(), sp_id.clone()).unwrap();
    let last = c.make_lession_completed(&ctx("student.testnet"), id.clone(), sp_id.clone()).unwrap();
    match last.call {
        PoolCall::TransferLastLession { receiver, price_per_lession, remaining_amout } => {
            assert_eq!(receiver, "mentor.testnet");
            assert_eq!(price_per_lession, 2 * YOCTO);
            assert_eq!(remaining_amout, 0);
        },
        _ => panic!("expected the last lesson's transfer"),
    }
    c.complete_study_process(&ctx("student.testnet"), &id, sp_id.clone()).unwrap();
    let done = sp(&c);
    assert!(done.mentoring_completed);
    assert_eq!(done.lession_completed, 3);
    assert_eq!(done.remaining_amount, 0);
    let finished = c.make_lession_completed(&ctx("student.testnet"), id, sp_id);
    assert!(matches!(finished, Err(ContractError::StudyProcessFinished)));
    let student = c.get_user_metadata_by_user_id(&"student.testnet".to_string()).unwrap();
    assert_eq!(student.metadata.total_credit, 1);
}

#[test]
fn withdrawing_ends_the_study_process() {
    let (mut c, id, sp_id) = mentoring_contract();
    let call = c.mentoring_withdraw(&ctx("student.testnet"), id.clone(), sp_id.clone()).unwrap();
    assert!(matches!(call.call, PoolCall::MentoringWithdraw { amount } if amount == 6 * YOCTO));
    let refused = PromiseOutcome::Successful(b"\"2\"".to_vec());
    c.make_study_process_end(&ctx("student.testnet"), &id, sp_id.clone(), &refused).unwrap();
    assert!(c.mentoring_withdraw(&ctx("student.testnet"), id.clone(), sp_id.clone()).is_ok());
    c.make_study_process_end(&ctx("student.testnet"), &id, sp_id.clone(), &paid()).unwrap();
    let again = c.mentoring_withdraw(&ctx("student.testnet"), id, sp_id);
    assert!(matches!(again, Err(ContractError::WithdrawNotAllowed)));
}

#[test]
fn update_mentoring_only_by_owner() {
    let (mut c, id, _) = mentoring_contract();
    let r = c.update_mentoring(&ctx("student.testnet"), &id, Some(1), None);
    assert_eq!(r, Err(ContractError::NotMentoringOwner));
    c.update_mentoring(&ctx("mentor.testnet"), &id, Some(5), Some("d".to_string())).unwrap();
    let m = c.get_mentoring_metadata_by_mentoring_id(&id).unwrap();
    assert_eq!(m.price_per_lession, 5);
    assert_eq!(m.description, Some("d".to_string()));
}

fn pool_contract() -> ELearningContract {
    let mut c = contract();
    register(&mut c, "owner2.testnet");
    let call = c.create_pool_request(&ctx("owner2.testnet"), "Top Pool".to_string(), 1, 100).unwrap();
    assert!(matches!(call.call, PoolCall::AddPoolId { .. }));
    c.storage_pool_request(&ctx("owner2.testnet"), "top_pool".to_string(), 1, 100, &paid()).unwrap();
    c
}

#[test]
fn pool_request_is_stored_when_pool_contract_agrees() {
    let mut c = pool_contract();
    let p = c.get_pool_metadata_by_pool_id(&"top_pool".to_string()).unwrap();
    assert_eq!(p.pool_state, PoolState::ACTIVE);
    assert_eq!(p.staking_period, 259200000);
    assert_eq!(p.unstaking_period, 864000000);
    assert_eq!(p.owner_id, "owner2.testnet");
    c.storage_pool_request(&ctx("x.testnet"), "other".to_string(), 1, 2, &PromiseOutcome::Failed).unwrap();
    assert!(!c.check_pool_request_exist(&"other".to_string()));
    let not_ready = c.storage_pool_request(&ctx("x.testnet"), "other".to_string(), 1, 2, &PromiseOutcome::NotReady);
    assert_eq!(not_ready, Err(ContractError::PromiseNotReady));
    let dup = c.create_pool_request(&ctx("owner2.testnet"), "Top Pool".to_string(), 1, 100);
    assert!(matches!(dup, Err(ContractError::PoolExists)));
    assert_eq!(c.get_all_pool_id(None, None), vec!["top_pool".to_string()]);
}

#[test]
fn stakers_vote_and_the_owner_ends_the_vote() {
    let mut c = pool_contract();
    let pool = "top_pool".to_string();
    make_instructor(&mut c, "teach.testnet");
    c.apply_pool(&ctx("teach.testnet"), pool.clone()).unwrap();
    assert_eq!(c.apply_pool(&ctx("teach.testnet"), pool.clone()), Err(ContractError::AlreadyApplied));
    for s in ["a.testnet", "b.testnet", "c.testnet"] {
        register(&mut c, s);
        assert_eq!(c.stake_process(&from_pool(s), pool.clone(), 10), Ok(1));
    }
    assert_eq!(c.stake_process(&from_pool("a.testnet"), pool.clone(), 5), Ok(1));
    assert_eq!(c.stake_process(&from_pool("ghost.testnet"), pool.clone(), 5), Ok(2));
    c.vote_instructor(&ctx("a.testnet"), pool.clone(), "teach.testnet".to_string()).unwrap();
    let twice = c.vote_instructor(&ctx("a.testnet"), pool.clone(), "teach.testnet".to_string());
    assert_eq!(twice, Err(ContractError::AlreadyVoted));
    c.vote_instructor(&ctx("b.testnet"), pool.clone(), "teach.testnet".to_string()).unwrap();
    let p = c.get_pool_metadata_by_pool_id(&pool).unwrap();
    assert_eq!(p.current_stake, 35);
    assert_eq!(p.total_stake, 35);
    assert_eq!(p.instructors_votes.get(&"teach.testnet".to_string()), Some(&2));
    let not_owner = c.make_end_stake_process(&ctx("a.testnet"), pool.clone());
    assert_eq!(not_owner, Err(ContractError::NotPoolOwner));
    c.make_end_stake_process(&ctx("owner2.testnet"), pool.clone()).unwrap();
    let p = c.get_pool_metadata_by_pool_id(&pool).unwrap();
    assert_eq!(p.winner, Some("teach.testnet".to_string()));
    assert_eq!(p.pool_state, PoolState::DEACTIVED);
}

#[test]
fn too_few_votes_leave_no_winner() {
    let mut c = pool_contract();
    let pool = "top_pool".to_string();
    make_instructor(&mut c, "teach.testnet");
    c.apply_pool(&ctx("teach.testnet"), pool.clone()).unwrap();
    for s in ["a.testnet", "b.testnet", "c.testnet"] {
        register(&mut c, s);
        c.stake_process(&from_pool(s), pool.clone(), 10).unwrap();
    }
    c.vote_instructor(&ctx("a.testnet"), pool.clone(), "teach.testnet".to_string()).unwrap();
    c.make_end_stake_process(&ctx("owner2.testnet"), pool.clone()).unwrap();
    assert_eq!(c.get_pool_metadata_by_pool_id(&pool).unwrap().winner, None);
}

#[test]
fn unstaking_takes_the_vote_back() {
    let mut c = pool_contract();
    let pool = "top_pool".to_string();
    make_instructor(&mut c, "teach.testnet");
    c.apply_pool(&ctx("teach.testnet"), pool.clone()).unwrap();
    register(&mut c, "a.testnet");
    c.stake_process(&from_pool("a.testnet"), pool.clone(), 10).unwrap();
    c.vote_instructor(&ctx("a.testnet"), pool.clone(), "teach.testnet".to_string()).unwrap();
    let call = c.unstake(&ctx("a.testnet"), pool.clone()).unwrap();
    assert!(matches!(call.call, PoolCall::Refund { amount: 10 }));
    c.remove_stake_info(&ctx("a.testnet"), pool.clone(), "a.testnet".to_string(), 10, &paid()).unwrap();
    let p = c.get_pool_metadata_by_pool_id(&pool).unwrap();
    assert_eq!(p.current_stake, 0);
    assert_eq!(p.total_stake, 10);
    assert_eq!(p.instructors_votes.get(&"teach.testnet".to_string()), Some(&0));
    assert!(!c.check_staker(&pool, &"a.testnet".to_string()));
    assert_eq!(p.unstake_info.get(&"a.testnet".to_string()).unwrap().unstake_value, 10);
    let not_staker = c.unstake(&ctx("a.testnet"), pool);
    assert!(matches!(not_staker, Err(ContractError::WithdrawNotAllowed)));
}

#[test]
fn stake_process_is_for_the_pool_contract_only() {
    let mut c = pool_contract();
    register(&mut c, "a.testnet");
    let r = c.stake_process(&ctx("a.testnet"), "top_pool".to_string(), 10);
    assert_eq!(r, Err(ContractError::NoPermission));
}
