use elearning::context::{promise_status, CallContext, ContractError, PromiseOutcome};
use elearning::models::CreditType;
use elearning::pool_contract::{ElearningCall, PoolContract};
use elearning::repository::{
    assert_at_least_one_yocto, assert_one_yocto, check_encode, convert_coure_title_to_cousrse_id,
    convert_combo_title_to_combo_id, convert_mentoring_title_to_mentoring_id, convert_pool_title_to_pool_id,
    convert_to_certificate_id, convert_to_study_process_id, convert_to_yocto, encode_message, fits_in_yocto,
};

fn ctx(signer: &str, predecessor: &str, deposit: u128) -> CallContext {
    CallContext {
        signer: signer.to_string(),
        predecessor: predecessor.to_string(),
        current_account: "pool.testnet".to_string(),
        block_timestamp_ms: 0,
        attached_deposit: deposit,
    }
}

fn pool() -> PoolContract {
    PoolContract::init("elearning.testnet".to_string())
}

#[test]
fn pool_contract_starts_empty_with_standard_metadata() {
    let p = pool();
    assert_eq!(p.owner_id, "elearning.testnet");
    assert_eq!(p.metadata_pool_contract.name, "elearning");
    assert_eq!(p.metadata_pool_contract.symbol, "EganTeam");
    assert!(p.get_all_pool_id(None, None).is_empty());
}

#[test]
fn only_the_elearning_contract_records_ids() {
    let mut p = pool();
    let r = p.add_pool_id(&ctx("u.testnet", "u.testnet", 0), "x".to_string());
    assert_eq!(r, Err(ContractError::NoPermission));
    assert_eq!(p.add_pool_id(&ctx("u.testnet", "elearning.testnet", 0), "x".to_string()), Ok(1));
    assert_eq!(p.add_pool_id(&ctx("u.testnet", "elearning.testnet", 0), "x".to_string()), Ok(1));
    assert_eq!(p.get_all_pool_id(None, None), vec!["x".to_string()]);
    assert!(p.check_pool_existence(&"x".to_string()));
    assert_eq!(p.add_mentoring_id(&ctx("u.testnet", "elearning.testnet", 0), "m".to_string()), Ok(1));
    assert_eq!(p.get_all_mentoring_id(Some(0), Some(1)), vec!["m".to_string()]);
}

#[test]
fn staking_moves_the_deposit_and_calls_the_elearning_contract() {
    let mut p = pool();
    p.add_pool_id(&ctx("u.testnet", "elearning.testnet", 0), "x".to_string()).unwrap();
    let none = p.stake(&ctx("u.testnet", "u.testnet", 0), "x".to_string());
    assert!(matches!(none, Err(ContractError::DepositMissing)));
    let unknown = p.stake(&ctx("u.testnet", "u.testnet", 5), "y".to_string());
    assert!(matches!(unknown, Err(ContractError::PoolMissing)));
    let call = p.stake(&ctx("u.testnet", "u.testnet", 5), "x".to_string()).unwrap();
    assert_eq!(call.deposit.receiver, "pool.testnet");
    assert_eq!(call.deposit.amount, 5);
    assert_eq!(call.elearning, "elearning.testnet");
    assert!(matches!(call.call, ElearningCall::StakeProcess { amount: 5, .. }));
    assert_eq!(call.check_amount, 5);
    let unknown = p.buy_mentoring(&ctx("u.testnet", "u.testnet", 5), "m".to_string());
    assert!(matches!(unknown, Err(ContractError::UnknownMentoring)));
}

#[test]
fn check_result_refunds_when_the_elearning_contract_refuses() {
    let p = pool();
    let c = ctx("u.testnet", "pool.testnet", 0);
    let ok = p.check_result(&c, 7, &PromiseOutcome::Successful(b"\"1\"".to_vec())).unwrap();
    assert_eq!(ok.answer, 1);
    assert!(ok.transfers.is_empty());
    let refused = p.check_result(&c, 7, &PromiseOutcome::Successful(b"\"2\"".to_vec())).unwrap();
    assert_eq!(refused.answer, 2);
    assert_eq!(refused.transfers[0].receiver, "u.testnet");
    assert_eq!(refused.transfers[0].amount, 7);
    let failed = p.check_result(&c, 7, &PromiseOutcome::Failed).unwrap();
    assert_eq!(failed.answer, 2);
    assert!(matches!(p.check_result(&c, 7, &PromiseOutcome::NotReady), Err(ContractError::PromiseNotReady)));
}

#[test]
fn last_lesson_pays_mentor_and_refunds_rest() {
    let p = pool();
    let c = ctx("student.testnet", "elearning.testnet", 0);
    let both = p.transfer_last_lession(&c, "mentor.testnet".to_string(), 3, 4).unwrap();
    assert_eq!(both.answer, 1);
    assert_eq!(both.transfers.len(), 2);
    assert_eq!(both.transfers[0].receiver, "mentor.testnet");
    assert_eq!(both.transfers[1].receiver, "student.testnet");
    assert_eq!(both.transfers[1].amount, 4);
    let one = p.transfer_last_lession(&c, "mentor.testnet".to_string(), 3, 0).unwrap();
    assert_eq!(one.transfers.len(), 1);
    let refund = p.refund(&c, 9).unwrap();
    assert_eq!(refund.transfers[0].amount, 9);
    let claim = p.mentoring_claim(&c, "mentor.testnet".to_string(), 3).unwrap();
    assert_eq!(claim.transfers[0].receiver, "mentor.testnet");
    let withdraw = p.mentoring_withdraw(&c, 2).unwrap();
    assert_eq!(withdraw.transfers[0].receiver, "student.testnet");
    let stranger = ctx("student.testnet", "student.testnet", 0);
    assert!(matches!(p.refund(&stranger, 9), Err(ContractError::NoPermission)));
}

#[test]
fn promise_status_reads_a_json_number_string() {
    assert_eq!(promise_status(&PromiseOutcome::Successful(b"\"1\"".to_vec())), Ok(1));
    assert_eq!(promise_status(&PromiseOutcome::Successful(b"\"12345\"".to_vec())), Ok(12345));
    assert_eq!(promise_status(&PromiseOutcome::Successful(b"oops".to_vec())), Ok(2));
    assert_eq!(promise_status(&PromiseOutcome::Failed), Ok(2));
    assert_eq!(promise_status(&PromiseOutcome::NotReady), Err(ContractError::PromiseNotReady));
}

#[test]
fn identifiers_are_derived_from_titles_and_accounts() {
    assert_eq!(convert_coure_title_to_cousrse_id("Learn Rust", "alice.near".to_string()), "learn_rust_alice");
    assert_eq!(convert_combo_title_to_combo_id("Best Of"), "combo_best_of");
    assert_eq!(convert_pool_title_to_pool_id("Big Pool"), "big_pool");
    assert_eq!(convert_mentoring_title_to_mentoring_id("Help Me", "bob.testnet".to_string()), "mentoring_help_me_bob");
    assert_eq!(
        convert_to_certificate_id(&"learn_rust_alice".to_string(), &"Bob.testnet".to_string()),
        "cert_learn_rust_alice_bob"
    );
    assert_eq!(
        convert_to_study_process_id(&"mentoring_help_me_bob".to_string(), &"carol.near".to_string(), 1700),
        "mentoring_help_me_bob_for_carol_1700"
    );
    assert_eq!(convert_pool_title_to_pool_id("Ünïcödé Pool"), "unicode_pool");
}

#[test]
fn yocto_conversion_and_deposit_checks() {
    assert_eq!(convert_to_yocto(3), 3_000_000_000_000_000_000_000_000);
    assert!(fits_in_yocto(340_282_366_920_938));
    assert!(!fits_in_yocto(340_282_366_920_939));
    assert_eq!(assert_one_yocto(1), Ok(()));
    assert_eq!(assert_one_yocto(2), Err(ContractError::DepositNotOneYocto));
    assert_eq!(assert_at_least_one_yocto(0), Err(ContractError::DepositMissing));
}

#[test]
fn encode_check_compares_hex_of_the_digest() {
    assert_eq!(encode_message(&"abc".to_string()), "abcrTR3/4d4RCqJdS59ffoMb+N2uZYR8nwe");
    assert!(check_encode(&[0x00, 0xab, 0xff], &"00abff".to_string()));
    assert!(!check_encode(&[0x00, 0xab, 0xff], &"00ABFF".to_string()));
    assert!(!check_encode(&[1], &"1".to_string()));
}

#[test]
fn credit_grades_follow_fibonacci() {
    let grades = [
        CreditType::Easy,
        CreditType::Intermediate,
        CreditType::Challenging,
        CreditType::Advanced,
        CreditType::Complex,
        CreditType::Formidable,
        CreditType::Insurmountable,
    ];
    let values: Vec<u32> = grades.iter().map(|g| g.value()).collect();
    assert_eq!(values, vec![1, 2, 3, 5, 8, 13, 21]);
    for i in 2..values.len() {
        assert_eq!(values[i], values[i - 1] + values[i - 2]);
    }
}
