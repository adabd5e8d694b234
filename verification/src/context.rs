//! What a contract call receives from its environment, what it asks the
//! environment to do, and why it refuses a call.
use vstd::prelude::*;

use crate::foreign::{json_u128_of, parse_json_u128};

verus! {

/// The environment of one contract call.
pub struct CallContext {
    /// Account that signed the transaction.
    pub signer: String,
    /// Account that made this call (the signer, or a contract).
    pub predecessor: String,
    /// Account of the contract itself.
    pub current_account: String,
    /// Block time in milliseconds.
    pub block_timestamp_ms: u64,
    /// Amount attached to the call, in yoctoNEAR.
    pub attached_deposit: u128,
}

/// Why a call is refused. A refused call changes nothing.
#[derive(PartialEq, Eq, Structural, Clone, Copy, Debug)]
pub enum ContractError {
    /// The deposit is not exactly one yoctoNEAR.
    DepositNotOneYocto,
    /// No deposit is attached.
    DepositMissing,
    /// The caller is not registered.
    NotRegistered,
    /// The user is already registered.
    AlreadyRegistered,
    /// The caller is not an instructor.
    NotInstructor,
    /// The user is already an instructor.
    AlreadyInstructor,
    /// The user has no resume.
    ResumeMissing,
    /// A course with this id already exists.
    CourseExists,
    /// The course does not exist.
    CourseMissing,
    /// The user is not a student of the course.
    NotStudent,
    /// The student has not completed the course.
    CourseNotCompleted,
    /// The certificate already exists (the course is already completed).
    CertificateExists,
    /// The rating is above 10.
    RatingTooHigh,
    /// The hash does not match.
    HashMismatch,
    /// The caller does not own the course.
    NotCourseOwner,
    /// The user already has the course.
    CourseAlreadyOwned,
    /// The deposit does not cover the price.
    DepositTooLow,
    /// The caller is not an instructor of the course.
    NotCourseMember,
    /// The instructor has already agreed.
    AlreadyAgreed,
    /// The instructor has not agreed yet.
    NotAgreed,
    /// The instructor has too few units.
    NotEnoughUnit,
    /// Too few instructors agree.
    NoConsensus,
    /// The instructor is already in the course.
    InstructorExists,
    /// The instructor is not in the course.
    InstructorMissing,
    /// The instructor's units differ from the agreed units.
    UnitMismatch,
    /// A combo with this id already exists.
    ComboExists,
    /// The combo does not exist.
    ComboMissing,
    /// The course is not in the combo.
    CourseNotInCombo,
    /// The course is already enabled in the combo.
    CourseAlreadyEnabled,
    /// The combo is not active.
    ComboInactive,
    /// The bought courses do not match the enabled courses.
    ComboCoursesDuplicated,
    /// A mentoring with this id already exists.
    MentoringExists,
    /// The mentoring does not exist.
    MentoringMissing,
    /// The student is not in the mentoring.
    StudentNotInMentoring,
    /// The study process is finished.
    StudyProcessFinished,
    /// The study process does not exist.
    StudyProcessMissing,
    /// The caller does not own the mentoring.
    NotMentoringOwner,
    /// The caller may not withdraw.
    WithdrawNotAllowed,
    /// Only the pool contract (or the owner) may call this.
    NoPermission,
    /// A pool with this id already exists.
    PoolExists,
    /// The pool does not exist.
    PoolMissing,
    /// The caller does not own the pool.
    NotPoolOwner,
    /// The caller is not a staker of the pool.
    NotStaker,
    /// The staker has already voted.
    AlreadyVoted,
    /// The instructor has already applied.
    AlreadyApplied,
    /// The instructor has not applied to the pool.
    NotApplied,
    /// The pool is not active.
    PoolInactive,
    /// The pool contract does not know the mentoring.
    UnknownMentoring,
    /// A promise result is not ready.
    PromiseNotReady,
    /// An amount leaves the range of its integer type.
    ArithmeticOverflow,
    /// A lesson count or price is zero where it divides or is decremented.
    InvalidLessonState,
    /// A record that the call reads does not exist.
    RecordMissing,
}

/// A call from the e-learning contract to the pool contract.
pub enum PoolCall {
    AddPoolId { pool_id: String },
    Refund { amount: u128 },
    AddMentoringId { mentoring_id: String },
    MentoringClaim { receiver: String, amount: u128 },
    MentoringWithdraw { amount: u128 },
    TransferLastLession { receiver: String, price_per_lession: u128, remaining_amout: u128 },
}

/// The method of the e-learning contract that receives a pool call's result.
pub enum Callback {
    StoragePoolRequest { pool_id: String, minimum_stake: u128, maximum_stake: u128 },
    StorageMentoring {
        mentoring_title: String,
        mentoring_id: String,
        price_per_lession: u128,
        description: Option<String>,
    },
    RemoveClaimInfo { mentoring_id: String, student_id: String, study_process_id: String },
    CompleteStudyProcess { mentoring_id: String, study_process_id: String },
    MakeStudyProcessEnd { mentoring_id: String, study_process_id: String },
    RemoveStakeInfo { pool_id: String, staker_id: String, amount: u128 },
}

/// A call to the pool contract followed by a callback into this contract.
pub struct CrossCall {
    /// The pool contract's account.
    pub pool_address: String,
    pub call: PoolCall,
    pub callback: Callback,
}

/// A transfer of NEAR.
pub struct Transfer {
    pub receiver: String,
    pub amount: u128,
}

/// The result of the promise a callback follows.
pub enum PromiseOutcome {
    NotReady,
    Successful(Vec<u8>),
    Failed,
}

/// The status a callback reads from its promise: the number the call returned,
/// or 2 where the call failed or returned something that is not a number.
pub open spec fn promise_status_spec(o: PromiseOutcome) -> u128 {
    match o {
        PromiseOutcome::Successful(b) => match json_u128_of(b@) {
            Some(v) => v,
            None => 2,
        },
        _ => 2,
    }
}

/// Reads a promise's status; a result that is not ready aborts the call.
pub fn promise_status(o: &PromiseOutcome) -> (r: Result<u128, ContractError>)
    ensures
        match r {
            Ok(v) => !(*o is NotReady) && v == promise_status_spec(*o),
            Err(e) => *o is NotReady && e == ContractError::PromiseNotReady,
        },
{
    match o {
        PromiseOutcome::NotReady => Err(ContractError::PromiseNotReady),
        PromiseOutcome::Successful(b) => match parse_json_u128(b.as_slice()) {
            Some(v) => Ok(v),
            None => Ok(2),
        },
        PromiseOutcome::Failed => Ok(2),
    }
}

} // verus!
