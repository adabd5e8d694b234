//! The records the platform keeps: users, courses, certificates, skills,
//! combos, mentorings and staking pools.
use vstd::prelude::*;

use crate::collections::StrMap;

verus! {

/// What a user is on the platform.
#[derive(PartialEq, Eq, Structural, Clone, Copy, Debug)]
pub enum Roles {
    Subscriber,
    Instructor,
}

/// The profile part of a user record.
#[derive(Debug)]
pub struct UserMetadata {
    pub user_id: String,
    pub role: Roles,
    pub nickname: String,
    pub total_credit: u32,
    pub first_name: Option<String>,
    pub last_name: Option<String>,
    pub bio: Option<String>,
    pub avatar: Option<String>,
    pub resume: Option<String>,
    pub created_at: u64,
    pub updated_at: u64,
    pub courses_owned: u32,
    pub students: u32,
}

/// A user record: profile, skill credits, certificates and purchased courses.
pub struct JsonUser {
    pub user_id: String,
    pub metadata: UserMetadata,
    pub skill: StrMap<u32>,
    pub certificate: Vec<String>,
    pub courses: Vec<String>,
}

impl Clone for UserMetadata {
    fn clone(&self) -> (r: Self)
        ensures
            r == *self,
    {
        UserMetadata {
            user_id: self.user_id.clone(),
            role: self.role,
            nickname: self.nickname.clone(),
            total_credit: self.total_credit,
            first_name: self.first_name.clone(),
            last_name: self.last_name.clone(),
            bio: self.bio.clone(),
            avatar: self.avatar.clone(),
            resume: self.resume.clone(),
            created_at: self.created_at,
            updated_at: self.updated_at,
            courses_owned: self.courses_owned,
            students: self.students,
        }
    }
}

/// `a` and `b` hold the same user record.
pub open spec fn same_user(a: JsonUser, b: JsonUser) -> bool {
    &&& a.user_id == b.user_id
    &&& a.metadata == b.metadata
    &&& a.skill@ == b.skill@
    &&& a.certificate@ == b.certificate@
    &&& a.courses@ == b.courses@
}

impl Clone for JsonUser {
    fn clone(&self) -> (r: Self)
        ensures
            same_user(r, *self),
    {
        let skill = self.skill.clone();
        let certificate = self.certificate.clone();
        let courses = self.courses.clone();
        assert(skill@ =~= self.skill@);
        assert(certificate@ =~= self.certificate@);
        assert(courses@ =~= self.courses@);
        JsonUser {
            user_id: self.user_id.clone(),
            metadata: self.metadata.clone(),
            skill,
            certificate,
            courses,
        }
    }
}

/// A skill with the credit it is worth.
#[derive(Debug)]
pub struct WrapSkill {
    pub skill_id: String,
    pub credit: u32,
}

impl Clone for WrapSkill {
    fn clone(&self) -> (r: Self)
        ensures
            r == *self,
    {
        WrapSkill { skill_id: self.skill_id.clone(), credit: self.credit }
    }
}

/// A skill earned from a certificate.
#[derive(Clone, Debug)]
pub struct SkillMetadata {
    pub skill_id: String,
    pub credit: u32,
    pub credit_from: String,
    pub use_skill: bool,
}

/// A certificate minted for a student when a course is completed.
#[derive(Clone, Debug)]
pub struct CertificateMetadata {
    /// Unique identifier for the certificate.
    pub certificate_id: String,
    /// Student who owns the certificate.
    pub student: String,
    /// Skills the student owns after the course.
    pub skills: Vec<WrapSkill>,
    /// The certificate link.
    pub media: String,
}

/// Whether a combo can be bought.
#[derive(PartialEq, Eq, Structural, Clone, Copy, Debug, Default)]
pub enum ComboState {
    /// Not every course of the combo is enabled yet.
    #[default]
    DEACTIVED,
    /// Every course of the combo is enabled.
    ACTIVE,
}

/// A course inside a combo, with its price in the combo.
#[derive(Clone, Debug)]
pub struct WrapCombo {
    pub course_id: String,
    pub price: u128,
}

/// A bundle of courses sold together.
#[derive(Clone, Debug)]
pub struct ComboMetadata {
    pub combo_id: String,
    pub combo_state: ComboState,
    /// Courses whose owner has enabled them in the combo.
    pub enable_course: Vec<String>,
    /// Price of each course in the combo.
    pub courses: Vec<WrapCombo>,
    pub description: Option<String>,
    pub media: Option<String>,
}

/// A course.
pub struct CourseMetadata {
    pub course_id: String,
    /// Skills a student owns after the course.
    pub skills: Vec<String>,
    pub title: String,
    pub description: Option<String>,
    pub media: Option<String>,
    /// Instructors, each with the units (out of 10000) of the course they own.
    pub instructor_id: StrMap<u32>,
    pub created_at: u64,
    pub update_at: u64,
    pub price: u128,
    /// Students studying the course, with their hash.
    pub students_studying_map: StrMap<String>,
    /// Students who completed the course, with their rating.
    pub students_completed: StrMap<u16>,
    pub rating: u8,
    pub rating_count: u32,
    pub content: String,
    /// Units each agreeing instructor gives up for a new instructor.
    pub consensus: StrMap<u32>,
}

/// `a` and `b` hold the same course record.
pub open spec fn same_course(a: CourseMetadata, b: CourseMetadata) -> bool {
    &&& a.course_id == b.course_id
    &&& a.skills@ == b.skills@
    &&& a.title == b.title
    &&& a.description == b.description
    &&& a.media == b.media
    &&& a.instructor_id@ == b.instructor_id@
    &&& a.created_at == b.created_at
    &&& a.update_at == b.update_at
    &&& a.price == b.price
    &&& a.students_studying_map@ == b.students_studying_map@
    &&& a.students_completed@ == b.students_completed@
    &&& a.rating == b.rating
    &&& a.rating_count == b.rating_count
    &&& a.content == b.content
    &&& a.consensus@ == b.consensus@
}

impl Clone for CourseMetadata {
    fn clone(&self) -> (r: Self)
        ensures
            same_course(r, *self),
    {
        let skills = self.skills.clone();
        assert(skills@ =~= self.skills@);
        let instructor_id = self.instructor_id.clone();
        assert(instructor_id@ =~= self.instructor_id@);
        let students_studying_map = self.students_studying_map.clone();
        assert(students_studying_map@ =~= self.students_studying_map@);
        let students_completed = self.students_completed.clone();
        assert(students_completed@ =~= self.students_completed@);
        let consensus = self.consensus.clone();
        assert(consensus@ =~= self.consensus@);
        CourseMetadata {
            course_id: self.course_id.clone(),
            skills,
            title: self.title.clone(),
            description: self.description.clone(),
            media: self.media.clone(),
            instructor_id,
            created_at: self.created_at,
            update_at: self.update_at,
            price: self.price,
            students_studying_map,
            students_completed,
            rating: self.rating,
            rating_count: self.rating_count,
            content: self.content.clone(),
            consensus,
        }
    }
}

/// One student's purchase of lessons in a mentoring.
#[derive(Clone, Debug)]
pub struct StudyProcessMetadata {
    pub study_process_id: String,
    /// Student who bought this study process.
    pub student_id: String,
    pub start_at: u64,
    /// Number of lessons bought.
    pub total_lession: u32,
    pub mentoring_completed: bool,
    /// Total amount the mentor has claimed.
    pub total_claim: u128,
    pub lession_completed: u32,
    /// Total amount the student staked.
    pub total_amount: u128,
    /// Amount not yet paid to the mentor.
    pub remaining_amount: u128,
    pub price_per_lession: u128,
}

/// The study processes of one student in a mentoring.
#[derive(Clone)]
pub struct StudyProcessList {
    pub study_process_list: StrMap<StudyProcessMetadata>,
}

/// A mentoring offer.
#[derive(Clone)]
pub struct MentoringMetadata {
    pub mentoring_title: String,
    pub mentoring_id: String,
    pub mentoring_owner: String,
    pub price_per_lession: u128,
    pub description: Option<String>,
    /// Study processes of each student.
    pub study_process: StrMap<StudyProcessList>,
}

/// Life cycle of a staking pool.
#[derive(PartialEq, Eq, Structural, Clone, Copy, Debug, Default)]
pub enum PoolState {
    #[default]
    IDLE,
    ACTIVE,
    DEACTIVED,
    CLOSED,
}

/// A stake in a pool.
#[derive(Clone, Debug)]
pub struct StakeInfo {
    pub staker_id: String,
    pub stake_value: u128,
    pub stake_at: u64,
    pub voted_for: Option<String>,
}

/// A withdrawn stake.
#[derive(Clone, Debug)]
pub struct UnstakeInfo {
    pub staker_id: String,
    pub unstake_value: u128,
    pub unstake_at: u64,
}

/// A staking pool in which stakers vote for an instructor.
#[derive(Clone)]
pub struct PoolMetadata {
    pub pool_id: String,
    pub owner_id: String,
    pub create_at: u64,
    pub pool_state: PoolState,
    pub total_stake: u128,
    pub current_stake: u128,
    pub minimum_stake: u128,
    pub maximum_stake: u128,
    pub staking_period: u64,
    pub unstaking_period: u64,
    /// Votes each applying instructor has received.
    pub instructors_votes: StrMap<u32>,
    pub winner: Option<String>,
    pub stake_info: StrMap<StakeInfo>,
    pub unstake_info: StrMap<UnstakeInfo>,
    pub description: Option<String>,
}

/// A course of a combo with the hash the buyer gives for it.
#[derive(Clone, Debug)]
pub struct WrapComboHash {
    pub course_id: String,
    pub encode_check: String,
}

/// Difficulty grades; each is worth a number of credits.
#[derive(PartialEq, Eq, Structural, Clone, Copy, Debug)]
pub enum CreditType {
    Easy,
    Intermediate,
    Challenging,
    Advanced,
    Complex,
    Formidable,
    Insurmountable,
}

/// Credits a grade is worth.
pub open spec fn credit_value(c: CreditType) -> u32 {
    match c {
        CreditType::Easy => 1,
        CreditType::Intermediate => 2,
        CreditType::Challenging => 3,
        CreditType::Advanced => 5,
        CreditType::Complex => 8,
        CreditType::Formidable => 13,
        CreditType::Insurmountable => 21,
    }
}

impl CreditType {
    /// Credits this grade is worth.
    pub fn value(&self) -> (v: u32)
        ensures
            v == credit_value(*self),
    {
        match self {
            CreditType::Easy => 1,
            CreditType::Intermediate => 2,
            CreditType::Challenging => 3,
            CreditType::Advanced => 5,
            CreditType::Complex => 8,
            CreditType::Formidable => 13,
            CreditType::Insurmountable => 21,
        }
    }
}

/// Each grade from `Challenging` on is worth the two grades below it together.
pub proof fn credit_grades_add_up()
    ensures
        credit_value(CreditType::Challenging) == credit_value(CreditType::Easy) + credit_value(
            CreditType::Intermediate,
        ),
        credit_value(CreditType::Advanced) == credit_value(CreditType::Intermediate)
            + credit_value(CreditType::Challenging),
        credit_value(CreditType::Complex) == credit_value(CreditType::Challenging) + credit_value(
            CreditType::Advanced,
        ),
        credit_value(CreditType::Formidable) == credit_value(CreditType::Advanced) + credit_value(
            CreditType::Complex,
        ),
        credit_value(CreditType::Insurmountable) == credit_value(CreditType::Complex)
            + credit_value(CreditType::Formidable),
{
}

} // verus!
