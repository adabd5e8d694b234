//! The e-learning contract's state, its invariant, and the lookups and checks
//! its methods share.
use vstd::prelude::*;

use crate::collections::{contains_string, has_view, views_of, StrMap, StrSet};
use crate::context::ContractError;
use crate::pools::votes_counted;
use crate::shares::map_total;
use crate::models::{CertificateMetadata, ComboMetadata, ComboState, CourseMetadata, JsonUser, MentoringMetadata, PoolMetadata, SkillMetadata, StudyProcessMetadata, WrapCombo};

verus! {

/// Descriptive metadata of the e-learning contract.
#[derive(Clone, Debug)]
pub struct ELearningContractMetadata {
    pub spec: String,
    pub name: String,
    pub symbol: String,
    pub icon: Option<String>,
    pub base_uri: Option<String>,
    pub reference: Option<String>,
    pub reference_hash: Option<Vec<u8>>,
}

/// The e-learning contract's state.
pub struct ELearningContract {
    pub owner_id: String,
    /// Account of the pool contract.
    pub pool_address: String,
    pub metadata_contract: ELearningContractMetadata,
    pub subscriber_users: StrSet,
    pub intructor_users: StrSet,
    pub all_course_id: StrSet,
    pub user_metadata_by_id: StrMap<JsonUser>,
    pub courses_per_instructor: StrMap<StrSet>,
    pub course_metadata_by_id: StrMap<CourseMetadata>,
    pub certificate_metadata_by_id: StrMap<CertificateMetadata>,
    pub skill_metadata_by_skill_id: StrMap<Vec<SkillMetadata>>,
    pub all_pool_id: StrSet,
    pub pool_metadata_by_pool_id: StrMap<PoolMetadata>,
    pub all_combo_id: StrSet,
    pub combo_metadata_by_combo_id: StrMap<ComboMetadata>,
    pub all_mentoring_id: StrSet,
    pub mentoring_metadata_by_mentoring_id: StrMap<MentoringMetadata>,
}

/// Every member of `s` is a key of `m`.
pub open spec fn all_keyed<V>(s: Seq<Seq<char>>, m: Map<Seq<char>, V>) -> bool {
    forall|i: int| 0 <= i < s.len() ==> m.contains_key(#[trigger] s[i])
}

/// In every pool, what is staked now is at most what was ever staked.
pub open spec fn stakes_accounted(pools: Map<Seq<char>, PoolMetadata>) -> bool {
    forall|p: Seq<char>| #[trigger] pools.contains_key(p) ==> pools[p].current_stake <= pools[p].total_stake
}

/// Until a study process ends, what remains of it is what the student paid
/// less one lesson's price per completed lesson, and a lesson is left to take
/// once one has been taken.
pub open spec fn study_process_balanced(sp: StudyProcessMetadata) -> bool {
    !sp.mentoring_completed ==> sp.remaining_amount + sp.lession_completed * sp.price_per_lession == sp.total_amount
        && (sp.lession_completed < sp.total_lession || sp.lession_completed == 0)
}

/// Every study process of the mentoring is balanced.
pub open spec fn mentoring_balanced(m: MentoringMetadata) -> bool {
    forall|s: Seq<char>, p: Seq<char>| #[trigger]
        m.study_process@[s].study_process_list@.contains_key(p) && m.study_process@.contains_key(s)
            ==> study_process_balanced(m.study_process@[s].study_process_list@[p])
}

/// A combo's enabled courses are some of its courses, each enabled once, and
/// an active combo has as many enabled courses as it lists.
pub open spec fn combo_sound(c: ComboMetadata) -> bool {
    &&& views_of(c.enable_course@).no_duplicates()
    &&& forall|i: int|
        0 <= i < c.enable_course@.len() ==> combo_has_course(c.courses@, #[trigger] c.enable_course@[i]@)
    &&& c.combo_state == ComboState::ACTIVE ==> c.enable_course@.len() == c.courses@.len()
}

/// Every string of `s` is a key of `m`.
pub open spec fn all_strings_keyed<V>(s: Seq<String>, m: Map<Seq<char>, V>) -> bool {
    forall|i: int| 0 <= i < s.len() ==> m.contains_key(#[trigger] s[i]@)
}

/// The page of `s` that starts at `start` and holds at most `limit` members.
pub open spec fn page_of<A>(s: Seq<A>, start: nat, limit: nat) -> Seq<A> {
    if start >= s.len() {
        Seq::empty()
    } else if start + limit >= s.len() {
        s.subrange(start as int, s.len() as int)
    } else {
        s.subrange(start as int, (start + limit) as int)
    }
}

/// A page holds at most `limit` members, the members of `s` from position
/// `start` on, in order.
pub proof fn page_is_a_window<A>(s: Seq<A>, start: nat, limit: nat)
    ensures
        page_of(s, start, limit).len() <= limit,
        start >= s.len() ==> page_of(s, start, limit).len() == 0,
        start < s.len() ==> page_of(s, start, limit).len() == if start + limit >= s.len() {
            s.len() - start
        } else {
            limit as int
        },
        forall|i: int| 0 <= i < page_of(s, start, limit).len() ==> #[trigger] page_of(s, start, limit)[i] == s[start + i],
{
}

/// `start` with its default.
pub open spec fn start_or_zero(start: Option<u32>) -> nat {
    match start {
        Some(s) => s as nat,
        None => 0,
    }
}

/// `limit` with a default of `d`.
pub open spec fn limit_or(limit: Option<u32>, d: nat) -> nat {
    match limit {
        Some(l) => l as nat,
        None => d,
    }
}

/// Bounds of a page: `(first, end)` positions in a sequence of length `len`.
pub fn page_bounds(len: usize, start: Option<u32>, limit: Option<u32>, default_limit: u32) -> (r: (
    usize,
    usize,
))
    ensures
        r.0 <= r.1 <= len,
        ({
            let s = start_or_zero(start);
            let l = limit_or(limit, default_limit as nat);
            if s >= len {
                r.0 == r.1
            } else {
                r.0 == s && r.1 == if s + l >= len {
                    len as int
                } else {
                    (s + l) as int
                }
            }
        }),
{
    let s: u32 = match start {
        Some(v) => v,
        None => 0,
    };
    let l: u32 = match limit {
        Some(v) => v,
        None => default_limit,
    };
    let s = s as usize;
    if s >= len {
        (len, len)
    } else if (l as usize) >= len - s {
        (s, len)
    } else {
        (s, s + l as usize)
    }
}

impl ELearningContract {
    /// What the contract keeps true: every listed id has its record, every
    /// course record is listed, no course holds more than 10000 units, every id a
    /// user or instructor record points to has its record, each user record
    /// is stored under its own user id, every combo is sound, no pool holds
    /// more stake than was ever staked in it, every pool's votes are counted,
    /// and every study process is balanced.
    pub open spec fn inv(&self) -> bool {
        &&& all_keyed(self.subscriber_users@, self.user_metadata_by_id@)
        &&& all_keyed(self.intructor_users@, self.user_metadata_by_id@)
        &&& all_keyed(self.all_course_id@, self.course_metadata_by_id@)
        &&& forall|c: Seq<char>| #[trigger]
            self.course_metadata_by_id@.contains_key(c) ==> self.all_course_id@.contains(c)
        &&& forall|c: Seq<char>| #[trigger]
            self.course_metadata_by_id@.contains_key(c) ==> map_total(self.course_metadata_by_id@[c].instructor_id@)
                <= 10000
        &&& all_keyed(self.all_pool_id@, self.pool_metadata_by_pool_id@)
        &&& stakes_accounted(self.pool_metadata_by_pool_id@)
        &&& forall|p: Seq<char>| #[trigger]
            self.pool_metadata_by_pool_id@.contains_key(p) ==> votes_counted(self.pool_metadata_by_pool_id@[p])
        &&& all_keyed(self.all_combo_id@, self.combo_metadata_by_combo_id@)
        &&& forall|b: Seq<char>| #[trigger]
            self.combo_metadata_by_combo_id@.contains_key(b) ==> combo_sound(self.combo_metadata_by_combo_id@[b])
        &&& all_keyed(self.all_mentoring_id@, self.mentoring_metadata_by_mentoring_id@)
        &&& forall|m: Seq<char>| #[trigger]
            self.mentoring_metadata_by_mentoring_id@.contains_key(m) ==> mentoring_balanced(
                self.mentoring_metadata_by_mentoring_id@[m],
            )
        &&& forall|u: Seq<char>| #[trigger]
            self.user_metadata_by_id@.contains_key(u) ==> all_strings_keyed(
                self.user_metadata_by_id@[u].certificate@,
                self.certificate_metadata_by_id@,
            ) && all_strings_keyed(
                self.user_metadata_by_id@[u].courses@,
                self.course_metadata_by_id@,
            ) && self.user_metadata_by_id@[u].user_id@ == u
        &&& forall|u: Seq<char>| #[trigger]
            self.courses_per_instructor@.contains_key(u) ==> all_keyed(
                self.courses_per_instructor@[u]@,
                self.course_metadata_by_id@,
            )
    }

    /// A contract owned by `owner_id` with no records; the pool address starts
    /// as `signer` (the account that deploys it).
    pub fn new(owner_id: String, metadata: ELearningContractMetadata, signer: String) -> (c: Self)
        ensures
            c.inv(),
            c.owner_id == owner_id,
            c.pool_address == signer,
            c.metadata_contract == metadata,
            c.subscriber_users@.len() == 0,
            c.intructor_users@.len() == 0,
            c.all_course_id@.len() == 0,
            c.all_pool_id@.len() == 0,
            c.all_combo_id@.len() == 0,
            c.all_mentoring_id@.len() == 0,
            c.user_metadata_by_id@ == Map::<Seq<char>, JsonUser>::empty(),
            c.courses_per_instructor@ == Map::<Seq<char>, StrSet>::empty(),
            c.course_metadata_by_id@ == Map::<Seq<char>, CourseMetadata>::empty(),
            c.certificate_metadata_by_id@ == Map::<Seq<char>, CertificateMetadata>::empty(),
            c.skill_metadata_by_skill_id@ == Map::<Seq<char>, Vec<SkillMetadata>>::empty(),
            c.pool_metadata_by_pool_id@ == Map::<Seq<char>, PoolMetadata>::empty(),
            c.combo_metadata_by_combo_id@ == Map::<Seq<char>, ComboMetadata>::empty(),
            c.mentoring_metadata_by_mentoring_id@ == Map::<Seq<char>, MentoringMetadata>::empty(),
    {
        ELearningContract {
            owner_id,
            pool_address: signer,
            metadata_contract: metadata,
            subscriber_users: StrSet::new(),
            intructor_users: StrSet::new(),
            all_course_id: StrSet::new(),
            user_metadata_by_id: StrMap::new(),
            courses_per_instructor: StrMap::new(),
            course_metadata_by_id: StrMap::new(),
            certificate_metadata_by_id: StrMap::new(),
            skill_metadata_by_skill_id: StrMap::new(),
            all_pool_id: StrSet::new(),
            pool_metadata_by_pool_id: StrMap::new(),
            all_combo_id: StrSet::new(),
            combo_metadata_by_combo_id: StrMap::new(),
            all_mentoring_id: StrSet::new(),
            mentoring_metadata_by_mentoring_id: StrMap::new(),
        }
    }

    /// The contract the platform deploys: owned by `signer`, with its standard metadata.
    pub fn init(signer: String) -> (c: Self)
        ensures
            c.inv(),
            c.owner_id == signer,
            c.pool_address == signer,
            c.metadata_contract.spec@ == "elearning-1.0.0"@,
            c.metadata_contract.name@ == "elearing"@,
            c.metadata_contract.symbol@ == "EganTeam"@,
            c.metadata_contract.icon.is_none(),
            c.metadata_contract.base_uri.is_none(),
            c.metadata_contract.reference.is_none(),
            c.metadata_contract.reference_hash.is_none(),
            c.user_metadata_by_id@ == Map::<Seq<char>, JsonUser>::empty(),
            c.course_metadata_by_id@ == Map::<Seq<char>, CourseMetadata>::empty(),
    {
        let metadata = ELearningContractMetadata {
            spec: "elearning-1.0.0".to_string(),
            name: "elearing".to_string(),
            symbol: "EganTeam".to_string(),
            icon: None,
            base_uri: None,
            reference: None,
            reference_hash: None,
        };
        let owner = signer.clone();
        Self::new(owner, metadata, signer)
    }

    /// Whether `user_id` is registered.
    pub fn check_registration(&self, user_id: &String) -> (b: bool)
        ensures
            b == self.user_metadata_by_id@.contains_key(user_id@),
    {
        self.user_metadata_by_id.contains_key(user_id)
    }

    /// Whether `user_id` is registered.
    pub fn internal_check_user_has_register(&self, user_id: &String) -> (b: bool)
        ensures
            b == self.user_metadata_by_id@.contains_key(user_id@),
    {
        self.user_metadata_by_id.contains_key(user_id)
    }

    /// Whether the course has a record.
    pub fn internal_check_course_exits(&self, course_id: &String) -> (b: bool)
        ensures
            b == self.course_metadata_by_id@.contains_key(course_id@),
    {
        self.course_metadata_by_id.contains_key(course_id)
    }

    /// Whether `user_id` neither studies nor has completed the course.
    pub fn internal_check_subscriber_has_course(&self, user_id: &String, course_id: &String) -> (b:
        bool)
        requires
            self.course_metadata_by_id@.contains_key(course_id@),
        ensures
            b == (!self.course_metadata_by_id@[course_id@].students_studying_map@.contains_key(
                user_id@,
            ) && !self.course_metadata_by_id@[course_id@].students_completed@.contains_key(
                user_id@,
            )),
    {
        let course = self.course_metadata_by_id.get(course_id).unwrap();
        !course.students_studying_map.contains_key(user_id) && !course.students_completed.contains_key(
            user_id,
        )
    }

    /// Whether `instructor_id` is an instructor of `course`.
    pub fn internal_check_instructor_member(&self, instructor_id: &String, course: &CourseMetadata) -> (b:
        bool)
        ensures
            b == course.instructor_id@.contains_key(instructor_id@),
    {
        course.instructor_id.contains_key(instructor_id)
    }

    /// Whether `instructor_id` has not agreed yet in `course`.
    pub fn internal_check_consensus_member(&self, instructor_id: &String, course: &CourseMetadata) -> (b:
        bool)
        ensures
            b == !course.consensus@.contains_key(instructor_id@),
    {
        !course.consensus.contains_key(instructor_id)
    }

    /// Whether `instructor_id` owns at least `amount` units of `course`.
    pub fn internal_check_enough_unit(&self, instructor_id: &String, course: &CourseMetadata, amount: &u32) -> (b: bool)
        requires
            course.instructor_id@.contains_key(instructor_id@),
        ensures
            b == (course.instructor_id@[instructor_id@] >= *amount),
    {
        *course.instructor_id.get(instructor_id).unwrap() >= *amount
    }

    /// Whether `new_instructor` is not yet an instructor of the course.
    pub fn internal_check_instructor_exits(&self, course_id: &String, new_instructor: &String) -> (b:
        bool)
        requires
            self.course_metadata_by_id@.contains_key(course_id@),
        ensures
            b == !self.course_metadata_by_id@[course_id@].instructor_id@.contains_key(
                new_instructor@,
            ),
    {
        !self.course_metadata_by_id.get(course_id).unwrap().instructor_id.contains_key(new_instructor)
    }

    /// Whether the combo has a record.
    pub fn check_combo_existence(&self, combo_id: &String) -> (b: bool)
        ensures
            b == self.combo_metadata_by_combo_id@.contains_key(combo_id@),
    {
        self.combo_metadata_by_combo_id.contains_key(combo_id)
    }

    /// Whether the course is one of the combo's courses.
    pub fn check_course_in_combo(&self, combo_id: &String, course_id: &String) -> (b: bool)
        requires
            self.combo_metadata_by_combo_id@.contains_key(combo_id@),
        ensures
            b == combo_has_course(self.combo_metadata_by_combo_id@[combo_id@].courses@, course_id@),
    {
        let courses = &self.combo_metadata_by_combo_id.get(combo_id).unwrap().courses;
        let mut i: usize = 0;
        while i < courses.len()
            invariant
                i <= courses.len(),
                courses@ == self.combo_metadata_by_combo_id@[combo_id@].courses@,
                forall|j: int| 0 <= j < i ==> courses@[j].course_id@ != course_id@,
            decreases courses.len() - i,
        {
            if *course_id == courses[i].course_id {
                assert(courses@[i as int].course_id@ == course_id@);
                return true;
            }
            i = i + 1;
        }
        false
    }

    /// The combo's state.
    pub fn check_combo_state(&self, combo_id: &String) -> (s: ComboState)
        requires
            self.combo_metadata_by_combo_id@.contains_key(combo_id@),
        ensures
            s == self.combo_metadata_by_combo_id@[combo_id@].combo_state,
    {
        self.combo_metadata_by_combo_id.get(combo_id).unwrap().combo_state
    }

    /// In every state the contract keeps, a course is listed exactly when it
    /// has a record, so `check_course_existence` and
    /// `internal_check_course_exits` agree.
    pub proof fn course_list_matches_records(&self, course_id: Seq<char>)
        requires
            self.inv(),
        ensures
            self.all_course_id@.contains(course_id) <==> self.course_metadata_by_id@.contains_key(course_id),
    {
        if self.all_course_id@.contains(course_id) {
            let t = choose|t: int| 0 <= t < self.all_course_id@.len() && self.all_course_id@[t] == course_id;
            assert(self.course_metadata_by_id@.contains_key(self.all_course_id@[t]));
        }
    }

    /// Whether the course is listed.
    pub fn check_course_existence(&self, course_id: &String) -> (b: bool)
        ensures
            b == self.all_course_id@.contains(course_id@),
    {
        self.all_course_id.contains(course_id)
    }

    /// Whether `course_owner_id` is an instructor of the course.
    pub fn check_course_owner(&self, course_id: &String, course_owner_id: &String) -> (b: bool)
        requires
            self.course_metadata_by_id@.contains_key(course_id@),
        ensures
            b == self.course_metadata_by_id@[course_id@].instructor_id@.contains_key(
                course_owner_id@,
            ),
    {
        let _ = self.check_course_existence(course_id);
        self.course_metadata_by_id.get(course_id).unwrap().instructor_id.contains_key(course_owner_id)
    }

    /// Whether `user_id` has completed the course; refused where the course or
    /// the student is unknown.
    pub fn check_course_completed(&self, course_id: &String, user_id: &String) -> (r: Result<
        bool,
        ContractError,
    >)
        ensures
            !self.course_metadata_by_id@.contains_key(course_id@) ==> r == Err::<bool, ContractError>(
                ContractError::CourseMissing,
            ),
            self.course_metadata_by_id@.contains_key(course_id@)
                && !self.course_metadata_by_id@[course_id@].students_studying_map@.contains_key(
                user_id@,
            ) ==> r == Err::<bool, ContractError>(ContractError::NotStudent),
            self.course_metadata_by_id@.contains_key(course_id@)
                && self.course_metadata_by_id@[course_id@].students_studying_map@.contains_key(
                user_id@,
            ) ==> r == Ok::<bool, ContractError>(
                self.course_metadata_by_id@[course_id@].students_completed@.contains_key(user_id@),
            ),
    {
        match self.course_metadata_by_id.get(course_id) {
            None => Err(ContractError::CourseMissing),
            Some(course) => {
                if !course.students_studying_map.contains_key(user_id) {
                    Err(ContractError::NotStudent)
                } else {
                    Ok(course.students_completed.contains_key(user_id))
                }
            },
        }
    }

    /// Whether the mentoring has a record.
    pub fn check_mentoring_existence(&self, mentoring_id: &String) -> (b: bool)
        ensures
            b == self.mentoring_metadata_by_mentoring_id@.contains_key(mentoring_id@),
    {
        self.mentoring_metadata_by_mentoring_id.contains_key(mentoring_id)
    }
}

/// Whether one of a combo's courses has id `course_id`.
pub open spec fn combo_has_course(courses: Seq<WrapCombo>, course_id: Seq<char>) -> bool {
    exists|j: int| 0 <= j < courses.len() && #[trigger] courses[j].course_id@ == course_id
}

} // verus!
