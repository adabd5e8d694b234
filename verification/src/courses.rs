//! Courses: creation by instructors, updates, completion by students, and
//! the listings of courses.
use vstd::prelude::*;

use crate::shares::{lemma_map_total_insert, map_total};
use crate::collections::{has_view, views_of, StrMap, StrSet};
use crate::context::{CallContext, ContractError};
use crate::credentials::{
    credits_after_skills, plan_skill_credits, skill_store_view, store_after_skills,
};
use crate::elearning::{
    all_keyed, all_strings_keyed, limit_or, page_bounds, page_of, start_or_zero, ELearningContract,
};
use crate::foreign::hex_lower;
use crate::models::{same_course, CourseMetadata, JsonUser, Roles, UserMetadata, WrapSkill};
use crate::repository::{
    certificate_id_spec, check_encode, convert_coure_title_to_cousrse_id, convert_to_certificate_id,
    course_id_spec,
};

verus! {

/// The skills a completed course grants: each of its skills, worth 10 credits.
pub open spec fn granted_skills(skills: Seq<String>) -> Seq<WrapSkill> {
    skills.map_values(|s: String| WrapSkill { skill_id: s, credit: 10 })
}

/// The record `create_course` makes.
pub open spec fn new_course_record(
    c: CourseMetadata,
    course_id: Seq<char>,
    title: String,
    description: Option<String>,
    media: Option<String>,
    price: u128,
    skills: Seq<String>,
    instructor: Seq<char>,
    now: u64,
) -> bool {
    &&& c.course_id@ == course_id
    &&& c.title == title
    &&& c.description == description
    &&& c.media == media
    &&& c.price == price
    &&& c.skills@ == skills
    &&& c.instructor_id@ == Map::<Seq<char>, u32>::empty().insert(instructor, 10000)
    &&& c.created_at == now
    &&& c.update_at == now
    &&& c.students_studying_map@ == Map::<Seq<char>, String>::empty()
    &&& c.students_completed@ == Map::<Seq<char>, u16>::empty()
    &&& c.rating == 0
    &&& c.rating_count == 0
    &&& c.content@ == Seq::<char>::empty()
    &&& c.consensus@ == Map::<Seq<char>, u32>::empty()
}

impl ELearningContract {
    /// Adds the course to the instructor's set of courses.
    pub fn internal_add_course_to_instructor(&mut self, account_id: &String, course_id: &String)
        requires
            old(self).inv(),
            old(self).course_metadata_by_id@.contains_key(course_id@),
        ensures
            final(self).inv(),
            ({
                let per = old(self).courses_per_instructor@;
                let before = if per.contains_key(account_id@) {
                    per[account_id@]@
                } else {
                    Seq::empty()
                };
                &&& final(self).courses_per_instructor@.dom() == per.dom().insert(account_id@)
                &&& forall|a: Seq<char>| #[trigger] per.contains_key(a) && a != account_id@
                    ==> final(self).courses_per_instructor@[a] == per[a]
                &&& final(self).courses_per_instructor@[account_id@]@ == (if before.contains(
                    course_id@,
                ) {
                    before
                } else {
                    before.push(course_id@)
                })
            }),
            *final(self) == (ELearningContract {
                courses_per_instructor: final(self).courses_per_instructor,
                ..*old(self)
            }),
    {
        let ghost old_self = *self;
        let mut courses_set = match self.courses_per_instructor.remove(account_id) {
            Some(s) => s,
            None => StrSet::new(),
        };
        courses_set.insert(course_id.clone());
        self.courses_per_instructor.insert(account_id.clone(), courses_set);
        proof {
            let np = self.courses_per_instructor@;
            assert(np.dom() =~= old_self.courses_per_instructor@.dom().insert(account_id@));
            assert forall|u: Seq<char>| #[trigger] np.contains_key(u) implies all_keyed(
                np[u]@,
                self.course_metadata_by_id@,
            ) by {
                if u != account_id@ {
                    assert(old_self.courses_per_instructor@.contains_key(u));
                } else {
                    assert forall|i: int| 0 <= i < np[u]@.len() implies self.course_metadata_by_id@.contains_key(
                    #[trigger] np[u]@[i]) by {
                        if old_self.courses_per_instructor@.contains_key(u) {
                            let b = old_self.courses_per_instructor@[u]@;
                            assert(all_keyed(b, self.course_metadata_by_id@));
                            if i < b.len() {
                                assert(np[u]@[i] == b[i]);
                            }
                        }
                    }
                }
            }
        }
    }

    /// An instructor (the signer) creates a course; it starts with the signer
    /// as its only instructor, owning all 10000 units. Returns a copy.
    pub fn create_course(
        &mut self,
        ctx: &CallContext,
        title: String,
        description: Option<String>,
        media: Option<String>,
        price: u128,
        skills: Vec<String>,
    ) -> (r: Result<CourseMetadata, ContractError>)
        requires
            old(self).inv(),
        ensures
            final(self).inv(),
            ({
                let users = old(self).user_metadata_by_id@;
                let courses = old(self).course_metadata_by_id@;
                let u = ctx.signer@;
                let id = course_id_spec(title@, u);
                &&& r is Ok <==> users.contains_key(u) && users[u].metadata.role == Roles::Instructor
                    && !courses.contains_key(id) && users[u].metadata.courses_owned + 1 <= u32::MAX
                &&& r matches Err(e) ==> *final(self) == *old(self) && e == (if !users.contains_key(u) {
                    ContractError::NotRegistered
                } else if users[u].metadata.role != Roles::Instructor {
                    ContractError::NotInstructor
                } else if courses.contains_key(id) {
                    ContractError::CourseExists
                } else {
                    ContractError::ArithmeticOverflow
                })
                &&& r matches Ok(c) ==> {
                    let nc = final(self).course_metadata_by_id@[id];
                    let nu = final(self).user_metadata_by_id@[u];
                    &&& final(self).course_metadata_by_id@ == courses.insert(id, nc)
                    &&& new_course_record(nc, id, title, description, media, price, skills@, u, ctx.block_timestamp_ms)
                    &&& same_course(c, nc)
                    &&& final(self).all_course_id@ == (if old(self).all_course_id@.contains(id) {
                        old(self).all_course_id@
                    } else {
                        old(self).all_course_id@.push(id)
                    })
                    &&& final(self).user_metadata_by_id@ == users.insert(u, nu)
                    &&& nu == (JsonUser {
                        metadata: UserMetadata {
                            courses_owned: (users[u].metadata.courses_owned + 1) as u32,
                            ..users[u].metadata
                        },
                        ..users[u]
                    })
                    &&& final(self).courses_per_instructor@.dom() == old(self).courses_per_instructor@.dom().insert(u)
                    &&& forall|a: Seq<char>| #[trigger] old(self).courses_per_instructor@.contains_key(a) && a != u
                        ==> final(self).courses_per_instructor@[a] == old(self).courses_per_instructor@[a]
                    &&& final(self).courses_per_instructor@[u]@ == (if old(self).courses_per_instructor@.contains_key(u) {
                        old(self).courses_per_instructor@[u]@
                    } else {
                        Seq::empty()
                    }).push(id)
                    &&& *final(self) == (ELearningContract {
                        course_metadata_by_id: final(self).course_metadata_by_id,
                        all_course_id: final(self).all_course_id,
                        user_metadata_by_id: final(self).user_metadata_by_id,
                        courses_per_instructor: final(self).courses_per_instructor,
                        ..*old(self)
                    })
                }
            }),
    {
        let instructor_id = ctx.signer.clone();
        match self.user_metadata_by_id.get(&instructor_id) {
            None => {
                return Err(ContractError::NotRegistered);
            },
            Some(u) => {
                if u.metadata.role != Roles::Instructor {
                    return Err(ContractError::NotInstructor);
                }
            },
        }
        let course_id = convert_coure_title_to_cousrse_id(title.as_str(), instructor_id.clone());
        if self.course_metadata_by_id.contains_key(&course_id) {
            return Err(ContractError::CourseExists);
        }
        if self.user_metadata_by_id.get(&instructor_id).unwrap().metadata.courses_owned == u32::MAX {
            return Err(ContractError::ArithmeticOverflow);
        }
        let mut initial_instructor: StrMap<u32> = StrMap::new();
        initial_instructor.insert(instructor_id.clone(), 10000);
        let content = String::new();
        let course_metadata = CourseMetadata {
            course_id: course_id.clone(),
            title,
            skills,
            price,
            media,
            description,
            instructor_id: initial_instructor,
            created_at: ctx.block_timestamp_ms,
            update_at: ctx.block_timestamp_ms,
            students_completed: StrMap::new(),
            students_studying_map: StrMap::new(),
            rating: 0,
            rating_count: 0,
            content,
            consensus: StrMap::new(),
        };
        let copy = course_metadata.clone();
        let ghost s0 = *self;
        self.course_metadata_by_id.insert(course_id.clone(), course_metadata);
        self.all_course_id.insert(course_id.clone());
        proof {
            let nc = self.course_metadata_by_id@;
            let oc = s0.course_metadata_by_id@;
            assert(Map::<Seq<char>, u32>::empty().dom() =~= Set::<Seq<char>>::empty());
            lemma_map_total_insert(Map::<Seq<char>, u32>::empty(), instructor_id@, 10000);
            assert(nc[course_id@].instructor_id@ =~= Map::<Seq<char>, u32>::empty().insert(instructor_id@, 10000));
            assert forall|c: Seq<char>| #[trigger] nc.contains_key(c) implies map_total(nc[c].instructor_id@) <= 10000 by {
                if c != course_id@ {
                    assert(oc.contains_key(c));
                }
            }
            assert forall|c: Seq<char>| #[trigger] nc.contains_key(c) implies self.all_course_id@.contains(c) by {
                if c != course_id@ {
                    assert(oc.contains_key(c));
                    assert(s0.all_course_id@.contains(c));
                    let t = choose|t: int| 0 <= t < s0.all_course_id@.len() && s0.all_course_id@[t] == c;
                    assert(self.all_course_id@[t] == c);
                } else {
                    assert(self.all_course_id@.contains(course_id@) || self.all_course_id@[s0.all_course_id@.len() as int] == c);
                }
            }
            assert forall|i: int| 0 <= i < self.all_course_id@.len() implies nc.contains_key(
            #[trigger] self.all_course_id@[i]) by {
                if i < s0.all_course_id@.len() {
                    assert(self.all_course_id@[i] == s0.all_course_id@[i]);
                    assert(oc.contains_key(s0.all_course_id@[i]));
                }
            }
            assert forall|w: Seq<char>| #[trigger] self.user_metadata_by_id@.contains_key(w) implies all_strings_keyed(
                self.user_metadata_by_id@[w].courses@,
                nc,
            ) by {
                let cs = self.user_metadata_by_id@[w].courses@;
                assert(all_strings_keyed(cs, oc));
                assert forall|i: int| 0 <= i < cs.len() implies nc.contains_key(#[trigger] cs[i]@) by {
                    assert(oc.contains_key(cs[i]@));
                }
            }
            assert forall|w: Seq<char>| #[trigger] self.courses_per_instructor@.contains_key(w) implies all_keyed(
                self.courses_per_instructor@[w]@,
                nc,
            ) by {
                let cs = self.courses_per_instructor@[w]@;
                assert(all_keyed(cs, oc));
                assert forall|i: int| 0 <= i < cs.len() implies nc.contains_key(#[trigger] cs[i]) by {
                    assert(oc.contains_key(cs[i]));
                }
            }
        }
        let ghost s1 = *self;
        let mut user = self.user_metadata_by_id.remove(&instructor_id).unwrap();
        user.metadata.courses_owned = user.metadata.courses_owned + 1;
        self.user_metadata_by_id.insert(instructor_id.clone(), user);
        proof {
            assert(self.user_metadata_by_id@ =~= s1.user_metadata_by_id@.insert(
                instructor_id@,
                self.user_metadata_by_id@[instructor_id@],
            ));
            Self::lemma_user_replaced(&s1, self, instructor_id@);
        }
        let ghost s2 = *self;
        self.internal_add_course_to_instructor(&instructor_id, &course_id);
        proof {
            let per = s2.courses_per_instructor@;
            let before = if per.contains_key(instructor_id@) {
                per[instructor_id@]@
            } else {
                Seq::empty()
            };
            assert(!before.contains(course_id@)) by {
                if before.contains(course_id@) {
                    let t = choose|t: int| 0 <= t < before.len() && before[t] == course_id@;
                    assert(s0.courses_per_instructor@.contains_key(instructor_id@));
                    assert(all_keyed(s0.courses_per_instructor@[instructor_id@]@, s0.course_metadata_by_id@));
                    assert(s0.course_metadata_by_id@.contains_key(before[t]));
                }
            }
        }
        Ok(copy)
    }

    /// A course's instructor (the signer) updates it: given fields replace the
    /// stored ones; a new title is stored in id form; the update time is set.
    pub fn update_course(
        &mut self,
        ctx: &CallContext,
        course_id: &String,
        content: Option<String>,
        description: Option<String>,
        media: Option<String>,
        price: Option<u128>,
        title: Option<String>,
    ) -> (r: Result<(), ContractError>)
        requires
            old(self).inv(),
        ensures
            final(self).inv(),
            ({
                let courses = old(self).course_metadata_by_id@;
                let c = course_id@;
                &&& r is Ok <==> courses.contains_key(c) && courses[c].instructor_id@.contains_key(ctx.signer@)
                &&& r matches Err(e) ==> *final(self) == *old(self) && e == (if !courses.contains_key(c) {
                    ContractError::CourseMissing
                } else {
                    ContractError::NotCourseOwner
                })
                &&& r is Ok ==> {
                    let nc = final(self).course_metadata_by_id@[c];
                    &&& final(self).course_metadata_by_id@ == courses.insert(c, nc)
                    &&& nc == (CourseMetadata {
                        content: match content {
                            Some(n) => n,
                            None => courses[c].content,
                        },
                        description: if description.is_some() {
                            description
                        } else {
                            courses[c].description
                        },
                        media: if media.is_some() {
                            media
                        } else {
                            courses[c].media
                        },
                        price: match price {
                            Some(p) => p,
                            None => courses[c].price,
                        },
                        title: nc.title,
                        update_at: ctx.block_timestamp_ms,
                        ..courses[c]
                    })
                    &&& nc.title@ == match title {
                        Some(t) => course_id_spec(t@, ctx.signer@),
                        None => courses[c].title@,
                    }
                    &&& title.is_none() ==> nc.title == courses[c].title
                    &&& *final(self) == (ELearningContract {
                        course_metadata_by_id: final(self).course_metadata_by_id,
                        ..*old(self)
                    })
                }
            }),
    {
        match self.course_metadata_by_id.get(course_id) {
            None => {
                return Err(ContractError::CourseMissing);
            },
            Some(c) => {
                if !c.instructor_id.contains_key(&ctx.signer) {
                    return Err(ContractError::NotCourseOwner);
                }
            },
        }
        let ghost s0 = *self;
        let mut course = self.course_metadata_by_id.remove(course_id).unwrap();
        if let Some(n) = content {
            course.content = n;
        }
        if let Some(f) = description {
            course.description = Some(f);
        }
        if let Some(l) = media {
            course.media = Some(l);
        }
        if let Some(b) = price {
            course.price = b;
        }
        if let Some(a) = title {
            course.title = convert_coure_title_to_cousrse_id(a.as_str(), ctx.signer.clone());
        }
        course.update_at = ctx.block_timestamp_ms;
        self.course_metadata_by_id.insert(course_id.clone(), course);
        proof {
            assert(self.course_metadata_by_id@ =~= s0.course_metadata_by_id@.insert(
                course_id@,
                self.course_metadata_by_id@[course_id@],
            ));
            self.lemma_course_replaced(&s0, course_id@);
        }
        Ok(())
    }

    /// Replacing a course record keeps the invariant.
    pub proof fn lemma_course_replaced(&self, old: &ELearningContract, c: Seq<char>)
        requires
            old.inv(),
            old.course_metadata_by_id@.contains_key(c),
            self.course_metadata_by_id@ == old.course_metadata_by_id@.insert(c, self.course_metadata_by_id@[c]),
            *self == (ELearningContract { course_metadata_by_id: self.course_metadata_by_id, ..*old }),
            map_total(self.course_metadata_by_id@[c].instructor_id@) <= 10000,
        ensures
            self.inv(),
    {
        let nc = self.course_metadata_by_id@;
        let oc = old.course_metadata_by_id@;
        assert(nc.dom() =~= oc.dom());
        assert forall|i: int| 0 <= i < self.all_course_id@.len() implies nc.contains_key(
        #[trigger] self.all_course_id@[i]) by {
            assert(oc.contains_key(old.all_course_id@[i]));
        }
        assert forall|w: Seq<char>| #[trigger] self.user_metadata_by_id@.contains_key(w) implies all_strings_keyed(
            self.user_metadata_by_id@[w].courses@,
            nc,
        ) by {
            let cs = self.user_metadata_by_id@[w].courses@;
            assert(all_strings_keyed(cs, oc));
            assert forall|i: int| 0 <= i < cs.len() implies nc.contains_key(#[trigger] cs[i]@) by {
                assert(oc.contains_key(cs[i]@));
            }
        }
        assert forall|w: Seq<char>| #[trigger] self.courses_per_instructor@.contains_key(w) implies all_keyed(
            self.courses_per_instructor@[w]@,
            nc,
        ) by {
            let cs = self.courses_per_instructor@[w]@;
            assert(all_keyed(cs, oc));
            assert forall|i: int| 0 <= i < cs.len() implies nc.contains_key(#[trigger] cs[i]) by {
                assert(oc.contains_key(cs[i]));
            }
        }
    }

    /// The signer, a student of the course, completes it with a rating and the
    /// digest of their hash collection (SHA-256 of `encode_message`), which
    /// must match the hash stored when the course was bought. The course
    /// records the completion, a certificate is minted, each of the course's
    /// skills is recorded and credited (10 each), and the student earns 10
    /// credits per skill.
    pub fn make_user_finish_course(
        &mut self,
        ctx: &CallContext,
        course_id: String,
        media: String,
        rating: u16,
        hash_collection_digest: &[u8],
    ) -> (r: Result<(), ContractError>)
        requires
            old(self).inv(),
        ensures
            final(self).inv(),
            ({
                let courses = old(self).course_metadata_by_id@;
                let users = old(self).user_metadata_by_id@;
                let (c, s) = (course_id@, ctx.signer@);
                let cert = certificate_id_spec(c, s);
                let skills = granted_skills(courses[c].skills@);
                let ok_hash = hex_lower(hash_collection_digest@) == courses[c].students_studying_map@[s]@;
                let ok_credit = users[s].metadata.total_credit + 10 * skills.len() <= u32::MAX;
                &&& r is Ok <==> rating <= 10 && courses.contains_key(c)
                    && courses[c].students_studying_map@.contains_key(s) && users.contains_key(s)
                    && !has_view(users[s].certificate@, cert) && ok_hash
                    && credits_after_skills(users[s].skill@, skills) is Some && ok_credit
                &&& r matches Err(e) ==> *final(self) == *old(self) && e == (if rating > 10 {
                    ContractError::RatingTooHigh
                } else if !courses.contains_key(c) {
                    ContractError::CourseMissing
                } else if !courses[c].students_studying_map@.contains_key(s) {
                    ContractError::NotStudent
                } else if !users.contains_key(s) {
                    ContractError::NotRegistered
                } else if has_view(users[s].certificate@, cert) {
                    ContractError::CertificateExists
                } else if !ok_hash {
                    ContractError::HashMismatch
                } else {
                    ContractError::ArithmeticOverflow
                })
                &&& r is Ok ==> {
                    let nc = final(self).course_metadata_by_id@[c];
                    let nu = final(self).user_metadata_by_id@[s];
                    let ncert = final(self).certificate_metadata_by_id@[cert];
                    &&& final(self).course_metadata_by_id@ == courses.insert(c, nc)
                    &&& nc == (CourseMetadata { students_completed: nc.students_completed, ..courses[c] })
                    &&& nc.students_completed@ == courses[c].students_completed@.insert(s, rating)
                    &&& final(self).certificate_metadata_by_id@
                        == old(self).certificate_metadata_by_id@.insert(cert, ncert)
                    &&& ncert.certificate_id@ == cert && ncert.student == ctx.signer
                    &&& ncert.skills@ == skills && ncert.media == media
                    &&& final(self).user_metadata_by_id@ == users.insert(s, nu)
                    &&& nu == (JsonUser {
                        certificate: nu.certificate,
                        skill: nu.skill,
                        metadata: UserMetadata {
                            total_credit: (users[s].metadata.total_credit + 10 * skills.len()) as u32,
                            ..users[s].metadata
                        },
                        ..users[s]
                    })
                    &&& nu.certificate@ == users[s].certificate@.push(nu.certificate@.last())
                    &&& nu.certificate@.last()@ == cert
                    &&& credits_after_skills(users[s].skill@, skills) == Some(nu.skill@)
                    &&& skill_store_view(final(self).skill_metadata_by_skill_id@) == store_after_skills(
                        skill_store_view(old(self).skill_metadata_by_skill_id@),
                        skills,
                        cert,
                    )
                    &&& *final(self) == (ELearningContract {
                        course_metadata_by_id: final(self).course_metadata_by_id,
                        certificate_metadata_by_id: final(self).certificate_metadata_by_id,
                        user_metadata_by_id: final(self).user_metadata_by_id,
                        skill_metadata_by_skill_id: final(self).skill_metadata_by_skill_id,
                        ..*old(self)
                    })
                }
            }),
    {
        if rating > 10 {
            return Err(ContractError::RatingTooHigh);
        }
        let student_id = ctx.signer.clone();
        let course = match self.course_metadata_by_id.get(&course_id) {
            None => {
                return Err(ContractError::CourseMissing);
            },
            Some(c) => c,
        };
        if !course.students_studying_map.contains_key(&student_id) {
            return Err(ContractError::NotStudent);
        }
        let certificate_id = convert_to_certificate_id(&course_id, &student_id);
        let user = match self.user_metadata_by_id.get(&student_id) {
            None => {
                return Err(ContractError::NotRegistered);
            },
            Some(u) => u,
        };
        if crate::collections::contains_string(&user.certificate, &certificate_id) {
            return Err(ContractError::CertificateExists);
        }
        let encode_check = course.students_studying_map.get(&student_id).unwrap();
        if !check_encode(hash_collection_digest, encode_check) {
            return Err(ContractError::HashMismatch);
        }
        let mut skills: Vec<WrapSkill> = Vec::new();
        let mut i: usize = 0;
        while i < course.skills.len()
            invariant
                i <= course.skills.len(),
                skills@ == granted_skills(course.skills@.take(i as int)),
            decreases course.skills.len() - i,
        {
            skills.push(WrapSkill { skill_id: course.skills[i].clone(), credit: 10 });
            i = i + 1;
            assert(skills@ =~= granted_skills(course.skills@.take(i as int)));
        }
        assert(course.skills@.take(course.skills@.len() as int) =~= course.skills@);
        if plan_skill_credits(&user.skill, &skills).is_none() {
            return Err(ContractError::ArithmeticOverflow);
        }
        let n = skills.len();
        if user.metadata.total_credit as usize > (u32::MAX as usize) || n > 429_496_729
            || user.metadata.total_credit > u32::MAX - 10 * (n as u32) {
            return Err(ContractError::ArithmeticOverflow);
        }
        let ghost s0 = *self;
        let mut course = self.course_metadata_by_id.remove(&course_id).unwrap();
        course.students_completed.insert(student_id.clone(), rating);
        self.course_metadata_by_id.insert(course_id.clone(), course);
        proof {
            assert(self.course_metadata_by_id@ =~= s0.course_metadata_by_id@.insert(
                course_id@,
                self.course_metadata_by_id@[course_id@],
            ));
            self.lemma_course_replaced(&s0, course_id@);
        }
        let ghost s1 = *self;
        let r1 = self.mint_certificate(course_id, student_id.clone(), skills.clone(), media);
        assert(r1 is Ok);
        let ghost s2 = *self;
        let r2 = self.mint_skill_by_certificate(ctx, certificate_id, skills.clone());
        assert(r2 is Ok);
        let ghost s3 = *self;
        let mut k: usize = 0;
        while k < n
            invariant
                k <= n,
                n == skills@.len(),
                n <= 429_496_729,
                self.inv(),
                s3.user_metadata_by_id@.contains_key(ctx.signer@),
                s3.user_metadata_by_id@[ctx.signer@].metadata.total_credit + 10 * n <= u32::MAX,
                self.user_metadata_by_id@ == s3.user_metadata_by_id@.insert(
                    ctx.signer@,
                    self.user_metadata_by_id@[ctx.signer@],
                ),
                self.user_metadata_by_id@[ctx.signer@] == (JsonUser {
                    metadata: UserMetadata {
                        total_credit: (s3.user_metadata_by_id@[ctx.signer@].metadata.total_credit + 10
                            * k) as u32,
                        ..s3.user_metadata_by_id@[ctx.signer@].metadata
                    },
                    ..s3.user_metadata_by_id@[ctx.signer@]
                }),
                *self == (ELearningContract { user_metadata_by_id: self.user_metadata_by_id, ..s3 }),
            decreases n - k,
        {
            let r3 = self.add_credit_by_skill_reward(ctx, 10);
            assert(r3 is Ok);
            k = k + 1;
            assert(self.user_metadata_by_id@ =~= s3.user_metadata_by_id@.insert(
                ctx.signer@,
                self.user_metadata_by_id@[ctx.signer@],
            ));
        }
        Ok(())
    }

    /// An instructor's courses on one page (default 10 per page); none where
    /// the instructor has no course. Refused where the user is unknown or not
    /// an instructor.
    pub fn get_all_courses_per_instructor(&self, instructor_id: &String, start: Option<u32>, limit: Option<u32>) -> (r:
        Result<Vec<&CourseMetadata>, ContractError>)
        requires
            self.inv(),
        ensures
            ({
                let users = self.user_metadata_by_id@;
                let per = self.courses_per_instructor@;
                let u = instructor_id@;
                &&& r is Ok <==> users.contains_key(u) && users[u].metadata.role == Roles::Instructor
                &&& r matches Err(e) ==> e == (if !users.contains_key(u) {
                    ContractError::NotRegistered
                } else {
                    ContractError::NotInstructor
                })
                &&& r matches Ok(v) ==> if !per.contains_key(u) {
                    v@.len() == 0
                } else {
                    let ids = page_of(per[u]@, start_or_zero(start), limit_or(limit, 10));
                    &&& v@.len() == ids.len()
                    &&& forall|i: int| 0 <= i < ids.len() ==> *v@[i] == self.course_metadata_by_id@[ids[i]]
                }
            }),
    {
        match self.user_metadata_by_id.get(instructor_id) {
            None => {
                return Err(ContractError::NotRegistered);
            },
            Some(u) => {
                if u.metadata.role != Roles::Instructor {
                    return Err(ContractError::NotInstructor);
                }
            },
        }
        match self.courses_per_instructor.get(instructor_id) {
            None => Ok(Vec::new()),
            Some(set) => Ok(self.courses_on_page(set, start, limit, 10)),
        }
    }

    fn courses_on_page<'a>(&'a self, set: &StrSet, start: Option<u32>, limit: Option<u32>, default_limit: u32) -> (r:
        Vec<&'a CourseMetadata>)
        requires
            all_keyed(set@, self.course_metadata_by_id@),
        ensures
            ({
                let ids = page_of(set@, start_or_zero(start), limit_or(limit, default_limit as nat));
                &&& r@.len() == ids.len()
                &&& forall|i: int| 0 <= i < ids.len() ==> *r@[i] == self.course_metadata_by_id@[ids[i]]
            }),
    {
        let (first, end) = page_bounds(set.len(), start, limit, default_limit);
        let ghost ids = page_of(set@, start_or_zero(start), limit_or(limit, default_limit as nat));
        let mut r: Vec<&CourseMetadata> = Vec::new();
        let mut i = first;
        while i < end
            invariant
                first <= i <= end <= set@.len(),
                ids.len() == end - first,
                forall|j: int| 0 <= j < ids.len() ==> ids[j] == set@[first + j],
                all_keyed(set@, self.course_metadata_by_id@),
                r@.len() == i - first,
                forall|j: int| 0 <= j < i - first ==> *r@[j] == self.course_metadata_by_id@[ids[j]],
            decreases end - i,
        {
            let id = set.get(i);
            assert(self.course_metadata_by_id@.contains_key(set@[i as int]));
            r.push(self.course_metadata_by_id.get(id).unwrap());
            i = i + 1;
        }
        r
    }

    /// The courses a registered user bought, on one page (default 20 per page).
    pub fn get_purchase_course_by_user_id(&self, user_id: &String, start: Option<u32>, limit: Option<u32>) -> (r:
        Result<Vec<&CourseMetadata>, ContractError>)
        requires
            self.inv(),
        ensures
            ({
                let users = self.user_metadata_by_id@;
                &&& r is Err <==> !users.contains_key(user_id@)
                &&& r matches Err(e) ==> e == ContractError::NotRegistered
                &&& r matches Ok(v) ==> {
                    let ids = page_of(users[user_id@].courses@, start_or_zero(start), limit_or(limit, 20));
                    &&& v@.len() == ids.len()
                    &&& forall|i: int| 0 <= i < ids.len() ==> *v@[i] == self.course_metadata_by_id@[ids[i]@]
                }
            }),
    {
        let user = match self.user_metadata_by_id.get(user_id) {
            None => {
                return Err(ContractError::NotRegistered);
            },
            Some(u) => u,
        };
        let ids = &user.courses;
        let (first, end) = page_bounds(ids.len(), start, limit, 20);
        let ghost page = page_of(ids@, start_or_zero(start), limit_or(limit, 20));
        let mut r: Vec<&CourseMetadata> = Vec::new();
        let mut i = first;
        while i < end
            invariant
                first <= i <= end <= ids@.len(),
                page.len() == end - first,
                forall|j: int| 0 <= j < page.len() ==> page[j] == ids@[first + j],
                all_strings_keyed(ids@, self.course_metadata_by_id@),
                r@.len() == i - first,
                forall|j: int| 0 <= j < i - first ==> *r@[j] == self.course_metadata_by_id@[page[j]@],
            decreases end - i,
        {
            assert(self.course_metadata_by_id@.contains_key(ids@[i as int]@));
            r.push(self.course_metadata_by_id.get(&ids[i]).unwrap());
            i = i + 1;
        }
        Ok(r)
    }

    /// The courses on one page (default 20 per page).
    pub fn get_all_course_metadata(&self, start: Option<u32>, limit: Option<u32>) -> (r: Vec<&CourseMetadata>)
        requires
            self.inv(),
        ensures
            ({
                let ids = page_of(self.all_course_id@, start_or_zero(start), limit_or(limit, 20));
                &&& r@.len() == ids.len()
                &&& forall|i: int| 0 <= i < ids.len() ==> *r@[i] == self.course_metadata_by_id@[ids[i]]
            }),
    {
        self.courses_on_page(&self.all_course_id, start, limit, 20)
    }

    /// The course ids on one page (default 20 per page).
    pub fn get_all_course_id(&self, start: Option<u32>, limit: Option<u32>) -> (r: Vec<String>)
        ensures
            views_of(r@) == page_of(self.all_course_id@, start_or_zero(start), limit_or(limit, 20)),
    {
        let set = &self.all_course_id;
        let (first, end) = page_bounds(set.len(), start, limit, 20);
        let ghost ids = page_of(set@, start_or_zero(start), limit_or(limit, 20));
        let mut r: Vec<String> = Vec::new();
        let mut i = first;
        while i < end
            invariant
                first <= i <= end <= set@.len(),
                ids.len() == end - first,
                forall|j: int| 0 <= j < ids.len() ==> ids[j] == set@[first + j],
                r@.len() == i - first,
                forall|j: int| 0 <= j < i - first ==> #[trigger] r@[j]@ == ids[j],
            decreases end - i,
        {
            r.push(set.get(i).clone());
            i = i + 1;
        }
        assert(views_of(r@) =~= ids);
        r
    }

    /// The course's record, if any.
    pub fn get_course_metadata_by_course_id(&self, course_id: &String) -> (r: Option<&CourseMetadata>)
        ensures
            match r {
                Some(c) => self.course_metadata_by_id@.contains_key(course_id@) && *c
                    == self.course_metadata_by_id@[course_id@],
                None => !self.course_metadata_by_id@.contains_key(course_id@),
            },
    {
        self.course_metadata_by_id.get(course_id)
    }
}

} // verus!
