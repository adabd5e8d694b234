//! Certificates and skills: minting a certificate for a student, recording
//! the skills it proves, and crediting them to the student.
use vstd::prelude::*;

use crate::collections::{has_view, StrMap};
use crate::context::{CallContext, ContractError};
use crate::elearning::{all_strings_keyed, limit_or, page_bounds, page_of, start_or_zero, ELearningContract};
use crate::models::{CertificateMetadata, JsonUser, SkillMetadata, WrapSkill};
use crate::repository::{certificate_id_spec, convert_to_certificate_id};

verus! {

/// The fields of a skill record.
pub open spec fn skill_record_view(s: SkillMetadata) -> (Seq<char>, u32, Seq<char>, bool) {
    (s.skill_id@, s.credit, s.credit_from@, s.use_skill)
}

/// The skill records stored under each skill id, by their fields.
pub open spec fn skill_store_view(m: Map<Seq<char>, Vec<SkillMetadata>>) -> Map<
    Seq<char>,
    Seq<(Seq<char>, u32, Seq<char>, bool)>,
> {
    Map::new(
        |k: Seq<char>| m.contains_key(k),
        |k: Seq<char>| m[k]@.map_values(|s: SkillMetadata| skill_record_view(s)),
    )
}

/// The store after adding `rec` under `skill_id`, where it is not there yet.
pub open spec fn store_with_record(
    store: Map<Seq<char>, Seq<(Seq<char>, u32, Seq<char>, bool)>>,
    skill_id: Seq<char>,
    rec: (Seq<char>, u32, Seq<char>, bool),
) -> Map<Seq<char>, Seq<(Seq<char>, u32, Seq<char>, bool)>> {
    let cur = if store.contains_key(skill_id) {
        store[skill_id]
    } else {
        Seq::empty()
    };
    store.insert(
        skill_id,
        if cur.contains(rec) {
            cur
        } else {
            cur.push(rec)
        },
    )
}

/// The store after recording each of `skills` as earned from `cert`.
pub open spec fn store_after_skills(
    store: Map<Seq<char>, Seq<(Seq<char>, u32, Seq<char>, bool)>>,
    skills: Seq<WrapSkill>,
    cert: Seq<char>,
) -> Map<Seq<char>, Seq<(Seq<char>, u32, Seq<char>, bool)>>
    decreases skills.len(),
{
    if skills.len() == 0 {
        store
    } else {
        let s = skills.last();
        store_with_record(
            store_after_skills(store, skills.drop_last(), cert),
            s.skill_id@,
            (s.skill_id@, s.credit, cert, true),
        )
    }
}

/// A user's skill credits after adding each of `skills`; `None` where a
/// credit would leave `u32`.
pub open spec fn credits_after_skills(m: Map<Seq<char>, u32>, skills: Seq<WrapSkill>) -> Option<
    Map<Seq<char>, u32>,
>
    decreases skills.len(),
{
    if skills.len() == 0 {
        Some(m)
    } else {
        match credits_after_skills(m, skills.drop_last()) {
            None => None,
            Some(m2) => {
                let s = skills.last();
                if m2.contains_key(s.skill_id@) {
                    if m2[s.skill_id@] + s.credit > u32::MAX {
                        None
                    } else {
                        Some(m2.insert(s.skill_id@, (m2[s.skill_id@] + s.credit) as u32))
                    }
                } else {
                    Some(m2.insert(s.skill_id@, s.credit))
                }
            },
        }
    }
}

/// Adds each skill's credit to the map, or says that one would overflow.
pub fn plan_skill_credits(m: &StrMap<u32>, skills: &Vec<WrapSkill>) -> (r: Option<StrMap<u32>>)
    ensures
        match r {
            Some(n) => credits_after_skills(m@, skills@) == Some(n@),
            None => credits_after_skills(m@, skills@) is None,
        },
{
    let mut n = m.clone();
    assert(n@ =~= m@) by {
        assert forall|k: Seq<char>| #[trigger] n@.contains_key(k) implies n@[k] == m@[k] by {
            assert(cloned::<u32>(m@[k], n@[k]));
        }
    }
    let mut i: usize = 0;
    while i < skills.len()
        invariant
            i <= skills.len(),
            credits_after_skills(m@, skills@.take(i as int)) == Some(n@),
        decreases skills.len() - i,
    {
        let s = &skills[i];
        assert(skills@.take(i + 1).drop_last() =~= skills@.take(i as int));
        assert(skills@.take(i + 1).last() == skills@[i as int]);
        match n.get(&s.skill_id) {
            Some(v) => {
                if *v > u32::MAX - s.credit {
                    proof {
                        lemma_credits_none_stays(m@, skills@, i as int + 1);
                    }
                    return None;
                }
                let nv = *v + s.credit;
                n.insert(s.skill_id.clone(), nv);
            },
            None => {
                n.insert(s.skill_id.clone(), s.credit);
            },
        }
        i = i + 1;
    }
    assert(skills@.take(skills@.len() as int) =~= skills@);
    Some(n)
}

/// Crediting a skill the user already holds adds the new credit to the
/// credit held; crediting a new skill starts it at the new credit; a credit
/// that would leave `u32` is refused.
pub proof fn skill_credits_accumulate(m: Map<Seq<char>, u32>, skill: WrapSkill)
    ensures
        m.contains_key(skill.skill_id@) && m[skill.skill_id@] + skill.credit <= u32::MAX ==> credits_after_skills(
            m,
            seq![skill],
        ) == Some(m.insert(skill.skill_id@, (m[skill.skill_id@] + skill.credit) as u32)),
        m.contains_key(skill.skill_id@) && m[skill.skill_id@] + skill.credit > u32::MAX ==> credits_after_skills(
            m,
            seq![skill],
        ) is None,
        !m.contains_key(skill.skill_id@) ==> credits_after_skills(m, seq![skill]) == Some(
            m.insert(skill.skill_id@, skill.credit),
        ),
{
    assert(seq![skill].drop_last() =~= Seq::<WrapSkill>::empty());
    assert(seq![skill].last() == skill);
    assert(credits_after_skills(m, Seq::<WrapSkill>::empty()) == Some(m));
    assert(credits_after_skills(m, seq![skill]) == match credits_after_skills(m, seq![skill].drop_last()) {
        None => None,
        Some(m2) => if m2.contains_key(skill.skill_id@) {
            if m2[skill.skill_id@] + skill.credit > u32::MAX {
                None
            } else {
                Some(m2.insert(skill.skill_id@, (m2[skill.skill_id@] + skill.credit) as u32))
            }
        } else {
            Some(m2.insert(skill.skill_id@, skill.credit))
        },
    });
}

/// What the credits of a list of skills add up to for the skill `k`.
pub open spec fn credit_for(skills: Seq<WrapSkill>, k: Seq<char>) -> int
    decreases skills.len(),
{
    if skills.len() == 0 {
        0
    } else {
        credit_for(skills.drop_last(), k) + if skills.last().skill_id@ == k {
            skills.last().credit as int
        } else {
            0
        }
    }
}

/// Whether some skill of the list is `k`.
pub open spec fn names_skill(skills: Seq<WrapSkill>, k: Seq<char>) -> bool {
    exists|i: int| 0 <= i < skills.len() && #[trigger] skills[i].skill_id@ == k
}

/// After crediting a list of skills, a user's credit for each skill is what
/// they held (nothing for a new skill) plus every credit the list gives that
/// skill; the skills held are those held before and those the list names.
/// The crediting is refused exactly when some skill's credit would leave
/// `u32`.
pub proof fn skill_credits_add_up(m: Map<Seq<char>, u32>, skills: Seq<WrapSkill>)
    ensures
        credits_after_skills(m, skills) is None <==> exists|k: Seq<char>|
            (if m.contains_key(k) {
                m[k] as int
            } else {
                0
            }) + #[trigger] credit_for(skills, k) > u32::MAX,
        credits_after_skills(m, skills) matches Some(n) ==> forall|k: Seq<char>|
            (#[trigger] n.contains_key(k) <==> m.contains_key(k) || names_skill(skills, k)) && (n.contains_key(k)
                ==> n[k] == (if m.contains_key(k) {
                m[k] as int
            } else {
                0
            }) + credit_for(skills, k)),
    decreases skills.len(),
{
    if skills.len() == 0 {
        if exists|k: Seq<char>| (if m.contains_key(k) {
            m[k] as int
        } else {
            0
        }) + #[trigger] credit_for(skills, k) > u32::MAX {
            let k = choose|k: Seq<char>| (if m.contains_key(k) {
                m[k] as int
            } else {
                0
            }) + #[trigger] credit_for(skills, k) > u32::MAX;
            assert(credit_for(skills, k) == 0);
        }
    } else {
        let d = skills.drop_last();
        let s = skills.last();
        skill_credits_add_up(m, d);
        lemma_credit_for_nonneg(skills);
        match credits_after_skills(m, d) {
            None => {
                let k = choose|k: Seq<char>| (if m.contains_key(k) {
                    m[k] as int
                } else {
                    0
                }) + #[trigger] credit_for(d, k) > u32::MAX;
                assert(credit_for(skills, k) >= credit_for(d, k));
            },
            Some(m2) => {
                let k = s.skill_id@;
                if m2.contains_key(k) && m2[k] + s.credit > u32::MAX {
                    assert(credit_for(skills, k) == credit_for(d, k) + s.credit);
                }
            },
        }
        if let Some(n) = credits_after_skills(m, skills) {
            let m2 = credits_after_skills(m, d).unwrap();
            assert forall|k: Seq<char>| #[trigger] n.contains_key(k) <==> m.contains_key(k) || names_skill(skills, k) by {
                if names_skill(d, k) {
                    let i = choose|i: int| 0 <= i < d.len() && #[trigger] d[i].skill_id@ == k;
                    assert(skills[i] == d[i]);
                }
                if names_skill(skills, k) {
                    let i = choose|i: int| 0 <= i < skills.len() && #[trigger] skills[i].skill_id@ == k;
                    if i < d.len() {
                        assert(d[i] == skills[i]);
                    }
                }
                if k == s.skill_id@ {
                    assert(skills[skills.len() - 1].skill_id@ == k);
                }
            }
            assert forall|k: Seq<char>| #[trigger] n.contains_key(k) implies n[k] == (if m.contains_key(k) {
                m[k] as int
            } else {
                0
            }) + credit_for(skills, k) by {
                if k != s.skill_id@ {
                    assert(m2.contains_key(k));
                } else if !m2.contains_key(k) {
                    assert(!m.contains_key(k));
                    if names_skill(d, k) {
                        let i = choose|i: int| 0 <= i < d.len() && #[trigger] d[i].skill_id@ == k;
                        assert(m2.contains_key(k));
                    }
                    lemma_credit_for_unnamed(d, k);
                }
            }
            assert forall|k: Seq<char>| (if m.contains_key(k) {
                m[k] as int
            } else {
                0
            }) + #[trigger] credit_for(skills, k) <= u32::MAX by {
                if !n.contains_key(k) {
                    lemma_credit_for_unnamed(skills, k);
                }
            }
        }
    }
}

/// Credits are never negative.
proof fn lemma_credit_for_nonneg(skills: Seq<WrapSkill>)
    ensures
        forall|k: Seq<char>| #[trigger] credit_for(skills, k) >= 0,
    decreases skills.len(),
{
    if skills.len() > 0 {
        lemma_credit_for_nonneg(skills.drop_last());
        assert forall|k: Seq<char>| #[trigger] credit_for(skills, k) >= 0 by {
            assert(credit_for(skills.drop_last(), k) >= 0);
        }
    }
}

/// A skill the list never names gets no credit from it.
proof fn lemma_credit_for_unnamed(skills: Seq<WrapSkill>, k: Seq<char>)
    requires
        !names_skill(skills, k),
    ensures
        credit_for(skills, k) == 0,
    decreases skills.len(),
{
    if skills.len() > 0 {
        let d = skills.drop_last();
        assert(skills[skills.len() - 1].skill_id@ != k);
        assert(!names_skill(d, k)) by {
            if names_skill(d, k) {
                let i = choose|i: int| 0 <= i < d.len() && #[trigger] d[i].skill_id@ == k;
                assert(skills[i] == d[i]);
            }
        }
        lemma_credit_for_unnamed(d, k);
    }
}

/// Once adding the first `i` skills overflows, adding them all does too.
pub proof fn lemma_credits_none_stays(m: Map<Seq<char>, u32>, skills: Seq<WrapSkill>, i: int)
    requires
        0 <= i <= skills.len(),
        credits_after_skills(m, skills.take(i)) is None,
    ensures
        credits_after_skills(m, skills) is None,
    decreases skills.len() - i,
{
    if i < skills.len() {
        assert(skills.take(i + 1).drop_last() =~= skills.take(i));
        lemma_credits_none_stays(m, skills, i + 1);
    } else {
        assert(skills.take(i) =~= skills);
    }
}

impl ELearningContract {
    /// Adds `credit` to the student's credit for `skill_id`.
    pub fn add_skill(&mut self, student: String, skill_id: String, credit: u32) -> (r: Result<
        (),
        ContractError,
    >)
        requires
            old(self).inv(),
        ensures
            final(self).inv(),
            ({
                let users = old(self).user_metadata_by_id@;
                let u = student@;
                let after = credits_after_skills(
                    users[u].skill@,
                    seq![WrapSkill { skill_id, credit }],
                );
                &&& r is Ok <==> users.contains_key(u) && after is Some
                &&& r matches Err(e) ==> *final(self) == *old(self) && e == (if !users.contains_key(u) {
                    ContractError::NotRegistered
                } else {
                    ContractError::ArithmeticOverflow
                })
                &&& r is Ok ==> {
                    let nu = final(self).user_metadata_by_id@[u];
                    &&& final(self).user_metadata_by_id@ == users.insert(u, nu)
                    &&& nu == (JsonUser { skill: nu.skill, ..users[u] })
                    &&& Some(nu.skill@) == after
                    &&& *final(self) == (ELearningContract {
                        user_metadata_by_id: final(self).user_metadata_by_id,
                        ..*old(self)
                    })
                }
            }),
    {
        let mut one: Vec<WrapSkill> = Vec::new();
        one.push(WrapSkill { skill_id, credit });
        let ghost sk = one@;
        proof {
            assert(sk =~= seq![WrapSkill { skill_id, credit }]);
        }
        self.apply_skill_credits(student, &one)
    }

    fn apply_skill_credits(&mut self, student: String, skills: &Vec<WrapSkill>) -> (r: Result<
        (),
        ContractError,
    >)
        requires
            old(self).inv(),
        ensures
            final(self).inv(),
            ({
                let users = old(self).user_metadata_by_id@;
                let u = student@;
                let after = credits_after_skills(users[u].skill@, skills@);
                &&& r is Ok <==> users.contains_key(u) && after is Some
                &&& r matches Err(e) ==> *final(self) == *old(self) && e == (if !users.contains_key(u) {
                    ContractError::NotRegistered
                } else {
                    ContractError::ArithmeticOverflow
                })
                &&& r is Ok ==> {
                    let nu = final(self).user_metadata_by_id@[u];
                    &&& final(self).user_metadata_by_id@ == users.insert(u, nu)
                    &&& nu == (JsonUser { skill: nu.skill, ..users[u] })
                    &&& Some(nu.skill@) == after
                    &&& *final(self) == (ELearningContract {
                        user_metadata_by_id: final(self).user_metadata_by_id,
                        ..*old(self)
                    })
                }
            }),
    {
        let plan = match self.user_metadata_by_id.get(&student) {
            None => {
                return Err(ContractError::NotRegistered);
            },
            Some(user) => plan_skill_credits(&user.skill, skills),
        };
        let new_skill = match plan {
            None => {
                return Err(ContractError::ArithmeticOverflow);
            },
            Some(n) => n,
        };
        let ghost old_self = *self;
        let mut user = self.user_metadata_by_id.remove(&student).unwrap();
        user.skill = new_skill;
        self.user_metadata_by_id.insert(student.clone(), user);
        proof {
            assert(self.user_metadata_by_id@ =~= old_self.user_metadata_by_id@.insert(
                student@,
                self.user_metadata_by_id@[student@],
            ));
            Self::lemma_user_replaced(&old_self, self, student@);
        }
        Ok(())
    }

    /// Records `skill` under its skill id, unless an equal record is there.
    pub fn internal_add_skill_metadata_to_skill_id(&mut self, skill_id: &String, skill: SkillMetadata)
        requires
            old(self).inv(),
        ensures
            final(self).inv(),
            skill_store_view(final(self).skill_metadata_by_skill_id@) == store_with_record(
                skill_store_view(old(self).skill_metadata_by_skill_id@),
                skill_id@,
                skill_record_view(skill),
            ),
            *final(self) == (ELearningContract {
                skill_metadata_by_skill_id: final(self).skill_metadata_by_skill_id,
                ..*old(self)
            }),
    {
        let ghost old_store = skill_store_view(self.skill_metadata_by_skill_id@);
        let ghost rec = skill_record_view(skill);
        let mut records = match self.skill_metadata_by_skill_id.remove(skill_id) {
            Some(v) => v,
            None => Vec::new(),
        };
        let ghost cur = records@.map_values(|s: SkillMetadata| skill_record_view(s));
        proof {
            if !old_store.contains_key(skill_id@) {
                assert(cur =~= Seq::<(Seq<char>, u32, Seq<char>, bool)>::empty());
            }
        }
        let mut found = false;
        let mut i: usize = 0;
        while i < records.len()
            invariant
                i <= records.len(),
                cur == records@.map_values(|s: SkillMetadata| skill_record_view(s)),
                rec == skill_record_view(skill),
                found == exists|j: int| 0 <= j < i && #[trigger] cur[j] == rec,
            decreases records.len() - i,
        {
            let s = &records[i];
            if s.skill_id == skill.skill_id && s.credit == skill.credit && s.credit_from
                == skill.credit_from && s.use_skill == skill.use_skill {
                assert(cur[i as int] == rec);
                found = true;
            }
            i = i + 1;
        }
        if !found {
            records.push(skill);
            assert(records@.map_values(|s: SkillMetadata| skill_record_view(s)) =~= cur.push(rec));
        } else {
            assert(cur.contains(rec));
        }
        self.skill_metadata_by_skill_id.insert(skill_id.clone(), records);
        proof {
            assert(skill_store_view(self.skill_metadata_by_skill_id@) =~= store_with_record(
                old_store,
                skill_id@,
                rec,
            ));
        }
    }

    /// Records the skills a certificate proves and credits them to the signer.
    pub fn mint_skill_by_certificate(
        &mut self,
        ctx: &CallContext,
        certificate_id: String,
        skills: Vec<WrapSkill>,
    ) -> (r: Result<(), ContractError>)
        requires
            old(self).inv(),
        ensures
            final(self).inv(),
            ({
                let users = old(self).user_metadata_by_id@;
                let u = ctx.signer@;
                let after = credits_after_skills(users[u].skill@, skills@);
                &&& r is Ok <==> users.contains_key(u) && after is Some
                &&& r matches Err(e) ==> *final(self) == *old(self) && e == (if !users.contains_key(u) {
                    ContractError::NotRegistered
                } else {
                    ContractError::ArithmeticOverflow
                })
                &&& r is Ok ==> {
                    let nu = final(self).user_metadata_by_id@[u];
                    &&& final(self).user_metadata_by_id@ == users.insert(u, nu)
                    &&& nu == (JsonUser { skill: nu.skill, ..users[u] })
                    &&& Some(nu.skill@) == after
                    &&& skill_store_view(final(self).skill_metadata_by_skill_id@) == store_after_skills(
                        skill_store_view(old(self).skill_metadata_by_skill_id@),
                        skills@,
                        certificate_id@,
                    )
                    &&& *final(self) == (ELearningContract {
                        user_metadata_by_id: final(self).user_metadata_by_id,
                        skill_metadata_by_skill_id: final(self).skill_metadata_by_skill_id,
                        ..*old(self)
                    })
                }
            }),
    {
        match self.user_metadata_by_id.get(&ctx.signer) {
            None => {
                return Err(ContractError::NotRegistered);
            },
            Some(user) => {
                if plan_skill_credits(&user.skill, &skills).is_none() {
                    return Err(ContractError::ArithmeticOverflow);
                }
            },
        }
        let ghost old_self = *self;
        let mut i: usize = 0;
        while i < skills.len()
            invariant
                i <= skills.len(),
                self.inv(),
                skill_store_view(self.skill_metadata_by_skill_id@) == store_after_skills(
                    skill_store_view(old_self.skill_metadata_by_skill_id@),
                    skills@.take(i as int),
                    certificate_id@,
                ),
                *self == (ELearningContract {
                    skill_metadata_by_skill_id: self.skill_metadata_by_skill_id,
                    ..old_self
                }),
            decreases skills.len() - i,
        {
            let s = &skills[i];
            let new_skill_data = SkillMetadata {
                skill_id: s.skill_id.clone(),
                credit: s.credit,
                credit_from: certificate_id.clone(),
                use_skill: true,
            };
            self.internal_add_skill_metadata_to_skill_id(&s.skill_id, new_skill_data);
            assert(skills@.take(i + 1).drop_last() =~= skills@.take(i as int));
            i = i + 1;
        }
        assert(skills@.take(skills@.len() as int) =~= skills@);
        let r = self.apply_skill_credits(ctx.signer.clone(), &skills);
        assert(r is Ok);
        r
    }

    /// Adds a certificate id to the student's certificates.
    pub fn internal_add_certificate_to_user(&mut self, student_id: &String, certificate_id: &String) -> (r:
        Result<(), ContractError>)
        requires
            old(self).inv(),
            old(self).certificate_metadata_by_id@.contains_key(certificate_id@),
        ensures
            final(self).inv(),
            ({
                let users = old(self).user_metadata_by_id@;
                let u = student_id@;
                &&& r is Ok <==> users.contains_key(u)
                &&& r matches Err(e) ==> *final(self) == *old(self) && e == ContractError::NotRegistered
                &&& r is Ok ==> {
                    let nu = final(self).user_metadata_by_id@[u];
                    &&& final(self).user_metadata_by_id@ == users.insert(u, nu)
                    &&& nu == (JsonUser { certificate: nu.certificate, ..users[u] })
                    &&& nu.certificate@ == users[u].certificate@.push(nu.certificate@.last())
                    &&& nu.certificate@.last()@ == certificate_id@
                    &&& *final(self) == (ELearningContract {
                        user_metadata_by_id: final(self).user_metadata_by_id,
                        ..*old(self)
                    })
                }
            }),
    {
        if !self.check_registration(student_id) {
            return Err(ContractError::NotRegistered);
        }
        let ghost old_self = *self;
        let mut user = self.user_metadata_by_id.remove(student_id).unwrap();
        user.certificate.push(certificate_id.clone());
        self.user_metadata_by_id.insert(student_id.clone(), user);
        proof {
            let nus = self.user_metadata_by_id@;
            let ous = old_self.user_metadata_by_id@;
            assert(nus =~= ous.insert(student_id@, nus[student_id@]));
            assert forall|w: Seq<char>| #[trigger] nus.contains_key(w) implies all_strings_keyed(
                nus[w].certificate@,
                self.certificate_metadata_by_id@,
            ) && all_strings_keyed(nus[w].courses@, self.course_metadata_by_id@) by {
                assert(ous.contains_key(w));
                if w == student_id@ {
                    assert forall|i: int| 0 <= i < nus[w].certificate@.len() implies self.certificate_metadata_by_id@.contains_key(
                    #[trigger] nus[w].certificate@[i]@) by {
                        if i < ous[w].certificate@.len() {
                            assert(nus[w].certificate@[i] == ous[w].certificate@[i]);
                        }
                    }
                }
            }
            assert forall|i: int| 0 <= i < self.subscriber_users@.len() implies nus.contains_key(
            #[trigger] self.subscriber_users@[i]) by {
                assert(ous.contains_key(old_self.subscriber_users@[i]));
            }
            assert forall|i: int| 0 <= i < self.intructor_users@.len() implies nus.contains_key(
            #[trigger] self.intructor_users@[i]) by {
                assert(ous.contains_key(old_self.intructor_users@[i]));
            }
        }
        Ok(())
    }

    /// Mints the certificate of a course for one of its students who has
    /// completed it.
    pub fn mint_certificate(
        &mut self,
        course_id: String,
        student_id: String,
        skills: Vec<WrapSkill>,
        media: String,
    ) -> (r: Result<(), ContractError>)
        requires
            old(self).inv(),
        ensures
            final(self).inv(),
            ({
                let courses = old(self).course_metadata_by_id@;
                let users = old(self).user_metadata_by_id@;
                let (c, s) = (course_id@, student_id@);
                let cert = certificate_id_spec(c, s);
                &&& r is Ok <==> courses.contains_key(c) && courses[c].students_studying_map@.contains_key(s)
                    && courses[c].students_completed@.contains_key(s) && users.contains_key(s)
                    && !has_view(users[s].certificate@, cert)
                &&& r matches Err(e) ==> *final(self) == *old(self) && e == (if !courses.contains_key(c) {
                    ContractError::CourseMissing
                } else if !courses[c].students_studying_map@.contains_key(s) {
                    ContractError::NotStudent
                } else if !courses[c].students_completed@.contains_key(s) {
                    ContractError::CourseNotCompleted
                } else if !users.contains_key(s) {
                    ContractError::NotRegistered
                } else {
                    ContractError::CertificateExists
                })
                &&& r is Ok ==> {
                    let nc = final(self).certificate_metadata_by_id@[cert];
                    let nu = final(self).user_metadata_by_id@[s];
                    &&& final(self).certificate_metadata_by_id@ == old(self).certificate_metadata_by_id@.insert(cert, nc)
                    &&& nc.certificate_id@ == cert && nc.student == student_id && nc.skills == skills && nc.media == media
                    &&& final(self).user_metadata_by_id@ == users.insert(s, nu)
                    &&& nu == (JsonUser { certificate: nu.certificate, ..users[s] })
                    &&& nu.certificate@ == users[s].certificate@.push(nu.certificate@.last())
                    &&& nu.certificate@.last()@ == cert
                    &&& *final(self) == (ELearningContract {
                        user_metadata_by_id: final(self).user_metadata_by_id,
                        certificate_metadata_by_id: final(self).certificate_metadata_by_id,
                        ..*old(self)
                    })
                }
            }),
    {
        match self.course_metadata_by_id.get(&course_id) {
            None => {
                return Err(ContractError::CourseMissing);
            },
            Some(course) => {
                if !course.students_studying_map.contains_key(&student_id) {
                    return Err(ContractError::NotStudent);
                }
                if !course.students_completed.contains_key(&student_id) {
                    return Err(ContractError::CourseNotCompleted);
                }
            },
        }
        let certificate_id = convert_to_certificate_id(&course_id, &student_id);
        match self.user_metadata_by_id.get(&student_id) {
            None => {
                return Err(ContractError::NotRegistered);
            },
            Some(user) => {
                if crate::collections::contains_string(&user.certificate, &certificate_id) {
                    return Err(ContractError::CertificateExists);
                }
            },
        }
        let certificate_metadata = CertificateMetadata {
            certificate_id: certificate_id.clone(),
            student: student_id.clone(),
            media,
            skills,
        };
        let ghost old_self = *self;
        self.certificate_metadata_by_id.insert(certificate_id.clone(), certificate_metadata);
        proof {
            let nc = self.certificate_metadata_by_id@;
            let oc = old_self.certificate_metadata_by_id@;
            assert forall|w: Seq<char>| #[trigger] self.user_metadata_by_id@.contains_key(w) implies all_strings_keyed(
                self.user_metadata_by_id@[w].certificate@,
                nc,
            ) by {
                let cs = self.user_metadata_by_id@[w].certificate@;
                assert forall|i: int| 0 <= i < cs.len() implies nc.contains_key(#[trigger] cs[i]@) by {
                    assert(all_strings_keyed(cs, oc));
                    assert(oc.contains_key(cs[i]@));
                }
            }
        }
        let r = self.internal_add_certificate_to_user(&student_id, &certificate_id);
        assert(r is Ok);
        r
    }

    /// A registered user's certificates on one page (default 20 per page).
    pub fn get_all_certificate_by_user_id(&self, user_id: &String, start: Option<u32>, limit: Option<u32>) -> (r:
        Result<Vec<&CertificateMetadata>, ContractError>)
        requires
            self.inv(),
        ensures
            ({
                let users = self.user_metadata_by_id@;
                &&& r is Err <==> !users.contains_key(user_id@)
                &&& r matches Err(e) ==> e == ContractError::NotRegistered
                &&& r matches Ok(v) ==> {
                    let ids = page_of(users[user_id@].certificate@, start_or_zero(start), limit_or(limit, 20));
                    &&& v@.len() == ids.len()
                    &&& forall|i: int| 0 <= i < ids.len() ==> *v@[i] == self.certificate_metadata_by_id@[ids[i]@]
                }
            }),
    {
        let user = match self.user_metadata_by_id.get(user_id) {
            None => {
                return Err(ContractError::NotRegistered);
            },
            Some(u) => u,
        };
        let ids = &user.certificate;
        proof {
            assert(self.user_metadata_by_id@.contains_key(user_id@));
        }
        let (first, end) = page_bounds(ids.len(), start, limit, 20);
        let ghost page = page_of(ids@, start_or_zero(start), limit_or(limit, 20));
        let mut r: Vec<&CertificateMetadata> = Vec::new();
        let mut i = first;
        while i < end
            invariant
                first <= i <= end <= ids@.len(),
                page.len() == end - first,
                forall|j: int| 0 <= j < page.len() ==> page[j] == ids@[first + j],
                all_strings_keyed(ids@, self.certificate_metadata_by_id@),
                r@.len() == i - first,
                forall|j: int| 0 <= j < i - first ==> *r@[j] == self.certificate_metadata_by_id@[page[j]@],
            decreases end - i,
        {
            assert(self.certificate_metadata_by_id@.contains_key(ids@[i as int]@));
            r.push(self.certificate_metadata_by_id.get(&ids[i]).unwrap());
            i = i + 1;
        }
        Ok(r)
    }

    /// The certificate's record, if any.
    pub fn get_certificate_metadata_by_certificate_id(&self, certificate_id: &String) -> (r: Option<
        &CertificateMetadata,
    >)
        ensures
            match r {
                Some(c) => self.certificate_metadata_by_id@.contains_key(certificate_id@) && *c
                    == self.certificate_metadata_by_id@[certificate_id@],
                None => !self.certificate_metadata_by_id@.contains_key(certificate_id@),
            },
    {
        self.certificate_metadata_by_id.get(certificate_id)
    }

    /// A registered user's skill credits.
    pub fn get_all_skills_per_user(&self, user_id: &String) -> (r: Result<&StrMap<u32>, ContractError>)
        ensures
            match r {
                Ok(m) => self.user_metadata_by_id@.contains_key(user_id@) && m@
                    == self.user_metadata_by_id@[user_id@].skill@,
                Err(e) => !self.user_metadata_by_id@.contains_key(user_id@) && e
                    == ContractError::NotRegistered,
            },
    {
        match self.user_metadata_by_id.get(user_id) {
            None => Err(ContractError::NotRegistered),
            Some(u) => Ok(&u.skill),
        }
    }

    /// The records stored under a skill id on one page (default 20 per page);
    /// none where the skill id is unknown.
    pub fn get_all_skill_metadata_by_skill_id(&self, skill_id: &String, start: Option<u32>, limit: Option<u32>) -> (r:
        Vec<&SkillMetadata>)
        ensures
            ({
                let m = self.skill_metadata_by_skill_id@;
                if !m.contains_key(skill_id@) {
                    r@.len() == 0
                } else {
                    let page = page_of(m[skill_id@]@, start_or_zero(start), limit_or(limit, 20));
                    &&& r@.len() == page.len()
                    &&& forall|i: int| 0 <= i < page.len() ==> *r@[i] == page[i]
                }
            }),
    {
        let data = match self.skill_metadata_by_skill_id.get(skill_id) {
            None => {
                return Vec::new();
            },
            Some(d) => d,
        };
        let (first, end) = page_bounds(data.len(), start, limit, 20);
        let ghost page = page_of(data@, start_or_zero(start), limit_or(limit, 20));
        let mut r: Vec<&SkillMetadata> = Vec::new();
        let mut i = first;
        while i < end
            invariant
                first <= i <= end <= data@.len(),
                page.len() == end - first,
                forall|j: int| 0 <= j < page.len() ==> page[j] == data@[first + j],
                r@.len() == i - first,
                forall|j: int| 0 <= j < i - first ==> *r@[j] == page[j],
            decreases end - i,
        {
            r.push(&data[i]);
            i = i + 1;
        }
        r
    }
}

} // verus!
