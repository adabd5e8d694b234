//! Mentorings: offers, study processes bought through the pool contract,
//! lesson completion, the mentor's claims and the student's withdrawal.
use vstd::prelude::*;

use crate::collections::StrMap;
use crate::context::{
    promise_status, promise_status_spec, Callback, CallContext, ContractError, CrossCall, PoolCall,
    PromiseOutcome,
};
use crate::elearning::{all_keyed, limit_or, mentoring_balanced, page_bounds, page_of, start_or_zero, study_process_balanced, ELearningContract};
use crate::models::{MentoringMetadata, StudyProcessList, StudyProcessMetadata};
use crate::repository::{
    convert_mentoring_title_to_mentoring_id, convert_to_study_process_id, convert_to_yocto,
    fits_in_yocto, mentoring_id_spec, study_process_id_spec, yocto_per_near,
};
use crate::users::credit_added;

verus! {

/// Study process `p` of student `s` in mentoring `m` exists in `ms`.
pub open spec fn has_study_process(
    ms: Map<Seq<char>, MentoringMetadata>,
    m: Seq<char>,
    s: Seq<char>,
    p: Seq<char>,
) -> bool {
    &&& ms.contains_key(m)
    &&& ms[m].study_process@.contains_key(s)
    &&& ms[m].study_process@[s].study_process_list@.contains_key(p)
}

/// Study process `p` of student `s` in mentoring `m`.
pub open spec fn study_process_of(
    ms: Map<Seq<char>, MentoringMetadata>,
    m: Seq<char>,
    s: Seq<char>,
    p: Seq<char>,
) -> StudyProcessMetadata {
    ms[m].study_process@[s].study_process_list@[p]
}

/// `new` is `old` with study process `p` of student `s` in mentoring `m`
/// replaced by `sp`, and nothing else changed.
pub open spec fn study_process_replaced(
    old: Map<Seq<char>, MentoringMetadata>,
    new: Map<Seq<char>, MentoringMetadata>,
    m: Seq<char>,
    s: Seq<char>,
    p: Seq<char>,
    sp: StudyProcessMetadata,
) -> bool {
    let om = old[m];
    let nm = new[m];
    &&& new == old.insert(m, nm)
    &&& nm == (MentoringMetadata { study_process: nm.study_process, ..om })
    &&& nm.study_process@ == om.study_process@.insert(s, nm.study_process@[s])
    &&& nm.study_process@[s].study_process_list@ == om.study_process@[s].study_process_list@.insert(
        p,
        sp,
    )
}

/// The study process a purchase of `value` creates at price `price`.
pub open spec fn new_study_process(
    sp: StudyProcessMetadata,
    p: Seq<char>,
    s: Seq<char>,
    now: u64,
    value: u128,
    price: u128,
) -> bool {
    &&& sp.study_process_id@ == p
    &&& sp.student_id@ == s
    &&& sp.start_at == now
    &&& sp.total_lession == (value / price) as u32
    &&& sp.lession_completed == 0
    &&& !sp.mentoring_completed
    &&& sp.total_claim == 0
    &&& sp.total_amount == value
    &&& sp.remaining_amount == value
    &&& sp.price_per_lession == price
}

impl ELearningContract {
    /// Nothing but the mentorings changed, and the invariant still holds.
    proof fn lemma_mentorings_replaced(old: &ELearningContract, new: &ELearningContract, m: Seq<char>)
        requires
            old.inv(),
            *new == (ELearningContract {
                mentoring_metadata_by_mentoring_id: new.mentoring_metadata_by_mentoring_id,
                ..*old
            }),
            old.mentoring_metadata_by_mentoring_id@.contains_key(m),
            new.mentoring_metadata_by_mentoring_id@ == old.mentoring_metadata_by_mentoring_id@.insert(
                m,
                new.mentoring_metadata_by_mentoring_id@[m],
            ),
            mentoring_balanced(new.mentoring_metadata_by_mentoring_id@[m]),
        ensures
            new.inv(),
    {
        assert(new.mentoring_metadata_by_mentoring_id@.dom()
            =~= old.mentoring_metadata_by_mentoring_id@.dom());
        assert forall|i: int| 0 <= i < new.all_mentoring_id@.len() implies new.mentoring_metadata_by_mentoring_id@.contains_key(
        #[trigger] new.all_mentoring_id@[i]) by {
            assert(old.mentoring_metadata_by_mentoring_id@.contains_key(old.all_mentoring_id@[i]));
        }
    }

    /// Whether `student_id` has a study process in the mentoring; refused
    /// where the mentoring does not exist.
    pub fn check_student_in_mentoring(&self, mentoring_id: &String, student_id: &String) -> (r: Result<
        bool,
        ContractError,
    >)
        ensures
            ({
                let ms = self.mentoring_metadata_by_mentoring_id@;
                match r {
                    Ok(b) => ms.contains_key(mentoring_id@) && b == ms[mentoring_id@].study_process@.contains_key(
                        student_id@,
                    ),
                    Err(e) => !ms.contains_key(mentoring_id@) && e == ContractError::MentoringMissing,
                }
            }),
    {
        match self.mentoring_metadata_by_mentoring_id.get(mentoring_id) {
            None => Err(ContractError::MentoringMissing),
            Some(m) => Ok(m.study_process.contains_key(student_id)),
        }
    }

    /// Whether the study process is finished; refused where the mentoring, the
    /// student or the study process is unknown.
    pub fn check_study_process_state(
        &self,
        mentoring_id: &String,
        student_id: &String,
        study_process_id: &String,
    ) -> (r: Result<bool, ContractError>)
        ensures
            ({
                let ms = self.mentoring_metadata_by_mentoring_id@;
                let (m, s, p) = (mentoring_id@, student_id@, study_process_id@);
                match r {
                    Ok(b) => has_study_process(ms, m, s, p) && b == study_process_of(
                        ms,
                        m,
                        s,
                        p,
                    ).mentoring_completed,
                    Err(e) => !has_study_process(ms, m, s, p) && e == (if !ms.contains_key(m) {
                        ContractError::MentoringMissing
                    } else if !ms[m].study_process@.contains_key(s) {
                        ContractError::StudentNotInMentoring
                    } else {
                        ContractError::StudyProcessMissing
                    }),
                }
            }),
    {
        let mentoring = match self.mentoring_metadata_by_mentoring_id.get(mentoring_id) {
            None => {
                return Err(ContractError::MentoringMissing);
            },
            Some(m) => m,
        };
        let list = match mentoring.study_process.get(student_id) {
            None => {
                return Err(ContractError::StudentNotInMentoring);
            },
            Some(l) => l,
        };
        match list.study_process_list.get(study_process_id) {
            None => Err(ContractError::StudyProcessMissing),
            Some(sp) => Ok(sp.mentoring_completed),
        }
    }

    /// Whether the student already has a study process with this id.
    pub fn check_duplicate_study_process(
        &self,
        mentoring_id: &String,
        student_id: &String,
        study_process_id: &String,
    ) -> (b: bool)
        requires
            self.mentoring_metadata_by_mentoring_id@.contains_key(mentoring_id@),
            self.mentoring_metadata_by_mentoring_id@[mentoring_id@].study_process@.contains_key(
                student_id@,
            ),
        ensures
            b == has_study_process(
                self.mentoring_metadata_by_mentoring_id@,
                mentoring_id@,
                student_id@,
                study_process_id@,
            ),
    {
        self.mentoring_metadata_by_mentoring_id.get(mentoring_id).unwrap().study_process.get(
            student_id,
        ).unwrap().study_process_list.contains_key(study_process_id)
    }

    /// Whether `owner_id` owns the mentoring; refused where it does not exist.
    pub fn check_mentoring_owner(&self, mentoring_id: &String, owner_id: &String) -> (r: Result<
        bool,
        ContractError,
    >)
        ensures
            ({
                let ms = self.mentoring_metadata_by_mentoring_id@;
                match r {
                    Ok(b) => ms.contains_key(mentoring_id@) && b == (ms[mentoring_id@].mentoring_owner@
                        == owner_id@),
                    Err(e) => !ms.contains_key(mentoring_id@) && e == ContractError::MentoringMissing,
                }
            }),
    {
        match self.mentoring_metadata_by_mentoring_id.get(mentoring_id) {
            None => Err(ContractError::MentoringMissing),
            Some(m) => Ok(m.mentoring_owner == *owner_id),
        }
    }

    /// Records a study process bought for `value` yoctoNEAR: its lessons are
    /// `value / price` at the mentoring's price. Returns false (and changes
    /// nothing) where the student already has a study process with this id.
    pub fn internal_add_study_process(
        &mut self,
        ctx: &CallContext,
        mentoring_id: &String,
        student_id: &String,
        study_process_id: String,
        value: u128,
    ) -> (r: Result<bool, ContractError>)
        requires
            old(self).inv(),
        ensures
            final(self).inv(),
            ({
                let ms = old(self).mentoring_metadata_by_mentoring_id@;
                let (m, s, p) = (mentoring_id@, student_id@, study_process_id@);
                &&& r is Ok <==> ms.contains_key(m) && ms[m].price_per_lession != 0
                &&& r matches Err(e) ==> *final(self) == *old(self) && e == (if !ms.contains_key(m) {
                    ContractError::MentoringMissing
                } else {
                    ContractError::InvalidLessonState
                })
                &&& r == Ok::<bool, ContractError>(false) ==> *final(self) == *old(self)
                    && has_study_process(ms, m, s, p)
                &&& r == Ok::<bool, ContractError>(true) ==> {
                    let nms = final(self).mentoring_metadata_by_mentoring_id@;
                    &&& !has_study_process(ms, m, s, p)
                    &&& nms == ms.insert(m, nms[m])
                    &&& nms[m] == (MentoringMetadata { study_process: nms[m].study_process, ..ms[m] })
                    &&& nms[m].study_process@ == ms[m].study_process@.insert(s, nms[m].study_process@[s])
                    &&& nms[m].study_process@[s].study_process_list@ == (if ms[m].study_process@.contains_key(s) {
                        ms[m].study_process@[s].study_process_list@
                    } else {
                        Map::empty()
                    }).insert(p, study_process_of(nms, m, s, p))
                    &&& new_study_process(
                        study_process_of(nms, m, s, p),
                        p,
                        s,
                        ctx.block_timestamp_ms,
                        value,
                        ms[m].price_per_lession,
                    )
                    &&& *final(self) == (ELearningContract {
                        mentoring_metadata_by_mentoring_id: final(self).mentoring_metadata_by_mentoring_id,
                        ..*old(self)
                    })
                }
            }),
    {
        let price = match self.mentoring_metadata_by_mentoring_id.get(mentoring_id) {
            None => {
                return Err(ContractError::MentoringMissing);
            },
            Some(m) => m.price_per_lession,
        };
        if price == 0 {
            return Err(ContractError::InvalidLessonState);
        }
        let has_student = self.check_student_in_mentoring(mentoring_id, student_id).unwrap();
        if has_student && self.check_duplicate_study_process(mentoring_id, student_id, &study_process_id) {
            return Ok(false);
        }
        let lessons = value / price;
        let info = StudyProcessMetadata {
            study_process_id: study_process_id.clone(),
            student_id: student_id.clone(),
            start_at: ctx.block_timestamp_ms,
            total_lession: lessons as u32,
            lession_completed: 0,
            mentoring_completed: false,
            total_claim: 0,
            total_amount: value,
            remaining_amount: value,
            price_per_lession: price,
        };
        let ghost old_self = *self;
        let mut mentoring_info = self.mentoring_metadata_by_mentoring_id.remove(mentoring_id).unwrap();
        let mut list = match mentoring_info.study_process.remove(student_id) {
            Some(l) => l,
            None => StudyProcessList { study_process_list: StrMap::new() },
        };
        list.study_process_list.insert(study_process_id, info);
        mentoring_info.study_process.insert(student_id.clone(), list);
        self.mentoring_metadata_by_mentoring_id.insert(mentoring_id.clone(), mentoring_info);
        proof {
            let nms = self.mentoring_metadata_by_mentoring_id@;
            let ms = old_self.mentoring_metadata_by_mentoring_id@;
            let (m, s) = (mentoring_id@, student_id@);
            assert(nms =~= ms.insert(m, nms[m]));
            assert(nms[m].study_process@ =~= ms[m].study_process@.insert(s, nms[m].study_process@[s]));
            Self::lemma_mentorings_replaced(&old_self, self, mentoring_id@);
        }
        Ok(true)
    }

    /// Stores a mentoring created by the signer, at a price given in NEAR and
    /// kept in yoctoNEAR. An existing record with the same id is replaced.
    pub fn storage_mentoring(
        &mut self,
        ctx: &CallContext,
        mentoring_title: String,
        mentoring_id: String,
        price_per_lession: u128,
        description: Option<String>,
    ) -> (r: Result<(), ContractError>)
        requires
            old(self).inv(),
        ensures
            final(self).inv(),
            r is Ok <==> price_per_lession * yocto_per_near() <= u128::MAX,
            r matches Err(e) ==> *final(self) == *old(self) && e == ContractError::ArithmeticOverflow,
            r is Ok ==> {
                let nm = final(self).mentoring_metadata_by_mentoring_id@[mentoring_id@];
                &&& final(self).mentoring_metadata_by_mentoring_id@
                    == old(self).mentoring_metadata_by_mentoring_id@.insert(mentoring_id@, nm)
                &&& nm.mentoring_title == mentoring_title
                &&& nm.mentoring_id == mentoring_id
                &&& nm.mentoring_owner@ == ctx.signer@
                &&& nm.price_per_lession == price_per_lession * yocto_per_near()
                &&& nm.description == description
                &&& nm.study_process@ == Map::<Seq<char>, StudyProcessList>::empty()
                &&& (if old(self).all_mentoring_id@.contains(mentoring_id@) {
                    final(self).all_mentoring_id@ == old(self).all_mentoring_id@
                } else {
                    final(self).all_mentoring_id@ == old(self).all_mentoring_id@.push(mentoring_id@)
                })
                &&& *final(self) == (ELearningContract {
                    mentoring_metadata_by_mentoring_id: final(self).mentoring_metadata_by_mentoring_id,
                    all_mentoring_id: final(self).all_mentoring_id,
                    ..*old(self)
                })
            },
    {
        if !fits_in_yocto(price_per_lession) {
            return Err(ContractError::ArithmeticOverflow);
        }
        let price_per_lession = convert_to_yocto(price_per_lession);
        let mentoring_info = MentoringMetadata {
            mentoring_title,
            mentoring_id: mentoring_id.clone(),
            mentoring_owner: ctx.signer.clone(),
            price_per_lession,
            description,
            study_process: StrMap::new(),
        };
        let ghost old_self = *self;
        self.all_mentoring_id.insert(mentoring_id.clone());
        self.mentoring_metadata_by_mentoring_id.insert(mentoring_id, mentoring_info);
        proof {
            assert forall|i: int| 0 <= i < self.all_mentoring_id@.len() implies self.mentoring_metadata_by_mentoring_id@.contains_key(
            #[trigger] self.all_mentoring_id@[i]) by {
                if i < old_self.all_mentoring_id@.len() {
                    assert(self.all_mentoring_id@[i] == old_self.all_mentoring_id@[i]);
                    assert(old_self.mentoring_metadata_by_mentoring_id@.contains_key(
                        old_self.all_mentoring_id@[i],
                    ));
                }
            }
        }
        Ok(())
    }

    /// Asks the pool contract to pay one lesson to the mentor; the callback
    /// then records the claim.
    pub fn mentoring_claim(&self, mentoring_id: String, student_id: String, study_process_id: String) -> (r:
        Result<CrossCall, ContractError>)
        ensures
            ({
                let ms = self.mentoring_metadata_by_mentoring_id@;
                let (m, s, p) = (mentoring_id@, student_id@, study_process_id@);
                &&& r is Ok <==> has_study_process(ms, m, s, p) && !study_process_of(
                    ms,
                    m,
                    s,
                    p,
                ).mentoring_completed
                &&& r matches Err(e) ==> e == (if !ms.contains_key(m) {
                    ContractError::MentoringMissing
                } else if !ms[m].study_process@.contains_key(s) {
                    ContractError::StudentNotInMentoring
                } else if !ms[m].study_process@[s].study_process_list@.contains_key(p) {
                    ContractError::StudyProcessMissing
                } else {
                    ContractError::StudyProcessFinished
                })
                &&& r matches Ok(c) ==> c.pool_address == self.pool_address && c.call == (PoolCall::MentoringClaim {
                    receiver: ms[m].mentoring_owner,
                    amount: study_process_of(ms, m, s, p).price_per_lession,
                }) && c.callback == (Callback::RemoveClaimInfo {
                    mentoring_id,
                    student_id,
                    study_process_id,
                })
            }),
    {
        if self.check_study_process_state(&mentoring_id, &student_id, &study_process_id)? {
            return Err(ContractError::StudyProcessFinished);
        }
        let mentoring = self.mentoring_metadata_by_mentoring_id.get(&mentoring_id).unwrap();
        let owner = mentoring.mentoring_owner.clone();
        let amount = mentoring.study_process.get(&student_id).unwrap().study_process_list.get(
            &study_process_id,
        ).unwrap().price_per_lession;
        Ok(
            CrossCall {
                pool_address: self.pool_address.clone(),
                call: PoolCall::MentoringClaim { receiver: owner, amount },
                callback: Callback::RemoveClaimInfo { mentoring_id, student_id, study_process_id },
            },
        )
    }

    /// Callback of a claim: where the pool paid (status 1), one lesson's price
    /// is added to what the mentor has claimed.
    pub fn remove_claim_info(
        &mut self,
        mentoring_id: String,
        student_id: String,
        study_process_id: String,
        outcome: &PromiseOutcome,
    ) -> (r: Result<(), ContractError>)
        requires
            old(self).inv(),
        ensures
            final(self).inv(),
            ({
                let ms = old(self).mentoring_metadata_by_mentoring_id@;
                let (m, s, p) = (mentoring_id@, student_id@, study_process_id@);
                let paid = !(*outcome is NotReady) && promise_status_spec(*outcome) == 1;
                let sp = study_process_of(ms, m, s, p);
                &&& r is Ok <==> !(*outcome is NotReady) && (paid ==> has_study_process(ms, m, s, p)
                    && sp.total_claim + sp.price_per_lession <= u128::MAX)
                &&& r matches Err(e) ==> *final(self) == *old(self) && e == (if *outcome is NotReady {
                    ContractError::PromiseNotReady
                } else if !has_study_process(ms, m, s, p) {
                    ContractError::RecordMissing
                } else {
                    ContractError::ArithmeticOverflow
                })
                &&& r is Ok && !paid ==> *final(self) == *old(self)
                &&& r is Ok && paid ==> study_process_replaced(
                    ms,
                    final(self).mentoring_metadata_by_mentoring_id@,
                    m,
                    s,
                    p,
                    StudyProcessMetadata {
                        total_claim: (sp.total_claim + sp.price_per_lession) as u128,
                        ..sp
                    },
                ) && *final(self) == (ELearningContract {
                    mentoring_metadata_by_mentoring_id: final(self).mentoring_metadata_by_mentoring_id,
                    ..*old(self)
                })
            }),
    {
        let result = promise_status(outcome)?;
        if result != 1 {
            return Ok(());
        }
        let sp = match self.find_study_process(&mentoring_id, &student_id, &study_process_id) {
            None => {
                return Err(ContractError::RecordMissing);
            },
            Some(sp) => sp,
        };
        if sp.total_claim > u128::MAX - sp.price_per_lession {
            return Err(ContractError::ArithmeticOverflow);
        }
        let claim = sp.total_claim + sp.price_per_lession;
        let ghost old_self = *self;
        let mut new_sp = self.take_study_process(&mentoring_id, &student_id, &study_process_id);
        new_sp.total_claim = claim;
        self.put_study_process(mentoring_id, student_id, study_process_id, new_sp, Ghost(old_self));
        Ok(())
    }

    fn find_study_process(&self, mentoring_id: &String, student_id: &String, study_process_id: &String) -> (r:
        Option<&StudyProcessMetadata>)
        ensures
            ({
                let ms = self.mentoring_metadata_by_mentoring_id@;
                match r {
                    Some(sp) => has_study_process(ms, mentoring_id@, student_id@, study_process_id@)
                        && *sp == study_process_of(ms, mentoring_id@, student_id@, study_process_id@),
                    None => !has_study_process(ms, mentoring_id@, student_id@, study_process_id@),
                }
            }),
    {
        match self.mentoring_metadata_by_mentoring_id.get(mentoring_id) {
            None => None,
            Some(m) => match m.study_process.get(student_id) {
                None => None,
                Some(l) => l.study_process_list.get(study_process_id),
            },
        }
    }

    /// Takes a study process out; `put_study_process` puts one back.
    fn take_study_process(&mut self, mentoring_id: &String, student_id: &String, study_process_id: &String) -> (r:
        StudyProcessMetadata)
        requires
            has_study_process(
                old(self).mentoring_metadata_by_mentoring_id@,
                mentoring_id@,
                student_id@,
                study_process_id@,
            ),
        ensures
            r == study_process_of(
                old(self).mentoring_metadata_by_mentoring_id@,
                mentoring_id@,
                student_id@,
                study_process_id@,
            ),
            ({
                let (m, s, p) = (mentoring_id@, student_id@, study_process_id@);
                let oms = old(self).mentoring_metadata_by_mentoring_id@;
                let nms = final(self).mentoring_metadata_by_mentoring_id@;
                &&& nms == oms.insert(m, nms[m])
                &&& nms[m] == (MentoringMetadata { study_process: nms[m].study_process, ..oms[m] })
                &&& nms[m].study_process@ == oms[m].study_process@.insert(s, nms[m].study_process@[s])
                &&& nms[m].study_process@[s].study_process_list@
                    == oms[m].study_process@[s].study_process_list@.remove(p)
            }),
            *final(self) == (ELearningContract {
                mentoring_metadata_by_mentoring_id: final(self).mentoring_metadata_by_mentoring_id,
                ..*old(self)
            }),
    {
        let mut mentoring_info = self.mentoring_metadata_by_mentoring_id.remove(mentoring_id).unwrap();
        let mut list = mentoring_info.study_process.remove(student_id).unwrap();
        let sp = list.study_process_list.remove(study_process_id).unwrap();
        mentoring_info.study_process.insert(student_id.clone(), list);
        self.mentoring_metadata_by_mentoring_id.insert(mentoring_id.clone(), mentoring_info);
        sp
    }

    fn put_study_process(
        &mut self,
        mentoring_id: String,
        student_id: String,
        study_process_id: String,
        sp: StudyProcessMetadata,
        Ghost(before): Ghost<ELearningContract>,
    )
        requires
            before.inv(),
            has_study_process(
                before.mentoring_metadata_by_mentoring_id@,
                mentoring_id@,
                student_id@,
                study_process_id@,
            ),
            ({
                let (m, s, p) = (mentoring_id@, student_id@, study_process_id@);
                let oms = before.mentoring_metadata_by_mentoring_id@;
                let nms = old(self).mentoring_metadata_by_mentoring_id@;
                &&& nms == oms.insert(m, nms[m])
                &&& nms[m] == (MentoringMetadata { study_process: nms[m].study_process, ..oms[m] })
                &&& nms[m].study_process@ == oms[m].study_process@.insert(s, nms[m].study_process@[s])
                &&& nms[m].study_process@[s].study_process_list@
                    == oms[m].study_process@[s].study_process_list@.remove(p)
            }),
            *old(self) == (ELearningContract {
                mentoring_metadata_by_mentoring_id: old(self).mentoring_metadata_by_mentoring_id,
                ..before
            }),
            study_process_balanced(sp),
        ensures
            final(self).inv(),
            study_process_replaced(
                before.mentoring_metadata_by_mentoring_id@,
                final(self).mentoring_metadata_by_mentoring_id@,
                mentoring_id@,
                student_id@,
                study_process_id@,
                sp,
            ),
            *final(self) == (ELearningContract {
                mentoring_metadata_by_mentoring_id: final(self).mentoring_metadata_by_mentoring_id,
                ..before
            }),
    {
        let ghost (m, s, p) = (mentoring_id@, student_id@, study_process_id@);
        let ghost oms = before.mentoring_metadata_by_mentoring_id@;
        let mut mentoring_info = self.mentoring_metadata_by_mentoring_id.remove(&mentoring_id).unwrap();
        let mut list = mentoring_info.study_process.remove(&student_id).unwrap();
        list.study_process_list.insert(study_process_id, sp);
        mentoring_info.study_process.insert(student_id, list);
        self.mentoring_metadata_by_mentoring_id.insert(mentoring_id, mentoring_info);
        proof {
            let nms = self.mentoring_metadata_by_mentoring_id@;
            assert(nms =~= oms.insert(m, nms[m]));
            assert(nms[m].study_process@ =~= oms[m].study_process@.insert(s, nms[m].study_process@[s]));
            assert(nms[m].study_process@[s].study_process_list@
                =~= oms[m].study_process@[s].study_process_list@.insert(p, sp));
            assert(mentoring_balanced(oms[m]));
            assert forall|s2: Seq<char>, p2: Seq<char>| #[trigger]
                nms[m].study_process@[s2].study_process_list@.contains_key(p2) && nms[m].study_process@.contains_key(s2)
                implies study_process_balanced(nms[m].study_process@[s2].study_process_list@[p2]) by {
                if s2 != s || p2 != p {
                    assert(oms[m].study_process@[s2].study_process_list@.contains_key(p2));
                }
            }
            Self::lemma_mentorings_replaced(&before, self, m);
        }
    }

    /// Asks the pool contract to pay the last lesson to the mentor and refund
    /// the rest to the student; the callback completes the study process.
    pub fn complete_last_lession(&self, ctx: &CallContext, mentoring_id: &String, study_process_id: &String) -> (r:
        Result<CrossCall, ContractError>)
        ensures
            ({
                let ms = self.mentoring_metadata_by_mentoring_id@;
                let (m, s, p) = (mentoring_id@, ctx.signer@, study_process_id@);
                let sp = study_process_of(ms, m, s, p);
                &&& r is Ok <==> has_study_process(ms, m, s, p) && sp.remaining_amount
                    >= sp.price_per_lession
                &&& r matches Err(e) ==> e == (if !has_study_process(ms, m, s, p) {
                    ContractError::RecordMissing
                } else {
                    ContractError::ArithmeticOverflow
                })
                &&& r matches Ok(c) ==> c.pool_address == self.pool_address && c.call == (PoolCall::TransferLastLession {
                    receiver: ms[m].mentoring_owner,
                    price_per_lession: sp.price_per_lession,
                    remaining_amout: (sp.remaining_amount - sp.price_per_lession) as u128,
                }) && c.callback == (Callback::CompleteStudyProcess {
                    mentoring_id: *mentoring_id,
                    study_process_id: *study_process_id,
                })
            }),
    {
        let sp = match self.find_study_process(mentoring_id, &ctx.signer, study_process_id) {
            None => {
                return Err(ContractError::RecordMissing);
            },
            Some(sp) => sp,
        };
        if sp.remaining_amount < sp.price_per_lession {
            return Err(ContractError::ArithmeticOverflow);
        }
        let receiver = self.mentoring_metadata_by_mentoring_id.get(mentoring_id).unwrap().mentoring_owner.clone();
        Ok(
            CrossCall {
                pool_address: self.pool_address.clone(),
                call: PoolCall::TransferLastLession {
                    receiver,
                    price_per_lession: sp.price_per_lession,
                    remaining_amout: sp.remaining_amount - sp.price_per_lession,
                },
                callback: Callback::CompleteStudyProcess {
                    mentoring_id: mentoring_id.clone(),
                    study_process_id: study_process_id.clone(),
                },
            },
        )
    }

    /// Whether the next lesson is the last one.
    pub fn check_last_lession(&self, mentoring_id: &String, student_id: &String, study_process_id: &String) -> (r:
        Result<bool, ContractError>)
        ensures
            ({
                let ms = self.mentoring_metadata_by_mentoring_id@;
                let (m, s, p) = (mentoring_id@, student_id@, study_process_id@);
                let sp = study_process_of(ms, m, s, p);
                &&& r is Ok <==> has_study_process(ms, m, s, p) && sp.total_lession > 0
                &&& r matches Err(e) ==> e == (if !has_study_process(ms, m, s, p) {
                    ContractError::RecordMissing
                } else {
                    ContractError::InvalidLessonState
                })
                &&& r matches Ok(b) ==> b == (sp.lession_completed == sp.total_lession - 1)
            }),
    {
        let sp = match self.find_study_process(mentoring_id, student_id, study_process_id) {
            None => {
                return Err(ContractError::RecordMissing);
            },
            Some(sp) => sp,
        };
        if sp.total_lession == 0 {
            return Err(ContractError::InvalidLessonState);
        }
        Ok(sp.lession_completed == sp.total_lession - 1)
    }

    /// Callback of a withdrawal: where the pool refunded the student (status
    /// 1), the signer's study process is finished and nothing remains to pay;
    /// otherwise nothing changes.
    pub fn make_study_process_end(
        &mut self,
        ctx: &CallContext,
        mentoring_id: &String,
        study_process_id: String,
        outcome: &PromiseOutcome,
    ) -> (r: Result<(), ContractError>)
        requires
            old(self).inv(),
        ensures
            final(self).inv(),
            ({
                let ms = old(self).mentoring_metadata_by_mentoring_id@;
                let (m, s, p) = (mentoring_id@, ctx.signer@, study_process_id@);
                let paid = !(*outcome is NotReady) && promise_status_spec(*outcome) == 1;
                let sp = study_process_of(ms, m, s, p);
                &&& r is Ok <==> !(*outcome is NotReady) && (paid ==> has_study_process(ms, m, s, p))
                &&& r matches Err(e) ==> *final(self) == *old(self) && e == (if *outcome is NotReady {
                    ContractError::PromiseNotReady
                } else {
                    ContractError::RecordMissing
                })
                &&& r is Ok && !paid ==> *final(self) == *old(self)
                &&& r is Ok && paid ==> study_process_replaced(
                    ms,
                    final(self).mentoring_metadata_by_mentoring_id@,
                    m,
                    s,
                    p,
                    StudyProcessMetadata { mentoring_completed: true, remaining_amount: 0, ..sp },
                ) && *final(self) == (ELearningContract {
                    mentoring_metadata_by_mentoring_id: final(self).mentoring_metadata_by_mentoring_id,
                    ..*old(self)
                })
            }),
    {
        let result = promise_status(outcome)?;
        if result != 1 {
            return Ok(());
        }
        if self.find_study_process(mentoring_id, &ctx.signer, &study_process_id).is_none() {
            return Err(ContractError::RecordMissing);
        }
        let ghost old_self = *self;
        let mut sp = self.take_study_process(mentoring_id, &ctx.signer, &study_process_id);
        sp.mentoring_completed = true;
        sp.remaining_amount = 0;
        self.put_study_process(mentoring_id.clone(), ctx.signer.clone(), study_process_id, sp, Ghost(old_self));
        Ok(())
    }

    /// Whether the signer may withdraw from the study process: the mentoring
    /// exists, the signer studies in it, and the study process is not finished.
    pub fn check_mentoring_withdraw_availability(
        &self,
        ctx: &CallContext,
        mentoring_id: &String,
        study_process_id: &String,
    ) -> (r: Result<bool, ContractError>)
        ensures
            ({
                let ms = self.mentoring_metadata_by_mentoring_id@;
                let (m, s, p) = (mentoring_id@, ctx.signer@, study_process_id@);
                let listed = ms.contains_key(m) && ms[m].study_process@.contains_key(s);
                &&& r is Err <==> listed && !has_study_process(ms, m, s, p)
                &&& r matches Err(e) ==> e == ContractError::StudyProcessMissing
                &&& r matches Ok(b) ==> b == (listed && !study_process_of(
                    ms,
                    m,
                    s,
                    p,
                ).mentoring_completed)
            }),
    {
        if !self.check_mentoring_existence(mentoring_id) {
            return Ok(false);
        }
        if !self.check_student_in_mentoring(mentoring_id, &ctx.signer)? {
            return Ok(false);
        }
        if self.check_study_process_state(mentoring_id, &ctx.signer, study_process_id)? {
            return Ok(false);
        }
        Ok(true)
    }

    /// Callback of the last lesson: the signer's study process is finished,
    /// its last lesson paid, and the student and the mentor each earn the
    /// credits of an easy grade.
    pub fn complete_study_process(&mut self, ctx: &CallContext, mentoring_id: &String, study_process_id: String) -> (r:
        Result<(), ContractError>)
        requires
            old(self).inv(),
        ensures
            final(self).inv(),
            ({
                let ms = old(self).mentoring_metadata_by_mentoring_id@;
                let users = old(self).user_metadata_by_id@;
                let (m, s, p) = (mentoring_id@, ctx.signer@, study_process_id@);
                let sp = study_process_of(ms, m, s, p);
                let owner = ms[m].mentoring_owner@;
                let ok_credit = users.contains_key(s) && users.contains_key(owner) && (if s == owner {
                    users[s].metadata.total_credit + 2 <= u32::MAX
                } else {
                    users[s].metadata.total_credit + 1 <= u32::MAX && users[owner].metadata.total_credit
                        + 1 <= u32::MAX
                });
                &&& r is Ok <==> has_study_process(ms, m, s, p) && sp.total_claim + sp.price_per_lession
                    <= u128::MAX && sp.lession_completed + 1 <= u32::MAX && ok_credit
                &&& r matches Err(e) ==> *final(self) == *old(self) && e == (if !has_study_process(ms, m, s, p) {
                    ContractError::RecordMissing
                } else if sp.total_claim + sp.price_per_lession > u128::MAX || sp.lession_completed
                    + 1 > u32::MAX {
                    ContractError::ArithmeticOverflow
                } else if !users.contains_key(s) || !users.contains_key(owner) {
                    ContractError::NotRegistered
                } else {
                    ContractError::ArithmeticOverflow
                })
                &&& r is Ok ==> {
                    &&& study_process_replaced(
                        ms,
                        final(self).mentoring_metadata_by_mentoring_id@,
                        m,
                        s,
                        p,
                        StudyProcessMetadata {
                            mentoring_completed: true,
                            remaining_amount: 0,
                            total_claim: (sp.total_claim + sp.price_per_lession) as u128,
                            lession_completed: (sp.lession_completed + 1) as u32,
                            ..sp
                        },
                    )
                    &&& exists|mid: Map<Seq<char>, crate::models::JsonUser>| credit_added(users, mid, s, 1)
                        && credit_added(mid, final(self).user_metadata_by_id@, owner, 1)
                    &&& *final(self) == (ELearningContract {
                        mentoring_metadata_by_mentoring_id: final(self).mentoring_metadata_by_mentoring_id,
                        user_metadata_by_id: final(self).user_metadata_by_id,
                        ..*old(self)
                    })
                }
            }),
    {
        let student_id = ctx.signer.clone();
        let sp = match self.find_study_process(mentoring_id, &student_id, &study_process_id) {
            None => {
                return Err(ContractError::RecordMissing);
            },
            Some(sp) => sp,
        };
        if sp.total_claim > u128::MAX - sp.price_per_lession || sp.lession_completed == u32::MAX {
            return Err(ContractError::ArithmeticOverflow);
        }
        let claim = sp.total_claim + sp.price_per_lession;
        let completed = sp.lession_completed + 1;
        let owner_id = self.mentoring_metadata_by_mentoring_id.get(mentoring_id).unwrap().mentoring_owner.clone();
        let student_credit = match self.user_metadata_by_id.get(&student_id) {
            None => {
                return Err(ContractError::NotRegistered);
            },
            Some(u) => u.metadata.total_credit,
        };
        let owner_credit = match self.user_metadata_by_id.get(&owner_id) {
            None => {
                return Err(ContractError::NotRegistered);
            },
            Some(u) => u.metadata.total_credit,
        };
        if student_id == owner_id {
            if student_credit > u32::MAX - 2 {
                return Err(ContractError::ArithmeticOverflow);
            }
        } else if student_credit == u32::MAX || owner_credit == u32::MAX {
            return Err(ContractError::ArithmeticOverflow);
        }
        let ghost old_self = *self;
        let mut new_sp = self.take_study_process(mentoring_id, &student_id, &study_process_id);
        new_sp.mentoring_completed = true;
        new_sp.remaining_amount = 0;
        new_sp.total_claim = claim;
        new_sp.lession_completed = completed;
        self.put_study_process(mentoring_id.clone(), student_id.clone(), study_process_id, new_sp, Ghost(old_self));
        let ghost mid_self = *self;
        let r1 = self.add_credit(student_id, crate::models::CreditType::Easy);
        assert(r1 is Ok);
        let ghost mid_users = self.user_metadata_by_id@;
        let r2 = self.add_credit(owner_id, crate::models::CreditType::Easy);
        assert(r2 is Ok);
        assert(credit_added(old_self.user_metadata_by_id@, mid_users, ctx.signer@, 1));
        Ok(())
    }

    /// Asks the pool contract to register a mentoring the signer creates; the
    /// callback stores it.
    pub fn create_mentoring(
        &self,
        ctx: &CallContext,
        mentoring_title: String,
        price_per_lession: u128,
        description: Option<String>,
    ) -> (r: Result<CrossCall, ContractError>)
        ensures
            ({
                let id = mentoring_id_spec(mentoring_title@, ctx.signer@);
                let registered = self.user_metadata_by_id@.contains_key(ctx.signer@);
                &&& r is Ok <==> registered && !self.mentoring_metadata_by_mentoring_id@.contains_key(id)
                &&& r matches Err(e) ==> e == (if !registered {
                    ContractError::NotRegistered
                } else {
                    ContractError::MentoringExists
                })
                &&& r matches Ok(c) ==> c.pool_address == self.pool_address && (c.call matches PoolCall::AddMentoringId {
                    mentoring_id,
                } && mentoring_id@ == id) && (c.callback matches Callback::StorageMentoring {
                    mentoring_title: t,
                    mentoring_id: i,
                    price_per_lession: pr,
                    description: d,
                } && t == mentoring_title && i@ == id && pr == price_per_lession && d == description)
            }),
    {
        if !self.check_registration(&ctx.signer) {
            return Err(ContractError::NotRegistered);
        }
        let mentoring_id = convert_mentoring_title_to_mentoring_id(mentoring_title.as_str(), ctx.signer.clone());
        if self.check_mentoring_existence(&mentoring_id) {
            return Err(ContractError::MentoringExists);
        }
        Ok(
            CrossCall {
                pool_address: self.pool_address.clone(),
                call: PoolCall::AddMentoringId { mentoring_id: mentoring_id.clone() },
                callback: Callback::StorageMentoring {
                    mentoring_title,
                    mentoring_id,
                    price_per_lession,
                    description,
                },
            },
        )
    }

    /// Records a purchase made through the pool contract. Returns 1 where a
    /// study process was recorded, and 2 where the buyer is not registered,
    /// owns the mentoring, or already has a study process with the same id.
    pub fn buy_mentoring_process(&mut self, ctx: &CallContext, mentoring_id: String, amount: u128) -> (r:
        Result<u128, ContractError>)
        requires
            old(self).inv(),
        ensures
            final(self).inv(),
            ({
                let ms = old(self).mentoring_metadata_by_mentoring_id@;
                let (m, s) = (mentoring_id@, ctx.signer@);
                let p = study_process_id_spec(m, s, ctx.block_timestamp_ms);
                let registered = old(self).user_metadata_by_id@.contains_key(s);
                &&& r matches Err(e) ==> *final(self) == *old(self) && e == (if old(self).pool_address@
                    != ctx.predecessor@ {
                    ContractError::NoPermission
                } else if !ms.contains_key(m) {
                    ContractError::MentoringMissing
                } else {
                    ContractError::InvalidLessonState
                })
                &&& r is Err <==> old(self).pool_address@ != ctx.predecessor@ || (registered && (
                !ms.contains_key(m) || (ms[m].mentoring_owner@ != s && ms[m].price_per_lession == 0)))
                &&& r == Ok::<u128, ContractError>(2) ==> *final(self) == *old(self) && (!registered
                    || ms[m].mentoring_owner@ == s || has_study_process(ms, m, s, p))
                &&& r matches Ok(v) ==> v == 1 || v == 2
                &&& r == Ok::<u128, ContractError>(1) ==> {
                    let nms = final(self).mentoring_metadata_by_mentoring_id@;
                    &&& registered && ms[m].mentoring_owner@ != s && !has_study_process(ms, m, s, p)
                    &&& nms == ms.insert(m, nms[m])
                    &&& nms[m] == (MentoringMetadata { study_process: nms[m].study_process, ..ms[m] })
                    &&& nms[m].study_process@ == ms[m].study_process@.insert(s, nms[m].study_process@[s])
                    &&& nms[m].study_process@[s].study_process_list@ == (if ms[m].study_process@.contains_key(s) {
                        ms[m].study_process@[s].study_process_list@
                    } else {
                        Map::empty()
                    }).insert(p, study_process_of(nms, m, s, p))
                    &&& new_study_process(
                        study_process_of(nms, m, s, p),
                        p,
                        s,
                        ctx.block_timestamp_ms,
                        amount,
                        ms[m].price_per_lession,
                    )
                    &&& *final(self) == (ELearningContract {
                        mentoring_metadata_by_mentoring_id: final(self).mentoring_metadata_by_mentoring_id,
                        ..*old(self)
                    })
                }
            }),
    {
        if self.pool_address != ctx.predecessor {
            return Err(ContractError::NoPermission);
        }
        let student_id = ctx.signer.clone();
        if !self.check_registration(&student_id) {
            return Ok(2);
        }
        match self.mentoring_metadata_by_mentoring_id.get(&mentoring_id) {
            None => {
                return Err(ContractError::MentoringMissing);
            },
            Some(m) => {
                if student_id == m.mentoring_owner {
                    return Ok(2);
                }
            },
        }
        let study_process_id = convert_to_study_process_id(&mentoring_id, &student_id, ctx.block_timestamp_ms);
        if self.internal_add_study_process(ctx, &mentoring_id, &student_id, study_process_id, amount)? {
            Ok(1)
        } else {
            Ok(2)
        }
    }

    /// The signer completes a lesson. Before the last lesson, one lesson's
    /// price moves from the remaining amount to the mentor's claim, which the
    /// pool contract is asked to pay; at the last lesson the pool contract is
    /// asked to pay it and refund the rest.
    pub fn make_lession_completed(&mut self, ctx: &CallContext, mentoring_id: String, study_process_id: String) -> (r:
        Result<CrossCall, ContractError>)
        requires
            old(self).inv(),
        ensures
            final(self).inv(),
            ({
                let ms = old(self).mentoring_metadata_by_mentoring_id@;
                let (m, s, p) = (mentoring_id@, ctx.signer@, study_process_id@);
                let sp = study_process_of(ms, m, s, p);
                let last = sp.lession_completed == sp.total_lession - 1;
                &&& r is Ok <==> has_study_process(ms, m, s, p) && !sp.mentoring_completed
                    && sp.total_lession > 0 && sp.remaining_amount >= sp.price_per_lession && (!last
                    ==> sp.lession_completed + 1 <= u32::MAX)
                &&& r matches Err(e) ==> *final(self) == *old(self) && e == (if !ms.contains_key(m) {
                    ContractError::MentoringMissing
                } else if !ms[m].study_process@.contains_key(s) {
                    ContractError::StudentNotInMentoring
                } else if !ms[m].study_process@[s].study_process_list@.contains_key(p) {
                    ContractError::StudyProcessMissing
                } else if sp.mentoring_completed {
                    ContractError::StudyProcessFinished
                } else if sp.total_lession == 0 {
                    ContractError::InvalidLessonState
                } else {
                    ContractError::ArithmeticOverflow
                })
                &&& r matches Ok(c) ==> if last {
                    &&& *final(self) == *old(self)
                    &&& c.pool_address == old(self).pool_address
                    &&& c.call == (PoolCall::TransferLastLession {
                        receiver: ms[m].mentoring_owner,
                        price_per_lession: sp.price_per_lession,
                        remaining_amout: (sp.remaining_amount - sp.price_per_lession) as u128,
                    })
                    &&& c.callback == (Callback::CompleteStudyProcess {
                        mentoring_id,
                        study_process_id,
                    })
                } else {
                    &&& study_process_replaced(
                        ms,
                        final(self).mentoring_metadata_by_mentoring_id@,
                        m,
                        s,
                        p,
                        StudyProcessMetadata {
                            remaining_amount: (sp.remaining_amount - sp.price_per_lession) as u128,
                            lession_completed: (sp.lession_completed + 1) as u32,
                            ..sp
                        },
                    )
                    &&& *final(self) == (ELearningContract {
                        mentoring_metadata_by_mentoring_id: final(self).mentoring_metadata_by_mentoring_id,
                        ..*old(self)
                    })
                    &&& c.pool_address == old(self).pool_address
                    &&& c.call == (PoolCall::MentoringClaim {
                        receiver: ms[m].mentoring_owner,
                        amount: sp.price_per_lession,
                    })
                    &&& c.callback == (Callback::RemoveClaimInfo {
                        mentoring_id,
                        student_id: ctx.signer,
                        study_process_id,
                    })
                }
            }),
    {
        let student_id = ctx.signer.clone();
        if self.check_study_process_state(&mentoring_id, &student_id, &study_process_id)? {
            return Err(ContractError::StudyProcessFinished);
        }
        if self.check_last_lession(&mentoring_id, &student_id, &study_process_id)? {
            return self.complete_last_lession(ctx, &mentoring_id, &study_process_id);
        }
        let sp = self.find_study_process(&mentoring_id, &student_id, &study_process_id).unwrap();
        if sp.remaining_amount < sp.price_per_lession || sp.lession_completed == u32::MAX {
            return Err(ContractError::ArithmeticOverflow);
        }
        let remaining = sp.remaining_amount - sp.price_per_lession;
        let completed = sp.lession_completed + 1;
        let ghost old_self = *self;
        proof {
            let ms = old_self.mentoring_metadata_by_mentoring_id@;
            let (m, s, p) = (mentoring_id@, student_id@, study_process_id@);
            let sp0 = study_process_of(ms, m, s, p);
            assert(mentoring_balanced(ms[m]));
            assert(ms[m].study_process@[s].study_process_list@.contains_key(p));
            assert(study_process_balanced(sp0));
            assert((sp0.lession_completed + 1) * sp0.price_per_lession == sp0.lession_completed * sp0.price_per_lession
                + sp0.price_per_lession) by (nonlinear_arith);
        }
        let mut new_sp = self.take_study_process(&mentoring_id, &student_id, &study_process_id);
        new_sp.remaining_amount = remaining;
        new_sp.lession_completed = completed;
        self.put_study_process(
            mentoring_id.clone(),
            student_id.clone(),
            study_process_id.clone(),
            new_sp,
            Ghost(old_self),
        );
        let r = self.mentoring_claim(mentoring_id, student_id, study_process_id);
        assert(r is Ok);
        r
    }

    /// The mentoring's owner changes its description or price; given fields
    /// replace the stored ones (the price is taken as given).
    pub fn update_mentoring(
        &mut self,
        ctx: &CallContext,
        mentoring_id: &String,
        price_per_lession: Option<u128>,
        description: Option<String>,
    ) -> (r: Result<(), ContractError>)
        requires
            old(self).inv(),
        ensures
            final(self).inv(),
            ({
                let ms = old(self).mentoring_metadata_by_mentoring_id@;
                let m = mentoring_id@;
                &&& r is Ok <==> ms.contains_key(m) && ms[m].mentoring_owner@ == ctx.signer@
                &&& r matches Err(e) ==> *final(self) == *old(self) && e == (if !ms.contains_key(m) {
                    ContractError::MentoringMissing
                } else {
                    ContractError::NotMentoringOwner
                })
                &&& r is Ok ==> {
                    let nm = final(self).mentoring_metadata_by_mentoring_id@[m];
                    &&& final(self).mentoring_metadata_by_mentoring_id@ == ms.insert(m, nm)
                    &&& nm == (MentoringMetadata {
                        description: if description.is_some() {
                            description
                        } else {
                            ms[m].description
                        },
                        price_per_lession: match price_per_lession {
                            Some(v) => v,
                            None => ms[m].price_per_lession,
                        },
                        ..ms[m]
                    })
                    &&& *final(self) == (ELearningContract {
                        mentoring_metadata_by_mentoring_id: final(self).mentoring_metadata_by_mentoring_id,
                        ..*old(self)
                    })
                }
            }),
    {
        if !self.check_mentoring_existence(mentoring_id) {
            return Err(ContractError::MentoringMissing);
        }
        if !self.check_mentoring_owner(mentoring_id, &ctx.signer)? {
            return Err(ContractError::NotMentoringOwner);
        }
        let ghost old_self = *self;
        let mut mentoring = self.mentoring_metadata_by_mentoring_id.remove(mentoring_id).unwrap();
        if let Some(f) = description {
            mentoring.description = Some(f);
        }
        if let Some(l) = price_per_lession {
            mentoring.price_per_lession = l;
        }
        self.mentoring_metadata_by_mentoring_id.insert(mentoring_id.clone(), mentoring);
        proof {
            assert(self.mentoring_metadata_by_mentoring_id@ =~= old_self.mentoring_metadata_by_mentoring_id@.insert(
                mentoring_id@,
                self.mentoring_metadata_by_mentoring_id@[mentoring_id@],
            ));
            Self::lemma_mentorings_replaced(&old_self, self, mentoring_id@);
        }
        Ok(())
    }

    /// The signer withdraws what remains of a study process: the pool contract
    /// is asked to refund it; the callback ends the study process.
    pub fn mentoring_withdraw(&self, ctx: &CallContext, mentoring_id: String, study_process_id: String) -> (r:
        Result<CrossCall, ContractError>)
        ensures
            ({
                let ms = self.mentoring_metadata_by_mentoring_id@;
                let (m, s, p) = (mentoring_id@, ctx.signer@, study_process_id@);
                let listed = ms.contains_key(m) && ms[m].study_process@.contains_key(s);
                &&& r is Ok <==> has_study_process(ms, m, s, p) && !study_process_of(
                    ms,
                    m,
                    s,
                    p,
                ).mentoring_completed
                &&& r matches Err(e) ==> e == (if listed && !has_study_process(ms, m, s, p) {
                    ContractError::StudyProcessMissing
                } else {
                    ContractError::WithdrawNotAllowed
                })
                &&& r matches Ok(c) ==> c.pool_address == self.pool_address && c.call == (PoolCall::MentoringWithdraw {
                    amount: study_process_of(ms, m, s, p).remaining_amount,
                }) && c.callback == (Callback::MakeStudyProcessEnd { mentoring_id, study_process_id })
            }),
    {
        if !self.check_mentoring_withdraw_availability(ctx, &mentoring_id, &study_process_id)? {
            return Err(ContractError::WithdrawNotAllowed);
        }
        let amount = self.find_study_process(&mentoring_id, &ctx.signer, &study_process_id).unwrap().remaining_amount;
        Ok(
            CrossCall {
                pool_address: self.pool_address.clone(),
                call: PoolCall::MentoringWithdraw { amount },
                callback: Callback::MakeStudyProcessEnd { mentoring_id, study_process_id },
            },
        )
    }

    /// The mentorings on one page (default 20 per page).
    pub fn get_all_mentoring_metadata(&self, start: Option<u32>, limit: Option<u32>) -> (r: Vec<
        &MentoringMetadata,
    >)
        requires
            self.inv(),
        ensures
            ({
                let ids = page_of(self.all_mentoring_id@, start_or_zero(start), limit_or(limit, 20));
                &&& r@.len() == ids.len()
                &&& forall|i: int| 0 <= i < ids.len() ==> *r@[i]
                    == self.mentoring_metadata_by_mentoring_id@[ids[i]]
            }),
    {
        let set = &self.all_mentoring_id;
        let (first, end) = page_bounds(set.len(), start, limit, 20);
        let ghost ids = page_of(set@, start_or_zero(start), limit_or(limit, 20));
        let mut r: Vec<&MentoringMetadata> = Vec::new();
        let mut i = first;
        while i < end
            invariant
                first <= i <= end <= set@.len(),
                ids.len() == end - first,
                forall|j: int| 0 <= j < ids.len() ==> ids[j] == set@[first + j],
                all_keyed(set@, self.mentoring_metadata_by_mentoring_id@),
                r@.len() == i - first,
                forall|j: int| 0 <= j < i - first ==> *r@[j] == self.mentoring_metadata_by_mentoring_id@[ids[j]],
            decreases end - i,
        {
            let id = set.get(i);
            assert(self.mentoring_metadata_by_mentoring_id@.contains_key(set@[i as int]));
            r.push(self.mentoring_metadata_by_mentoring_id.get(id).unwrap());
            i = i + 1;
        }
        r
    }

    /// The mentoring's record, if any.
    pub fn get_mentoring_metadata_by_mentoring_id(&self, mentoring_id: &String) -> (r: Option<&MentoringMetadata>)
        ensures
            match r {
                Some(m) => self.mentoring_metadata_by_mentoring_id@.contains_key(mentoring_id@) && *m
                    == self.mentoring_metadata_by_mentoring_id@[mentoring_id@],
                None => !self.mentoring_metadata_by_mentoring_id@.contains_key(mentoring_id@),
            },
    {
        self.mentoring_metadata_by_mentoring_id.get(mentoring_id)
    }
}

} // verus!
