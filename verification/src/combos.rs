//! Combos: bundles of courses whose owners each enable their course; a combo
//! becomes active when its last course is enabled.
use vstd::prelude::*;

use crate::collections::{has_view, views_of};
use crate::context::{CallContext, ContractError};
use crate::elearning::{all_keyed, combo_has_course, combo_sound, limit_or, page_bounds, page_of, start_or_zero, ELearningContract};
use crate::models::{ComboMetadata, ComboState, WrapCombo};
use crate::repository::{combo_id_spec, convert_combo_title_to_combo_id};

verus! {

/// Every course of the combo is listed.
pub open spec fn courses_listed(courses: Seq<WrapCombo>, listed: Seq<Seq<char>>) -> bool {
    forall|i: int| 0 <= i < courses.len() ==> listed.contains(#[trigger] courses[i].course_id@)
}

/// A course of a sound combo that is not enabled yet leaves room for one
/// more enabled course.
proof fn lemma_one_more_enabled_fits(c: ComboMetadata, id: Seq<char>)
    requires
        combo_sound(c),
        combo_has_course(c.courses@, id),
        !has_view(c.enable_course@, id),
    ensures
        c.enable_course@.len() + 1 <= c.courses@.len(),
        !views_of(c.enable_course@).contains(id),
{
    let ev = views_of(c.enable_course@);
    assert(!ev.contains(id)) by {
        if ev.contains(id) {
            let t = choose|t: int| 0 <= t < ev.len() && ev[t] == id;
            assert(c.enable_course@[t]@ == id);
        }
    }
    let e = ev.push(id);
    let ids = c.courses@.map_values(|w: WrapCombo| w.course_id@);
    assert(e.no_duplicates()) by {
        assert forall|i: int, j: int| 0 <= i < e.len() && 0 <= j < e.len() && i != j implies e[i] != e[j] by {
            if i < ev.len() && j < ev.len() {
            } else if i == ev.len() {
                assert(ev.contains(ev[j]));
            } else {
                assert(ev.contains(ev[i]));
            }
        }
    }
    e.unique_seq_to_set();
    ids.lemma_cardinality_of_set();
    vstd::seq_lib::seq_to_set_is_finite(ids);
    assert(e.to_set().subset_of(ids.to_set())) by {
        assert forall|x: Seq<char>| e.to_set().contains(x) implies ids.to_set().contains(x) by {
            assert(e.contains(x));
            let t = choose|t: int| 0 <= t < e.len() && e[t] == x;
            let name = if t < ev.len() {
                assert(combo_has_course(c.courses@, c.enable_course@[t]@));
                c.enable_course@[t]@
            } else {
                id
            };
            assert(name == x);
            let j = choose|j: int| 0 <= j < c.courses@.len() && #[trigger] c.courses@[j].course_id@ == x;
            assert(ids[j] == x);
            assert(ids.contains(x));
        }
    }
    vstd::set_lib::lemma_len_subset(e.to_set(), ids.to_set());
}

impl ELearningContract {
    /// A registered user (the signer) creates a combo of listed courses; it
    /// starts deactivated with no course enabled.
    pub fn create_combo(
        &mut self,
        ctx: &CallContext,
        combo_title: String,
        courses: Vec<WrapCombo>,
        description: Option<String>,
        media: Option<String>,
    ) -> (r: Result<(), ContractError>)
        requires
            old(self).inv(),
        ensures
            final(self).inv(),
            ({
                let id = combo_id_spec(combo_title@);
                let registered = old(self).user_metadata_by_id@.contains_key(ctx.signer@);
                let listed = courses_listed(courses@, old(self).all_course_id@);
                let exists = old(self).combo_metadata_by_combo_id@.contains_key(id);
                &&& r is Ok <==> registered && listed && !exists
                &&& r matches Err(e) ==> *final(self) == *old(self) && e == (if !registered {
                    ContractError::NotRegistered
                } else if !listed {
                    ContractError::CourseMissing
                } else {
                    ContractError::ComboExists
                })
                &&& r is Ok ==> {
                    let nc = final(self).combo_metadata_by_combo_id@[id];
                    &&& final(self).combo_metadata_by_combo_id@ == old(self).combo_metadata_by_combo_id@.insert(id, nc)
                    &&& nc.combo_id@ == id && nc.combo_state == ComboState::DEACTIVED
                    &&& nc.enable_course@.len() == 0 && nc.courses == courses
                    &&& nc.description == description && nc.media == media
                    &&& final(self).all_combo_id@ == (if old(self).all_combo_id@.contains(id) {
                        old(self).all_combo_id@
                    } else {
                        old(self).all_combo_id@.push(id)
                    })
                    &&& *final(self) == (ELearningContract {
                        combo_metadata_by_combo_id: final(self).combo_metadata_by_combo_id,
                        all_combo_id: final(self).all_combo_id,
                        ..*old(self)
                    })
                }
            }),
    {
        if !self.check_registration(&ctx.signer) {
            return Err(ContractError::NotRegistered);
        }
        let mut i: usize = 0;
        while i < courses.len()
            invariant
                i <= courses.len(),
                *self == *old(self),
                self.inv(),
                self.user_metadata_by_id@.contains_key(ctx.signer@),
                forall|j: int| 0 <= j < i ==> self.all_course_id@.contains(#[trigger] courses@[j].course_id@),
            decreases courses.len() - i,
        {
            if !self.check_course_existence(&courses[i].course_id) {
                return Err(ContractError::CourseMissing);
            }
            i = i + 1;
        }
        let combo_id = convert_combo_title_to_combo_id(combo_title.as_str());
        if self.check_combo_existence(&combo_id) {
            return Err(ContractError::ComboExists);
        }
        let new_combo = ComboMetadata {
            combo_id: combo_id.clone(),
            combo_state: ComboState::DEACTIVED,
            enable_course: Vec::new(),
            courses,
            description,
            media,
        };
        let ghost s0 = *self;
        self.all_combo_id.insert(combo_id.clone());
        self.combo_metadata_by_combo_id.insert(combo_id, new_combo);
        proof {
            assert forall|i: int| 0 <= i < self.all_combo_id@.len() implies self.combo_metadata_by_combo_id@.contains_key(
            #[trigger] self.all_combo_id@[i]) by {
                if i < s0.all_combo_id@.len() {
                    assert(self.all_combo_id@[i] == s0.all_combo_id@[i]);
                    assert(s0.combo_metadata_by_combo_id@.contains_key(s0.all_combo_id@[i]));
                }
            }
        }
        Ok(())
    }

    /// A course's owner (the signer) enables their course in a combo; the
    /// combo becomes active when this is the last course left to enable.
    pub fn enable_course(&mut self, ctx: &CallContext, combo_id: String, course_id: String) -> (r: Result<
        (),
        ContractError,
    >)
        requires
            old(self).inv(),
        ensures
            final(self).inv(),
            ({
                let combos = old(self).combo_metadata_by_combo_id@;
                let courses = old(self).course_metadata_by_id@;
                let (b, c, s) = (combo_id@, course_id@, ctx.signer@);
                let combo = combos[b];
                let registered = old(self).user_metadata_by_id@.contains_key(s);
                let enabled = has_view(combo.enable_course@, c);
                &&& r is Ok <==> registered && combos.contains_key(b) && combo_has_course(combo.courses@, c)
                    && courses.contains_key(c) && courses[c].instructor_id@.contains_key(s) && !enabled
                &&& r matches Err(e) ==> *final(self) == *old(self) && e == (if !registered {
                    ContractError::NotRegistered
                } else if !combos.contains_key(b) {
                    ContractError::ComboMissing
                } else if !combo_has_course(combo.courses@, c) {
                    ContractError::CourseNotInCombo
                } else if !courses.contains_key(c) {
                    ContractError::CourseMissing
                } else if !courses[c].instructor_id@.contains_key(s) {
                    ContractError::NotCourseOwner
                } else {
                    ContractError::CourseAlreadyEnabled
                })
                &&& r is Ok ==> {
                    let nb = final(self).combo_metadata_by_combo_id@[b];
                    &&& final(self).combo_metadata_by_combo_id@ == combos.insert(b, nb)
                    &&& nb == (ComboMetadata {
                        enable_course: nb.enable_course,
                        combo_state: if combo.courses@.len() - combo.enable_course@.len() == 1 {
                            ComboState::ACTIVE
                        } else {
                            combo.combo_state
                        },
                        ..combo
                    })
                    &&& nb.enable_course@ == combo.enable_course@.push(course_id)
                    &&& *final(self) == (ELearningContract {
                        combo_metadata_by_combo_id: final(self).combo_metadata_by_combo_id,
                        ..*old(self)
                    })
                }
            }),
    {
        if !self.check_registration(&ctx.signer) {
            return Err(ContractError::NotRegistered);
        }
        if !self.check_combo_existence(&combo_id) {
            return Err(ContractError::ComboMissing);
        }
        if !self.check_course_in_combo(&combo_id, &course_id) {
            return Err(ContractError::CourseNotInCombo);
        }
        if !self.course_metadata_by_id.contains_key(&course_id) {
            return Err(ContractError::CourseMissing);
        }
        if !self.check_course_owner(&course_id, &ctx.signer) {
            return Err(ContractError::NotCourseOwner);
        }
        let combo_ref = self.combo_metadata_by_combo_id.get(&combo_id).unwrap();
        if crate::collections::contains_string(&combo_ref.enable_course, &course_id) {
            return Err(ContractError::CourseAlreadyEnabled);
        }
        let ghost s0 = *self;
        proof {
            let combo0 = s0.combo_metadata_by_combo_id@[combo_id@];
            assert(combo_sound(combo0));
            lemma_one_more_enabled_fits(combo0, course_id@);
        }
        let mut combo_info = self.combo_metadata_by_combo_id.remove(&combo_id).unwrap();
        if combo_info.courses.len() - combo_info.enable_course.len() == 1 {
            combo_info.combo_state = ComboState::ACTIVE;
        }
        combo_info.enable_course.push(course_id);
        self.combo_metadata_by_combo_id.insert(combo_id.clone(), combo_info);
        proof {
            assert(self.combo_metadata_by_combo_id@ =~= s0.combo_metadata_by_combo_id@.insert(
                combo_id@,
                self.combo_metadata_by_combo_id@[combo_id@],
            ));
            assert forall|i: int| 0 <= i < self.all_combo_id@.len() implies self.combo_metadata_by_combo_id@.contains_key(
            #[trigger] self.all_combo_id@[i]) by {
                assert(s0.combo_metadata_by_combo_id@.contains_key(s0.all_combo_id@[i]));
            }
            let combo0 = s0.combo_metadata_by_combo_id@[combo_id@];
            let nb = self.combo_metadata_by_combo_id@[combo_id@];
            assert(views_of(nb.enable_course@) =~= views_of(combo0.enable_course@).push(course_id@));
            assert(combo_sound(nb)) by {
                assert forall|i: int| 0 <= i < nb.enable_course@.len() implies combo_has_course(
                    nb.courses@,
                    #[trigger] nb.enable_course@[i]@,
                ) by {
                    if i < combo0.enable_course@.len() {
                        assert(nb.enable_course@[i] == combo0.enable_course@[i]);
                    }
                }
            }
            assert forall|q: Seq<char>| #[trigger] self.combo_metadata_by_combo_id@.contains_key(q) implies combo_sound(
                self.combo_metadata_by_combo_id@[q],
            ) by {
                if q != combo_id@ {
                    assert(s0.combo_metadata_by_combo_id@.contains_key(q));
                }
            }
        }
        Ok(())
    }

    /// The combos on one page (default 20 per page).
    pub fn get_all_combo_metadata(&self, start: Option<u32>, limit: Option<u32>) -> (r: Vec<&ComboMetadata>)
        requires
            self.inv(),
        ensures
            ({
                let ids = page_of(self.all_combo_id@, start_or_zero(start), limit_or(limit, 20));
                &&& r@.len() == ids.len()
                &&& forall|i: int| 0 <= i < ids.len() ==> *r@[i] == self.combo_metadata_by_combo_id@[ids[i]]
            }),
    {
        let set = &self.all_combo_id;
        let (first, end) = page_bounds(set.len(), start, limit, 20);
        let ghost ids = page_of(set@, start_or_zero(start), limit_or(limit, 20));
        let mut r: Vec<&ComboMetadata> = Vec::new();
        let mut i = first;
        while i < end
            invariant
                first <= i <= end <= set@.len(),
                ids.len() == end - first,
                forall|j: int| 0 <= j < ids.len() ==> ids[j] == set@[first + j],
                all_keyed(set@, self.combo_metadata_by_combo_id@),
                r@.len() == i - first,
                forall|j: int| 0 <= j < i - first ==> *r@[j] == self.combo_metadata_by_combo_id@[ids[j]],
            decreases end - i,
        {
            let id = set.get(i);
            assert(self.combo_metadata_by_combo_id@.contains_key(set@[i as int]));
            r.push(self.combo_metadata_by_combo_id.get(id).unwrap());
            i = i + 1;
        }
        r
    }

    /// The combo's record, if any.
    pub fn get_combometadata_by_combo_id(&self, combo_id: &String) -> (r: Option<&ComboMetadata>)
        ensures
            match r {
                Some(c) => self.combo_metadata_by_combo_id@.contains_key(combo_id@) && *c
                    == self.combo_metadata_by_combo_id@[combo_id@],
                None => !self.combo_metadata_by_combo_id@.contains_key(combo_id@),
            },
    {
        self.combo_metadata_by_combo_id.get(combo_id)
    }
}

} // verus!
