//! Co-owned courses: instructors own units of a course, agree (by consensus)
//! to let a new instructor in or an instructor out, and transfer units.
use vstd::prelude::*;

use crate::collections::{views_of, StrMap};
use crate::context::{CallContext, ContractError};
use crate::elearning::ELearningContract;
use crate::models::{same_course, CourseMetadata};
use crate::shares::{
    lemma_add_instructor_total, lemma_map_total_le, lemma_map_total_one, lemma_map_total_two, lemma_remove_instructor_total,
    lemma_str_map_finite, lemma_sum_of_values_is_total, map_total, transfer_unit_keeps_units,
};

verus! {

/// Sum of the values of `m` at the keys `ks`.
pub open spec fn sum_at(m: Map<Seq<char>, u32>, ks: Seq<Seq<char>>) -> int
    decreases ks.len(),
{
    if ks.len() == 0 {
        0
    } else {
        sum_at(m, ks.drop_last()) + m[ks.last()]
    }
}

/// Sum of all the values of a map.
pub open spec fn sum_of_values(m: StrMap<u32>) -> int {
    sum_at(m@, m.key_order())
}

/// Smallest number of agreeing instructors out of `n` that makes a consensus:
/// two thirds, rounded up.
pub open spec fn consensus_threshold(n: nat) -> nat {
    ((2 * n + 2) / 3) as nat
}

/// The threshold is two thirds of the instructors, rounded up: the least
/// count that is at least two thirds of them.
pub proof fn consensus_threshold_is_two_thirds(n: nat)
    ensures
        3 * consensus_threshold(n) >= 2 * n,
        consensus_threshold(n) == 0 || 3 * (consensus_threshold(n) - 1) < 2 * n,
{
}

/// Whether the course's instructors agree: a sole instructor always does;
/// otherwise at least two thirds of them must have agreed.
pub open spec fn has_consensus(c: CourseMetadata) -> bool {
    c.instructor_id@.len() == 1 || c.consensus@.len() >= consensus_threshold(c.instructor_id@.len())
}

/// A course has a consensus exactly when it has a sole instructor or at
/// least two thirds of its instructors have agreed.
pub proof fn consensus_is_two_thirds_agreeing(c: CourseMetadata)
    ensures
        has_consensus(c) <==> c.instructor_id@.len() == 1 || 3 * c.consensus@.len() >= 2 * c.instructor_id@.len(),
{
    consensus_threshold_is_two_thirds(c.instructor_id@.len());
}

/// The units after `add_instructor`: the new instructor gets the agreed
/// units, and each agreeing instructor gives up what they agreed to.
pub open spec fn units_after_add(
    units: Map<Seq<char>, u32>,
    cons: Map<Seq<char>, u32>,
    new: Seq<char>,
    sum: int,
) -> Map<Seq<char>, u32> {
    Map::new(
        |k: Seq<char>| units.contains_key(k) || k == new,
        |k: Seq<char>|
            if cons.contains_key(k) {
                ((if k == new {
                    sum
                } else {
                    units[k] as int
                }) - cons[k]) as u32
            } else if k == new {
                sum as u32
            } else {
                units[k]
            },
    )
}

/// The units after `remove_instructor`: each agreeing instructor gets back
/// what they agreed to, and the removed instructor is gone.
pub open spec fn units_after_remove(
    units: Map<Seq<char>, u32>,
    cons: Map<Seq<char>, u32>,
    gone: Seq<char>,
) -> Map<Seq<char>, u32> {
    Map::new(
        |k: Seq<char>| units.contains_key(k) && k != gone,
        |k: Seq<char>|
            if cons.contains_key(k) {
                (units[k] + cons[k]) as u32
            } else {
                units[k]
            },
    )
}

/// Sums the values of a map, or says that the sum leaves `u32`.
fn sum_values(m: &StrMap<u32>) -> (r: Option<u32>)
    ensures
        match r {
            Some(v) => v == sum_of_values(*m),
            None => sum_of_values(*m) > u32::MAX,
        },
{
    let keys = m.keys();
    let ghost ks = m.key_order();
    let mut total: u32 = 0;
    let mut i: usize = 0;
    while i < keys.len()
        invariant
            i <= keys.len(),
            views_of(keys@) == ks,
            ks == m.key_order(),
            forall|q: Seq<char>| m@.contains_key(q) <==> #[trigger] ks.contains(q),
            total == sum_at(m@, ks.take(i as int)),
        decreases keys.len() - i,
    {
        assert(ks.take(i + 1).drop_last() =~= ks.take(i as int));
        assert(ks[i as int] == keys@[i as int]@);
        assert(ks.contains(ks[i as int]));
        let v = *m.get(&keys[i]).unwrap();
        if total > u32::MAX - v {
            proof {
                lemma_sum_grows(m@, ks, i + 1);
            }
            return None;
        }
        total = total + v;
        i = i + 1;
    }
    assert(ks.take(keys.len() as int) =~= ks);
    Some(total)
}

/// Sums over longer prefixes are no smaller.
proof fn lemma_sum_grows(m: Map<Seq<char>, u32>, ks: Seq<Seq<char>>, i: int)
    requires
        0 <= i <= ks.len(),
    ensures
        sum_at(m, ks) >= sum_at(m, ks.take(i)),
    decreases ks.len() - i,
{
    if i < ks.len() {
        assert(ks.take(i + 1).drop_last() =~= ks.take(i));
        lemma_sum_grows(m, ks, i + 1);
    } else {
        assert(ks.take(i) =~= ks);
    }
}


/// Checks, key by key in `keys` (the keys of `cons`), that each agreeing
/// instructor is an instructor (or the newcomer `n`, who would hold `extra`)
/// and that `ok` holds of what they have and what they agreed.
fn check_agreed_units(
    units: &StrMap<u32>,
    cons: &StrMap<u32>,
    n: &String,
    extra: Option<u32>,
    giving: bool,
) -> (r: Result<(), ContractError>)
    ensures
        r is Ok <==> (forall|k: Seq<char>| #[trigger] cons@.contains_key(k) ==> agreed_fits(
            units@,
            cons@,
            n@,
            extra,
            giving,
            k,
        )),
        r == match first_agreed_error(units@, cons@, n@, extra, giving, cons.key_order()) {
            None => Ok::<(), ContractError>(()),
            Some(e) => Err(e),
        },
{
    let keys = cons.keys();
    let ghost ks = cons.key_order();
    let mut i: usize = 0;
    while i < keys.len()
        invariant
            i <= keys.len(),
            views_of(keys@) == ks,
            ks == cons.key_order(),
            forall|q: Seq<char>| cons@.contains_key(q) <==> #[trigger] ks.contains(q),
            forall|j: int| 0 <= j < i ==> agreed_fits(units@, cons@, n@, extra, giving, #[trigger] ks[j]),
            first_agreed_error(units@, cons@, n@, extra, giving, ks.take(i as int)) is None,
        decreases keys.len() - i,
    {
        let k = &keys[i];
        assert(ks[i as int] == k@);
        assert(ks.contains(k@));
        assert(ks.take(i + 1).drop_last() =~= ks.take(i as int));
        assert(ks.take(i + 1).last() == k@);
        let agreed = *cons.get(k).unwrap();
        let have: u32 = match extra {
            Some(x) if *k == *n => x,
            _ => match units.get(k) {
                None => {
                    proof {
                        lemma_first_agreed_error_prefix(units@, cons@, n@, extra, giving, ks, i + 1);
                    }
                    return Err(ContractError::RecordMissing);
                },
                Some(v) => *v,
            },
        };
        if giving {
            if have < agreed {
                proof {
                    lemma_first_agreed_error_prefix(units@, cons@, n@, extra, giving, ks, i + 1);
                }
                return Err(ContractError::ArithmeticOverflow);
            }
        } else {
            if have > u32::MAX - agreed {
                proof {
                    lemma_first_agreed_error_prefix(units@, cons@, n@, extra, giving, ks, i + 1);
                }
                return Err(ContractError::ArithmeticOverflow);
            }
        }
        assert(agreed_fits(units@, cons@, n@, extra, giving, ks[i as int]));
        i = i + 1;
    }
    proof {
        assert forall|k: Seq<char>| #[trigger] cons@.contains_key(k) implies agreed_fits(
            units@,
            cons@,
            n@,
            extra,
            giving,
            k,
        ) by {
            assert(ks.contains(k));
            let j = choose|j: int| 0 <= j < ks.len() && ks[j] == k;
        }
        assert(ks.take(keys.len() as int) =~= ks);
    }
    Ok(())
}

/// Why agreeing instructor `k` cannot give up (or get back) what they agreed,
/// if they cannot: they hold no units, or the amount leaves `u32`.
pub open spec fn agreed_error(
    units: Map<Seq<char>, u32>,
    cons: Map<Seq<char>, u32>,
    n: Seq<char>,
    extra: Option<u32>,
    giving: bool,
    k: Seq<char>,
) -> Option<ContractError> {
    if !(units.contains_key(k) || (extra is Some && k == n)) {
        Some(ContractError::RecordMissing)
    } else if !agreed_fits(units, cons, n, extra, giving, k) {
        Some(ContractError::ArithmeticOverflow)
    } else {
        None
    }
}

/// The first refusal among the agreeing instructors `ks`, in order.
pub open spec fn first_agreed_error(
    units: Map<Seq<char>, u32>,
    cons: Map<Seq<char>, u32>,
    n: Seq<char>,
    extra: Option<u32>,
    giving: bool,
    ks: Seq<Seq<char>>,
) -> Option<ContractError>
    decreases ks.len(),
{
    if ks.len() == 0 {
        None
    } else {
        match first_agreed_error(units, cons, n, extra, giving, ks.drop_last()) {
            Some(e) => Some(e),
            None => agreed_error(units, cons, n, extra, giving, ks.last()),
        }
    }
}

/// Once an agreeing instructor is refused, so is the whole list.
proof fn lemma_first_agreed_error_prefix(
    units: Map<Seq<char>, u32>,
    cons: Map<Seq<char>, u32>,
    n: Seq<char>,
    extra: Option<u32>,
    giving: bool,
    ks: Seq<Seq<char>>,
    j: int,
)
    requires
        0 <= j <= ks.len(),
        first_agreed_error(units, cons, n, extra, giving, ks.take(j)) is Some,
    ensures
        first_agreed_error(units, cons, n, extra, giving, ks) == first_agreed_error(units, cons, n, extra, giving, ks.take(j)),
    decreases ks.len(),
{
    if j == ks.len() {
        assert(ks.take(j) =~= ks);
    } else {
        assert(ks.drop_last().take(j) =~= ks.take(j));
        lemma_first_agreed_error_prefix(units, cons, n, extra, giving, ks.drop_last(), j);
    }
}

/// What an agreeing instructor `k` holds: the newcomer holds `extra` (where
/// given), anyone else their units.
pub open spec fn held_units(units: Map<Seq<char>, u32>, n: Seq<char>, extra: Option<u32>, k: Seq<char>) -> int {
    match extra {
        Some(x) if k == n => x as int,
        _ => units[k] as int,
    }
}

/// Agreeing instructor `k` holds units, and giving up (or getting back) what
/// they agreed stays within `u32`.
pub open spec fn agreed_fits(
    units: Map<Seq<char>, u32>,
    cons: Map<Seq<char>, u32>,
    n: Seq<char>,
    extra: Option<u32>,
    giving: bool,
    k: Seq<char>,
) -> bool {
    &&& (units.contains_key(k) || (extra is Some && k == n))
    &&& if giving {
        held_units(units, n, extra, k) >= cons[k]
    } else {
        held_units(units, n, extra, k) + cons[k] <= u32::MAX
    }
}

impl ELearningContract {
    /// Whether the course's instructors agree (see `has_consensus`).
    pub fn check_consensus(&self, course_id: &String) -> (r: Result<bool, ContractError>)
        ensures
            match r {
                Ok(b) => self.course_metadata_by_id@.contains_key(course_id@) && b == has_consensus(
                    self.course_metadata_by_id@[course_id@],
                ),
                Err(e) => !self.course_metadata_by_id@.contains_key(course_id@) && e
                    == ContractError::CourseMissing,
            },
    {
        let course = match self.course_metadata_by_id.get(course_id) {
            None => {
                return Err(ContractError::CourseMissing);
            },
            Some(c) => c,
        };
        let n = course.instructor_id.len();
        if n == 1 {
            return Ok(true);
        }
        let agreed = course.consensus.len();
        let round = n - n / 3;
        assert((2 * (n as int) + 2) / 3 == (n as int) - (n as int) / 3) by (nonlinear_arith);
        Ok(agreed >= round)
    }

    /// An instructor of the course (the signer) agrees to give up `amount` of
    /// their units.
    pub fn agree_consensus(&mut self, ctx: &CallContext, course_id: String, amount: u32) -> (r: Result<
        (),
        ContractError,
    >)
        requires
            old(self).inv(),
        ensures
            final(self).inv(),
            ({
                let courses = old(self).course_metadata_by_id@;
                let (c, s) = (course_id@, ctx.signer@);
                let course = courses[c];
                &&& r is Ok <==> courses.contains_key(c) && course.instructor_id@.contains_key(s)
                    && !course.consensus@.contains_key(s) && course.instructor_id@[s] >= amount
                &&& r matches Err(e) ==> *final(self) == *old(self) && e == (if !courses.contains_key(c) {
                    ContractError::CourseMissing
                } else if !course.instructor_id@.contains_key(s) {
                    ContractError::NotCourseMember
                } else if course.consensus@.contains_key(s) {
                    ContractError::AlreadyAgreed
                } else {
                    ContractError::NotEnoughUnit
                })
                &&& r is Ok ==> {
                    let nc = final(self).course_metadata_by_id@[c];
                    &&& final(self).course_metadata_by_id@ == courses.insert(c, nc)
                    &&& nc == (CourseMetadata { consensus: nc.consensus, ..course })
                    &&& nc.consensus@ == course.consensus@.insert(s, amount)
                    &&& *final(self) == (ELearningContract {
                        course_metadata_by_id: final(self).course_metadata_by_id,
                        ..*old(self)
                    })
                }
            }),
    {
        match self.course_metadata_by_id.get(&course_id) {
            None => {
                return Err(ContractError::CourseMissing);
            },
            Some(course) => {
                if !self.internal_check_instructor_member(&ctx.signer, course) {
                    return Err(ContractError::NotCourseMember);
                }
                if !self.internal_check_consensus_member(&ctx.signer, course) {
                    return Err(ContractError::AlreadyAgreed);
                }
                if !self.internal_check_enough_unit(&ctx.signer, course, &amount) {
                    return Err(ContractError::NotEnoughUnit);
                }
            },
        }
        self.set_consensus(ctx, course_id, amount);
        Ok(())
    }

    fn set_consensus(&mut self, ctx: &CallContext, course_id: String, amount: u32)
        requires
            old(self).inv(),
            old(self).course_metadata_by_id@.contains_key(course_id@),
        ensures
            final(self).inv(),
            ({
                let courses = old(self).course_metadata_by_id@;
                let course = courses[course_id@];
                let nc = final(self).course_metadata_by_id@[course_id@];
                &&& final(self).course_metadata_by_id@ == courses.insert(course_id@, nc)
                &&& nc == (CourseMetadata { consensus: nc.consensus, ..course })
                &&& nc.consensus@ == course.consensus@.insert(ctx.signer@, amount)
                &&& *final(self) == (ELearningContract {
                    course_metadata_by_id: final(self).course_metadata_by_id,
                    ..*old(self)
                })
            }),
    {
        let ghost s0 = *self;
        let mut course = self.course_metadata_by_id.remove(&course_id).unwrap();
        course.consensus.insert(ctx.signer.clone(), amount);
        self.course_metadata_by_id.insert(course_id.clone(), course);
        proof {
            assert(self.course_metadata_by_id@ =~= s0.course_metadata_by_id@.insert(
                course_id@,
                self.course_metadata_by_id@[course_id@],
            ));
            self.lemma_course_replaced(&s0, course_id@);
        }
    }

    /// An instructor who has agreed (the signer) changes the units they give up.
    pub fn update_consensus(&mut self, ctx: &CallContext, course_id: String, amount: u32) -> (r: Result<
        (),
        ContractError,
    >)
        requires
            old(self).inv(),
        ensures
            final(self).inv(),
            ({
                let courses = old(self).course_metadata_by_id@;
                let (c, s) = (course_id@, ctx.signer@);
                let course = courses[c];
                &&& r is Ok <==> courses.contains_key(c) && course.instructor_id@.contains_key(s)
                    && course.consensus@.contains_key(s)
                &&& r matches Err(e) ==> *final(self) == *old(self) && e == (if !courses.contains_key(c) {
                    ContractError::CourseMissing
                } else if !course.instructor_id@.contains_key(s) {
                    ContractError::NotCourseMember
                } else {
                    ContractError::NotAgreed
                })
                &&& r is Ok ==> {
                    let nc = final(self).course_metadata_by_id@[c];
                    &&& final(self).course_metadata_by_id@ == courses.insert(c, nc)
                    &&& nc == (CourseMetadata { consensus: nc.consensus, ..course })
                    &&& nc.consensus@ == course.consensus@.insert(s, amount)
                    &&& *final(self) == (ELearningContract {
                        course_metadata_by_id: final(self).course_metadata_by_id,
                        ..*old(self)
                    })
                }
            }),
    {
        match self.course_metadata_by_id.get(&course_id) {
            None => {
                return Err(ContractError::CourseMissing);
            },
            Some(course) => {
                if !self.internal_check_instructor_member(&ctx.signer, course) {
                    return Err(ContractError::NotCourseMember);
                }
                if self.internal_check_consensus_member(&ctx.signer, course) {
                    return Err(ContractError::NotAgreed);
                }
            },
        }
        self.set_consensus(ctx, course_id, amount);
        Ok(())
    }

    /// With a consensus, a new instructor joins the course: they get the sum
    /// of the agreed units, each agreeing instructor gives up what they agreed
    /// to, and the consensus is cleared.
    pub fn add_instructor(&mut self, course_id: String, new_instructor: String) -> (r: Result<
        (),
        ContractError,
    >)
        requires
            old(self).inv(),
        ensures
            final(self).inv(),
            ({
                let courses = old(self).course_metadata_by_id@;
                let c = course_id@;
                let course = courses[c];
                let n = new_instructor@;
                let units = course.instructor_id@;
                let cons = course.consensus@;
                let sum = sum_of_values(course.consensus);
                let fits = forall|k: Seq<char>| #[trigger] cons.contains_key(k) ==> (
                units.contains_key(k) || k == n) && (if k == n {
                    sum
                } else {
                    units[k] as int
                }) >= cons[k];
                &&& r is Ok <==> courses.contains_key(c) && has_consensus(course) && !units.contains_key(n)
                    && sum <= u32::MAX && fits
                &&& courses.contains_key(c) && has_consensus(course) && !units.contains_key(n) && (forall|k: Seq<char>|
                    #[trigger] cons.contains_key(k) ==> units.contains_key(k) && cons[k] <= units[k]) ==> r is Ok
                &&& r matches Err(e) ==> *final(self) == *old(self) && (if !courses.contains_key(c) {
                    e == ContractError::CourseMissing
                } else if !has_consensus(course) {
                    e == ContractError::NoConsensus
                } else if units.contains_key(n) {
                    e == ContractError::InstructorExists
                } else if sum > u32::MAX {
                    e == ContractError::ArithmeticOverflow
                } else {
                    Some(e) == first_agreed_error(units, cons, n, Some(sum as u32), true, course.consensus.key_order())
                })
                &&& r is Ok ==> {
                    let nc = final(self).course_metadata_by_id@[c];
                    &&& final(self).course_metadata_by_id@ == courses.insert(c, nc)
                    &&& nc == (CourseMetadata {
                        instructor_id: nc.instructor_id,
                        consensus: nc.consensus,
                        ..course
                    })
                    &&& nc.instructor_id@ == units_after_add(units, cons, n, sum)
                    &&& nc.consensus@ == Map::<Seq<char>, u32>::empty()
                    &&& map_total(nc.instructor_id@) == map_total(units)
                    &&& *final(self) == (ELearningContract {
                        course_metadata_by_id: final(self).course_metadata_by_id,
                        ..*old(self)
                    })
                }
            }),
    {
        if !self.check_consensus(&course_id)? {
            return Err(ContractError::NoConsensus);
        }
        if !self.internal_check_instructor_exits(&course_id, &new_instructor) {
            return Err(ContractError::InstructorExists);
        }
        let course_ref = self.course_metadata_by_id.get(&course_id).unwrap();
        let keys = course_ref.consensus.keys();
        proof {
            let units = course_ref.instructor_id@;
            let cons = course_ref.consensus@;
            if forall|k: Seq<char>| #[trigger] cons.contains_key(k) ==> units.contains_key(k) && cons[k] <= units[k] {
                lemma_sum_of_values_is_total(course_ref.consensus);
                lemma_str_map_finite(course_ref.instructor_id);
                lemma_map_total_le(cons, units);
                assert(self.course_metadata_by_id@.contains_key(course_id@));
                assert(map_total(units) <= 10000);
            }
        }
        let sum = match sum_values(&course_ref.consensus) {
            None => {
                return Err(ContractError::ArithmeticOverflow);
            },
            Some(v) => v,
        };
        check_agreed_units(&course_ref.instructor_id, &course_ref.consensus, &new_instructor, Some(sum), true)?;
        let ghost units = course_ref.instructor_id@;
        let ghost cons = course_ref.consensus@;
        let ghost n = new_instructor@;
        proof {
            assert forall|k: Seq<char>| #[trigger] cons.contains_key(k) implies (units.contains_key(k)
                || k == n) && (if k == n {
                sum as int
            } else {
                units[k] as int
            }) >= cons[k] by {
                assert(agreed_fits(units, cons, n, Some(sum), true, k));
            }
        }
        let ghost s0 = *self;
        let mut course = self.course_metadata_by_id.remove(&course_id).unwrap();
        course.instructor_id.insert(new_instructor.clone(), sum);
        let mut j: usize = 0;
        while j < keys.len()
            invariant
                j <= keys.len(),
                views_of(keys@) == s0.course_metadata_by_id@[course_id@].consensus.key_order(),
                s0.course_metadata_by_id@[course_id@].consensus.key_order().no_duplicates(),
                forall|q: Seq<char>| cons.contains_key(q) <==> #[trigger] s0.course_metadata_by_id@[course_id@].consensus.key_order().contains(q),
                cons == s0.course_metadata_by_id@[course_id@].consensus@,
                units == s0.course_metadata_by_id@[course_id@].instructor_id@,
                forall|k: Seq<char>| #[trigger] cons.contains_key(k) ==> (units.contains_key(k) || k == n) && (if k == n {
                    sum as int
                } else {
                    units[k] as int
                }) >= cons[k],
                course == (CourseMetadata {
                    instructor_id: course.instructor_id,
                    consensus: course.consensus,
                    ..s0.course_metadata_by_id@[course_id@]
                }),
                course.consensus@ == Map::new(|q: Seq<char>| cons.contains_key(q) && !views_of(keys@).take(j as int).contains(q), |q: Seq<char>| cons[q]),
                course.instructor_id@ == Map::new(
                    |k: Seq<char>| units.contains_key(k) || k == n,
                    |k: Seq<char>|
                        if cons.contains_key(k) && views_of(keys@).take(j as int).contains(k) {
                            ((if k == n {
                                sum as int
                            } else {
                                units[k] as int
                            }) - cons[k]) as u32
                        } else if k == n {
                            sum
                        } else {
                            units[k]
                        },
                ),
            decreases keys.len() - j,
        {
            let k = &keys[j];
            let ghost ks = views_of(keys@);
            assert(ks[j as int] == k@);
            assert(ks.contains(k@));
            let agreed = *course.consensus.get(k).unwrap_or(&0);
            proof {
                assert(!ks.take(j as int).contains(k@)) by {
                    if ks.take(j as int).contains(k@) {
                        let t = choose|t: int| 0 <= t < j && ks.take(j as int)[t] == k@;
                        assert(ks[t] == ks[j as int]);
                    }
                }
                assert(course.consensus@.contains_key(k@));
                assert(agreed == cons[k@]);
            }
            let unit = *course.instructor_id.get(k).unwrap();
            course.instructor_id.insert(k.clone(), unit - agreed);
            course.consensus.remove(k);
            j = j + 1;
            proof {
                assert(ks.take(j as int) =~= ks.take(j - 1).push(k@));
                assert forall|q: Seq<char>| #[trigger] ks.take(j as int).contains(q) == (ks.take(j - 1).contains(q) || q == k@) by {
                    if ks.take(j as int).contains(q) && q != k@ {
                        let t = choose|t: int| 0 <= t < j && #[trigger] ks.take(j as int)[t] == q;
                        assert(t < j - 1);
                        assert(ks.take(j - 1)[t] == q);
                    }
                    if ks.take(j - 1).contains(q) {
                        let t = choose|t: int| 0 <= t < j - 1 && #[trigger] ks.take(j - 1)[t] == q;
                        assert(ks.take(j as int)[t] == q);
                    }
                    if q == k@ {
                        assert(ks.take(j as int)[j - 1] == q);
                    }
                }
                assert(course.consensus@ =~= Map::new(|q: Seq<char>| cons.contains_key(q) && !ks.take(j as int).contains(q), |q: Seq<char>| cons[q]));
                assert(course.instructor_id@ =~= Map::new(
                    |q: Seq<char>| units.contains_key(q) || q == n,
                    |q: Seq<char>|
                        if cons.contains_key(q) && ks.take(j as int).contains(q) {
                            ((if q == n {
                                sum as int
                            } else {
                                units[q] as int
                            }) - cons[q]) as u32
                        } else if q == n {
                            sum
                        } else {
                            units[q]
                        },
                ));
            }
        }
        proof {
            let ks = views_of(keys@);
            assert(ks.take(keys.len() as int) =~= ks);
            assert(course.consensus@ =~= Map::<Seq<char>, u32>::empty());
            assert(course.instructor_id@ =~= units_after_add(units, cons, n, sum as int));
            lemma_add_instructor_total(s0.course_metadata_by_id@[course_id@], n);
        }
        self.course_metadata_by_id.insert(course_id.clone(), course);
        proof {
            assert(self.course_metadata_by_id@ =~= s0.course_metadata_by_id@.insert(
                course_id@,
                self.course_metadata_by_id@[course_id@],
            ));
            self.lemma_course_replaced(&s0, course_id@);
        }
        Ok(())
    }

    /// An instructor of the course (the signer) transfers `amount` of their
    /// units to another instructor. Returns a copy of the course.
    pub fn transfer_unit(&mut self, ctx: &CallContext, course_id: String, instructor_id: String, amount: u32) -> (r:
        Result<CourseMetadata, ContractError>)
        requires
            old(self).inv(),
        ensures
            final(self).inv(),
            ({
                let courses = old(self).course_metadata_by_id@;
                let (c, s, t) = (course_id@, ctx.signer@, instructor_id@);
                let course = courses[c];
                let units = course.instructor_id@;
                let after_sender = units.insert(s, (units[s] - amount) as u32);
                &&& r is Ok <==> courses.contains_key(c) && units.contains_key(t) && units.contains_key(s)
                    && amount <= units[s] && after_sender[t] + amount <= u32::MAX
                &&& r matches Err(e) ==> *final(self) == *old(self) && e == (if !courses.contains_key(c) {
                    ContractError::CourseMissing
                } else if !units.contains_key(t) || !units.contains_key(s) {
                    ContractError::NotCourseMember
                } else if amount > units[s] {
                    ContractError::NotEnoughUnit
                } else {
                    ContractError::ArithmeticOverflow
                })
                &&& r matches Ok(copy) ==> {
                    let nc = final(self).course_metadata_by_id@[c];
                    &&& final(self).course_metadata_by_id@ == courses.insert(c, nc)
                    &&& nc == (CourseMetadata { instructor_id: nc.instructor_id, ..course })
                    &&& nc.instructor_id@ == after_sender.insert(t, (after_sender[t] + amount) as u32)
                    &&& map_total(nc.instructor_id@) == map_total(units)
                    &&& same_course(copy, nc)
                    &&& *final(self) == (ELearningContract {
                        course_metadata_by_id: final(self).course_metadata_by_id,
                        ..*old(self)
                    })
                }
            }),
    {
        let course_ref = match self.course_metadata_by_id.get(&course_id) {
            None => {
                return Err(ContractError::CourseMissing);
            },
            Some(c) => c,
        };
        if !self.internal_check_instructor_member(&instructor_id, course_ref) {
            return Err(ContractError::NotCourseMember);
        }
        let have = match course_ref.instructor_id.get(&ctx.signer) {
            None => {
                return Err(ContractError::NotCourseMember);
            },
            Some(v) => *v,
        };
        if amount > have {
            return Err(ContractError::NotEnoughUnit);
        }
        let target_after = if instructor_id == ctx.signer {
            have - amount
        } else {
            *course_ref.instructor_id.get(&instructor_id).unwrap()
        };
        if target_after > u32::MAX - amount {
            return Err(ContractError::ArithmeticOverflow);
        }
        proof {
            transfer_unit_keeps_units(course_ref.instructor_id, ctx.signer@, instructor_id@, amount);
        }
        let ghost s0 = *self;
        let mut course = self.course_metadata_by_id.remove(&course_id).unwrap();
        course.instructor_id.insert(ctx.signer.clone(), have - amount);
        course.instructor_id.insert(instructor_id, target_after + amount);
        let copy = course.clone();
        self.course_metadata_by_id.insert(course_id.clone(), course);
        proof {
            assert(self.course_metadata_by_id@ =~= s0.course_metadata_by_id@.insert(
                course_id@,
                self.course_metadata_by_id@[course_id@],
            ));
            self.lemma_course_replaced(&s0, course_id@);
        }
        Ok(copy)
    }

    /// With a consensus, an instructor whose units equal the agreed units
    /// leaves the course: each agreeing instructor gets back what they agreed
    /// to, the consensus is cleared, and the instructor is removed. The
    /// course's total of units falls only by what the leaving instructor had
    /// agreed to themselves.
    pub fn remove_instructor(&mut self, course_id: String, instructor_id: String) -> (r: Result<
        (),
        ContractError,
    >)
        requires
            old(self).inv(),
        ensures
            final(self).inv(),
            ({
                let courses = old(self).course_metadata_by_id@;
                let c = course_id@;
                let course = courses[c];
                let g = instructor_id@;
                let units = course.instructor_id@;
                let cons = course.consensus@;
                let sum = sum_of_values(course.consensus);
                let fits = forall|k: Seq<char>| #[trigger] cons.contains_key(k) ==> units.contains_key(k)
                    && units[k] + cons[k] <= u32::MAX;
                &&& r is Ok <==> courses.contains_key(c) && has_consensus(course) && units.contains_key(g)
                    && sum <= u32::MAX && units[g] == sum && fits
                &&& courses.contains_key(c) && has_consensus(course) && units.contains_key(g) && !cons.contains_key(g)
                    && units[g] == sum && (forall|k: Seq<char>| #[trigger] cons.contains_key(k) ==> units.contains_key(k))
                    ==> r is Ok
                &&& r matches Err(e) ==> *final(self) == *old(self) && (if !courses.contains_key(c) {
                    e == ContractError::CourseMissing
                } else if !has_consensus(course) {
                    e == ContractError::NoConsensus
                } else if !units.contains_key(g) {
                    e == ContractError::InstructorMissing
                } else if sum > u32::MAX {
                    e == ContractError::ArithmeticOverflow
                } else if units[g] != sum {
                    e == ContractError::UnitMismatch
                } else {
                    Some(e) == first_agreed_error(units, cons, g, None, false, course.consensus.key_order())
                })
                &&& r is Ok ==> {
                    let nc = final(self).course_metadata_by_id@[c];
                    &&& final(self).course_metadata_by_id@ == courses.insert(c, nc)
                    &&& nc == (CourseMetadata {
                        instructor_id: nc.instructor_id,
                        consensus: nc.consensus,
                        ..course
                    })
                    &&& nc.instructor_id@ == units_after_remove(units, cons, g)
                    &&& nc.consensus@ == Map::<Seq<char>, u32>::empty()
                    &&& map_total(nc.instructor_id@) == map_total(units) - (if cons.contains_key(g) {
                        cons[g] as int
                    } else {
                        0
                    })
                    &&& *final(self) == (ELearningContract {
                        course_metadata_by_id: final(self).course_metadata_by_id,
                        ..*old(self)
                    })
                }
            }),
    {
        if !self.course_metadata_by_id.contains_key(&course_id) {
            return Err(ContractError::CourseMissing);
        }
        if !self.check_consensus(&course_id)? {
            return Err(ContractError::NoConsensus);
        }
        if self.internal_check_instructor_exits(&course_id, &instructor_id) {
            return Err(ContractError::InstructorMissing);
        }
        let course_ref = self.course_metadata_by_id.get(&course_id).unwrap();
        let keys = course_ref.consensus.keys();
        proof {
            let units = course_ref.instructor_id@;
            let cons = course_ref.consensus@;
            let g = instructor_id@;
            if !cons.contains_key(g) && units[g] == sum_of_values(course_ref.consensus) && (forall|k: Seq<char>|
                #[trigger] cons.contains_key(k) ==> units.contains_key(k)) {
                lemma_sum_of_values_is_total(course_ref.consensus);
                lemma_str_map_finite(course_ref.instructor_id);
                assert(self.course_metadata_by_id@.contains_key(course_id@));
                assert(map_total(units) <= 10000);
                assert forall|k: Seq<char>| #[trigger] cons.contains_key(k) implies units.contains_key(k) && units[k]
                    + cons[k] <= u32::MAX by {
                    lemma_map_total_one(cons, k);
                    lemma_map_total_two(units, k, g);
                }
            }
        }
        let unit = *course_ref.instructor_id.get(&instructor_id).unwrap();
        let sum = match sum_values(&course_ref.consensus) {
            None => {
                return Err(ContractError::ArithmeticOverflow);
            },
            Some(v) => v,
        };
        if unit != sum {
            return Err(ContractError::UnitMismatch);
        }
        check_agreed_units(&course_ref.instructor_id, &course_ref.consensus, &instructor_id, None, false)?;
        let ghost units = course_ref.instructor_id@;
        let ghost cons = course_ref.consensus@;
        proof {
            assert forall|k: Seq<char>| #[trigger] cons.contains_key(k) implies units.contains_key(k)
                && units[k] + cons[k] <= u32::MAX by {
                assert(agreed_fits(units, cons, instructor_id@, None, false, k));
            }
        }
        let ghost s0 = *self;
        let mut course = self.course_metadata_by_id.remove(&course_id).unwrap();
        let mut j: usize = 0;
        while j < keys.len()
            invariant
                j <= keys.len(),
                views_of(keys@) == s0.course_metadata_by_id@[course_id@].consensus.key_order(),
                s0.course_metadata_by_id@[course_id@].consensus.key_order().no_duplicates(),
                forall|q: Seq<char>| cons.contains_key(q) <==> #[trigger] s0.course_metadata_by_id@[course_id@].consensus.key_order().contains(q),
                cons == s0.course_metadata_by_id@[course_id@].consensus@,
                units == s0.course_metadata_by_id@[course_id@].instructor_id@,
                forall|k: Seq<char>| #[trigger] cons.contains_key(k) ==> units.contains_key(k) && units[k] + cons[k] <= u32::MAX,
                course == (CourseMetadata {
                    instructor_id: course.instructor_id,
                    consensus: course.consensus,
                    ..s0.course_metadata_by_id@[course_id@]
                }),
                course.consensus@ == Map::new(|q: Seq<char>| cons.contains_key(q) && !views_of(keys@).take(j as int).contains(q), |q: Seq<char>| cons[q]),
                course.instructor_id@ == Map::new(
                    |k: Seq<char>| units.contains_key(k),
                    |k: Seq<char>|
                        if cons.contains_key(k) && views_of(keys@).take(j as int).contains(k) {
                            (units[k] + cons[k]) as u32
                        } else {
                            units[k]
                        },
                ),
            decreases keys.len() - j,
        {
            let k = &keys[j];
            let ghost ks = views_of(keys@);
            assert(ks[j as int] == k@);
            assert(ks.contains(k@));
            let agreed = *course.consensus.get(k).unwrap_or(&0);
            proof {
                assert(!ks.take(j as int).contains(k@)) by {
                    if ks.take(j as int).contains(k@) {
                        let t = choose|t: int| 0 <= t < j && ks.take(j as int)[t] == k@;
                        assert(ks[t] == ks[j as int]);
                    }
                }
                assert(course.consensus@.contains_key(k@));
                assert(agreed == cons[k@]);
            }
            let have = *course.instructor_id.get(k).unwrap();
            course.instructor_id.insert(k.clone(), have + agreed);
            course.consensus.remove(k);
            j = j + 1;
            proof {
                assert(ks.take(j as int) =~= ks.take(j - 1).push(k@));
                assert forall|q: Seq<char>| #[trigger] ks.take(j as int).contains(q) == (ks.take(j - 1).contains(q) || q == k@) by {
                    if ks.take(j as int).contains(q) && q != k@ {
                        let t = choose|t: int| 0 <= t < j && #[trigger] ks.take(j as int)[t] == q;
                        assert(t < j - 1);
                        assert(ks.take(j - 1)[t] == q);
                    }
                    if ks.take(j - 1).contains(q) {
                        let t = choose|t: int| 0 <= t < j - 1 && #[trigger] ks.take(j - 1)[t] == q;
                        assert(ks.take(j as int)[t] == q);
                    }
                    if q == k@ {
                        assert(ks.take(j as int)[j - 1] == q);
                    }
                }
                assert(course.consensus@ =~= Map::new(|q: Seq<char>| cons.contains_key(q) && !ks.take(j as int).contains(q), |q: Seq<char>| cons[q]));
                assert(course.instructor_id@ =~= Map::new(
                    |q: Seq<char>| units.contains_key(q),
                    |q: Seq<char>|
                        if cons.contains_key(q) && ks.take(j as int).contains(q) {
                            (units[q] + cons[q]) as u32
                        } else {
                            units[q]
                        },
                ));
            }
        }
        course.instructor_id.remove(&instructor_id);
        proof {
            let ks = views_of(keys@);
            assert(ks.take(keys.len() as int) =~= ks);
            assert(course.consensus@ =~= Map::<Seq<char>, u32>::empty());
            assert(course.instructor_id@ =~= units_after_remove(units, cons, instructor_id@));
            lemma_remove_instructor_total(s0.course_metadata_by_id@[course_id@], instructor_id@);
        }
        self.course_metadata_by_id.insert(course_id.clone(), course);
        proof {
            assert(self.course_metadata_by_id@ =~= s0.course_metadata_by_id@.insert(
                course_id@,
                self.course_metadata_by_id@[course_id@],
            ));
            self.lemma_course_replaced(&s0, course_id@);
        }
        Ok(())
    }
}

} // verus!
