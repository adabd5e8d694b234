//! Buying courses and combos. A sale makes the buyer a student of the course,
//! adds one student to each of its instructors and pays each instructor its
//! share of the price.
use vstd::prelude::*;

use crate::collections::{contains_string, views_of};
use crate::context::{CallContext, ContractError, Transfer};
use crate::elearning::{all_strings_keyed, combo_has_course, ELearningContract};
use crate::models::{ComboState, CourseMetadata, JsonUser, UserMetadata, WrapCombo, WrapComboHash};
use crate::repository::{convert_to_yocto, fits_in_yocto, yocto_per_near};
use crate::collab::sum_at;
use crate::shares::{lemma_map_total_nonneg, lemma_sum_at_is_total, map_total};

verus! {

/// `u` with `n` more students.
pub open spec fn with_students(u: JsonUser, n: nat) -> JsonUser {
    JsonUser { metadata: UserMetadata { students: (u.metadata.students + n) as u32, ..u.metadata }, ..u }
}

/// How many of the courses `cs` have `k` among their instructors.
pub open spec fn teaching_count(courses: Map<Seq<char>, CourseMetadata>, cs: Seq<Seq<char>>, k: Seq<char>) -> nat
    decreases cs.len(),
{
    if cs.len() == 0 {
        0
    } else {
        teaching_count(courses, cs.drop_last(), k) + if courses[cs.last()].instructor_id@.contains_key(k) {
            1nat
        } else {
            0nat
        }
    }
}

/// What an instructor owning `units` (of 10000) of a course sold at `price`
/// NEAR is paid, in yoctoNEAR.
pub open spec fn payout(price: u128, units: u32) -> int {
    (price * yocto_per_near()) / 10000 * units
}

/// Whether selling the course makes its number of students a multiple of 5.
pub open spec fn milestone_sale(course: CourseMetadata) -> bool {
    (course.students_studying_map@.len() + 1) % 5 == 0
}

/// Every instructor of the course is registered.
pub open spec fn instructors_registered(users: Map<Seq<char>, JsonUser>, course: CourseMetadata) -> bool {
    forall|k: Seq<char>| #[trigger] course.instructor_id@.contains_key(k) ==> users.contains_key(k)
}

/// Each instructor's payout fits in `u128`, and on a milestone sale each
/// instructor's credit total can take one more credit.
pub open spec fn payouts_fit(users: Map<Seq<char>, JsonUser>, course: CourseMetadata, price: u128) -> bool {
    forall|k: Seq<char>| #[trigger]
        course.instructor_id@.contains_key(k) ==> payout(price, course.instructor_id@[k]) <= u128::MAX
            && (milestone_sale(course) ==> users[k].metadata.total_credit + 1 <= u32::MAX)
}

/// Every user's number of students still fits in `u32` after the courses
/// `cs` are sold.
pub open spec fn students_fit(users: Map<Seq<char>, JsonUser>, courses: Map<Seq<char>, CourseMetadata>, cs: Seq<Seq<char>>) -> bool {
    forall|k: Seq<char>| #[trigger]
        users.contains_key(k) ==> users[k].metadata.students + teaching_count(courses, cs, k) <= u32::MAX
}

/// The hash given with course `c` among the courses `cs` (the last one given
/// where `c` occurs twice).
pub open spec fn hash_for(cs: Seq<Seq<char>>, hashes: Seq<String>, c: Seq<char>) -> String
    decreases cs.len(),
{
    if cs.len() == 0 || hashes.len() == 0 {
        arbitrary()
    } else if cs.last() == c {
        hashes.last()
    } else {
        hash_for(cs.drop_last(), hashes.drop_last(), c)
    }
}

/// `new` is `old` after `buyer` bought the courses `ids` (no id twice), giving
/// `hashes[i]` for `ids[i]`: each user gains a student per bought course they
/// teach, the buyer's courses grow by `ids`, the buyer studies each bought
/// course with its hash, and nothing else changes.
pub open spec fn sales_done(
    old: ELearningContract,
    new: ELearningContract,
    buyer: Seq<char>,
    ids: Seq<String>,
    hashes: Seq<String>,
) -> bool {
    let ous = old.user_metadata_by_id@;
    let nus = new.user_metadata_by_id@;
    let ocs = old.course_metadata_by_id@;
    let ncs = new.course_metadata_by_id@;
    let cs = views_of(ids);
    &&& nus.dom() == ous.dom()
    &&& forall|k: Seq<char>| #[trigger]
        nus.contains_key(k) ==> nus[k] == JsonUser {
            courses: nus[k].courses,
            ..with_students(ous[k], teaching_count(ocs, cs, k))
        } && nus[k].courses@ == if k == buyer {
            ous[k].courses@ + ids
        } else {
            ous[k].courses@
        }
    &&& ncs.dom() == ocs.dom()
    &&& forall|c: Seq<char>| #[trigger]
        ncs.contains_key(c) ==> ncs[c] == CourseMetadata {
            students_studying_map: ncs[c].students_studying_map,
            ..ocs[c]
        } && ncs[c].students_studying_map@ == if cs.contains(c) {
            ocs[c].students_studying_map@.insert(buyer, hash_for(cs, hashes, c))
        } else {
            ocs[c].students_studying_map@
        }
    &&& new == ELearningContract {
        user_metadata_by_id: new.user_metadata_by_id,
        course_metadata_by_id: new.course_metadata_by_id,
        ..old
    }
}

/// Why a sale of course `c` at `price` NEAR cannot go through, if it cannot:
/// the course is unknown, an amount leaves `u128` or `u32`, or an instructor
/// is not registered.
pub open spec fn sale_error(
    users: Map<Seq<char>, JsonUser>,
    courses: Map<Seq<char>, CourseMetadata>,
    c: Seq<char>,
    price: u128,
) -> Option<ContractError> {
    let course = courses[c];
    if !courses.contains_key(c) {
        Some(ContractError::CourseMissing)
    } else if price * yocto_per_near() > u128::MAX {
        Some(ContractError::ArithmeticOverflow)
    } else if !instructors_registered(users, course) {
        Some(ContractError::NotRegistered)
    } else if !(payouts_fit(users, course, price) && students_fit(users, courses, seq![c])) {
        Some(ContractError::ArithmeticOverflow)
    } else {
        None
    }
}

/// Sum of the prices of a combo's courses, in NEAR.
pub open spec fn combo_total(courses: Seq<WrapCombo>) -> int
    decreases courses.len(),
{
    if courses.len() == 0 {
        0
    } else {
        combo_total(courses.drop_last()) + courses.last().price
    }
}

/// The price of course `c` in a combo: that of its last entry, or 0.
pub open spec fn price_in_combo(courses: Seq<WrapCombo>, c: Seq<char>) -> u128
    decreases courses.len(),
{
    if courses.len() == 0 {
        0
    } else if courses.last().course_id@ == c {
        courses.last().price
    } else {
        price_in_combo(courses.drop_last(), c)
    }
}

/// The courses of a list of bought courses.
pub open spec fn hash_course_ids(hs: Seq<WrapComboHash>) -> Seq<String> {
    hs.map_values(|h: WrapComboHash| h.course_id)
}

/// The hashes of a list of bought courses.
pub open spec fn hash_codes(hs: Seq<WrapComboHash>) -> Seq<String> {
    hs.map_values(|h: WrapComboHash| h.encode_check)
}

/// The entries of `hs` whose course did not come earlier, in order.
pub open spec fn unique_by_course(hs: Seq<WrapComboHash>) -> Seq<WrapComboHash>
    decreases hs.len(),
{
    if hs.len() == 0 {
        Seq::empty()
    } else {
        let u = unique_by_course(hs.drop_last());
        if views_of(hash_course_ids(u)).contains(hs.last().course_id@) {
            u
        } else {
            u.push(hs.last())
        }
    }
}

/// The first refusal among the sales of `items`, in order, each at its price
/// in the combo.
pub open spec fn first_sale_error(
    users: Map<Seq<char>, JsonUser>,
    courses: Map<Seq<char>, CourseMetadata>,
    combo_courses: Seq<WrapCombo>,
    items: Seq<WrapComboHash>,
) -> Option<ContractError>
    decreases items.len(),
{
    if items.len() == 0 {
        None
    } else {
        match first_sale_error(users, courses, combo_courses, items.drop_last()) {
            Some(e) => Some(e),
            None => sale_error(
                users,
                courses,
                items.last().course_id@,
                price_in_combo(combo_courses, items.last().course_id@),
            ),
        }
    }
}

/// What the sales of `items` pay, in order, each at its price in the combo.
pub open spec fn combo_payouts(
    courses: Map<Seq<char>, CourseMetadata>,
    combo_courses: Seq<WrapCombo>,
    items: Seq<WrapComboHash>,
) -> Seq<(Seq<char>, int)>
    decreases items.len(),
{
    if items.len() == 0 {
        Seq::empty()
    } else {
        combo_payouts(courses, combo_courses, items.drop_last()) + sale_payouts(
            courses[items.last().course_id@],
            price_in_combo(combo_courses, items.last().course_id@),
        )
    }
}

/// One more course sold counts once more for each of its instructors.
proof fn lemma_teaching_count_push(courses: Map<Seq<char>, CourseMetadata>, cs: Seq<Seq<char>>, c: Seq<char>, k: Seq<char>)
    ensures
        teaching_count(courses, cs.push(c), k) == teaching_count(courses, cs, k) + if courses[c].instructor_id@.contains_key(k) {
            1nat
        } else {
            0nat
        },
{
    assert(cs.push(c).drop_last() =~= cs);
}

/// Selling a prefix of the courses counts no more than selling them all.
proof fn lemma_teaching_count_prefix(courses: Map<Seq<char>, CourseMetadata>, cs: Seq<Seq<char>>, j: int, k: Seq<char>)
    requires
        0 <= j <= cs.len(),
    ensures
        teaching_count(courses, cs.take(j), k) <= teaching_count(courses, cs, k),
    decreases cs.len(),
{
    if j == cs.len() {
        assert(cs.take(j) =~= cs);
    } else {
        assert(cs.drop_last().take(j) =~= cs.take(j));
        lemma_teaching_count_prefix(courses, cs.drop_last(), j, k);
    }
}

/// A user who teaches none of the courses gains no student.
proof fn lemma_teaching_count_witness(courses: Map<Seq<char>, CourseMetadata>, cs: Seq<Seq<char>>, k: Seq<char>)
    requires
        teaching_count(courses, cs, k) > 0,
    ensures
        exists|t: int| 0 <= t < cs.len() && #[trigger] courses[cs[t]].instructor_id@.contains_key(k),
    decreases cs.len(),
{
    if !courses[cs.last()].instructor_id@.contains_key(k) {
        lemma_teaching_count_witness(courses, cs.drop_last(), k);
        let t = choose|t: int| 0 <= t < cs.drop_last().len() && #[trigger] courses[cs.drop_last()[t]].instructor_id@.contains_key(k);
        assert(cs[t] == cs.drop_last()[t]);
    } else {
        assert(courses[cs[cs.len() - 1]].instructor_id@.contains_key(k));
    }
}

/// Only the instructors of the courses count.
proof fn lemma_teaching_count_same(
    a: Map<Seq<char>, CourseMetadata>,
    b: Map<Seq<char>, CourseMetadata>,
    cs: Seq<Seq<char>>,
    k: Seq<char>,
)
    requires
        forall|t: int| 0 <= t < cs.len() ==> (#[trigger] a[cs[t]]).instructor_id@ == b[cs[t]].instructor_id@,
    ensures
        teaching_count(a, cs, k) == teaching_count(b, cs, k),
    decreases cs.len(),
{
    if cs.len() > 0 {
        assert forall|t: int| 0 <= t < cs.drop_last().len() implies (#[trigger] a[cs.drop_last()[t]]).instructor_id@
            == b[cs.drop_last()[t]].instructor_id@ by {
            assert(cs.drop_last()[t] == cs[t]);
        }
        lemma_teaching_count_same(a, b, cs.drop_last(), k);
        assert(a[cs[cs.len() - 1]].instructor_id@ == b[cs[cs.len() - 1]].instructor_id@);
    }
}

/// No course occurs twice among the unique entries.
proof fn lemma_unique_distinct(hs: Seq<WrapComboHash>)
    ensures
        views_of(hash_course_ids(unique_by_course(hs))).no_duplicates(),
    decreases hs.len(),
{
    if hs.len() > 0 {
        lemma_unique_distinct(hs.drop_last());
        let u = unique_by_course(hs.drop_last());
        let x = hs.last();
        if !views_of(hash_course_ids(u)).contains(x.course_id@) {
            assert(views_of(hash_course_ids(u.push(x))) =~= views_of(hash_course_ids(u)).push(x.course_id@));
        }
    }
}

/// Each sale in a list without refusals can go through on its own.
proof fn lemma_first_sale_error_none(
    users: Map<Seq<char>, JsonUser>,
    courses: Map<Seq<char>, CourseMetadata>,
    combo_courses: Seq<WrapCombo>,
    items: Seq<WrapComboHash>,
    j: int,
)
    requires
        first_sale_error(users, courses, combo_courses, items) is None,
        0 <= j < items.len(),
    ensures
        sale_error(users, courses, items[j].course_id@, price_in_combo(combo_courses, items[j].course_id@)) is None,
    decreases items.len(),
{
    if j < items.len() - 1 {
        assert(items.drop_last()[j] == items[j]);
        lemma_first_sale_error_none(users, courses, combo_courses, items.drop_last(), j);
    }
}

/// Once a sale in the list is refused, so is the list.
proof fn lemma_first_sale_error_prefix(
    users: Map<Seq<char>, JsonUser>,
    courses: Map<Seq<char>, CourseMetadata>,
    combo_courses: Seq<WrapCombo>,
    items: Seq<WrapComboHash>,
    j: int,
)
    requires
        0 <= j <= items.len(),
        first_sale_error(users, courses, combo_courses, items.take(j)) is Some,
    ensures
        first_sale_error(users, courses, combo_courses, items) == first_sale_error(users, courses, combo_courses, items.take(j)),
    decreases items.len(),
{
    if j == items.len() {
        assert(items.take(j) =~= items);
    } else {
        assert(items.drop_last().take(j) =~= items.take(j));
        lemma_first_sale_error_prefix(users, courses, combo_courses, items.drop_last(), j);
    }
}

/// A price in a combo is at most the combo's total.
proof fn lemma_price_in_total(courses: Seq<WrapCombo>, c: Seq<char>)
    ensures
        price_in_combo(courses, c) <= combo_total(courses),
    decreases courses.len(),
{
    if courses.len() > 0 {
        lemma_price_in_total(courses.drop_last(), c);
        lemma_total_nonneg(courses.drop_last());
    }
}

/// A combo's total is not negative.
proof fn lemma_total_nonneg(courses: Seq<WrapCombo>)
    ensures
        combo_total(courses) >= 0,
    decreases courses.len(),
{
    if courses.len() > 0 {
        lemma_total_nonneg(courses.drop_last());
    }
}

/// The hash given with the last course sold is that course's hash.
proof fn lemma_hash_for_push(cs: Seq<Seq<char>>, hashes: Seq<String>, c: Seq<char>, h: String, q: Seq<char>)
    ensures
        hash_for(cs.push(c), hashes.push(h), q) == if q == c {
            h
        } else {
            hash_for(cs, hashes, q)
        },
{
    assert(cs.push(c).drop_last() =~= cs);
    assert(hashes.push(h).drop_last() =~= hashes);
}

/// Two sales in a row, the second of a course not sold in the first, are one
/// sale of both.
proof fn lemma_sales_compose(
    s0: ELearningContract,
    s1: ELearningContract,
    s2: ELearningContract,
    buyer: Seq<char>,
    ids: Seq<String>,
    hashes: Seq<String>,
    id: String,
    h: String,
)
    requires
        sales_done(s0, s1, buyer, ids, hashes),
        sales_done(s1, s2, buyer, seq![id], seq![h]),
        ids.len() == hashes.len(),
        !views_of(ids).contains(id@),
        s0.course_metadata_by_id@.contains_key(id@),
        forall|k: Seq<char>| #[trigger]
            s0.user_metadata_by_id@.contains_key(k) ==> s0.user_metadata_by_id@[k].metadata.students
                + teaching_count(s0.course_metadata_by_id@, views_of(ids.push(id)), k) <= u32::MAX,
    ensures
        sales_done(s0, s2, buyer, ids.push(id), hashes.push(h)),
{
    let cs0 = views_of(ids);
    let cs = views_of(ids.push(id));
    let c = id@;
    assert(cs =~= cs0.push(c));
    assert(views_of(seq![id]) =~= seq![c]);
    let us0 = s0.user_metadata_by_id@;
    let us1 = s1.user_metadata_by_id@;
    let us2 = s2.user_metadata_by_id@;
    let oc0 = s0.course_metadata_by_id@;
    let oc1 = s1.course_metadata_by_id@;
    let oc2 = s2.course_metadata_by_id@;
    assert(oc1[c].instructor_id@ == oc0[c].instructor_id@) by {
        assert(oc1.contains_key(c));
    }
    assert forall|k: Seq<char>| #[trigger] us2.contains_key(k) implies us2[k] == (JsonUser {
        courses: us2[k].courses,
        ..with_students(us0[k], teaching_count(oc0, cs, k))
    }) && us2[k].courses@ == if k == buyer {
        us0[k].courses@ + ids.push(id)
    } else {
        us0[k].courses@
    } by {
        assert(us1.contains_key(k));
        lemma_teaching_count_one(oc1, c, k);
        lemma_teaching_count_push(oc0, cs0, c, k);
        if k == buyer {
            assert(us0[k].courses@ + ids.push(id) =~= us0[k].courses@ + ids + seq![id]);
        }
    }
    assert forall|q: Seq<char>| #[trigger] oc2.contains_key(q) implies oc2[q] == (CourseMetadata {
        students_studying_map: oc2[q].students_studying_map,
        ..oc0[q]
    }) && oc2[q].students_studying_map@ == if cs.contains(q) {
        oc0[q].students_studying_map@.insert(buyer, hash_for(cs, hashes.push(h), q))
    } else {
        oc0[q].students_studying_map@
    } by {
        assert(oc1.contains_key(q));
        vstd::seq_lib::lemma_seq_contains_after_push(cs0, c, q);
        lemma_hash_for_push(cs0, hashes, c, h, q);
        assert(seq![c].contains(q) == (q == c)) by {
            if q == c {
                assert(seq![c][0] == q);
            }
        }
        reveal_with_fuel(hash_for, 2);
        assert(seq![c].drop_last() =~= Seq::<Seq<char>>::empty());
    }
}

/// A combo's total over a prefix of its courses is at most its total.
proof fn lemma_total_prefix(courses: Seq<WrapCombo>, j: int)
    requires
        0 <= j <= courses.len(),
    ensures
        combo_total(courses.take(j)) <= combo_total(courses),
    decreases courses.len(),
{
    if j == courses.len() {
        assert(courses.take(j) =~= courses);
    } else {
        assert(courses.drop_last().take(j) =~= courses.take(j));
        lemma_total_prefix(courses.drop_last(), j);
    }
}

/// A sale that could go through before other courses were sold still can,
/// where the students it adds still fit.
proof fn lemma_sale_still_possible(
    s0: ELearningContract,
    s: ELearningContract,
    buyer: Seq<char>,
    ids: Seq<String>,
    hashes: Seq<String>,
    c: Seq<char>,
    price: u128,
)
    requires
        sales_done(s0, s, buyer, ids, hashes),
        !views_of(ids).contains(c),
        sale_error(s0.user_metadata_by_id@, s0.course_metadata_by_id@, c, price) is None,
        forall|k: Seq<char>| #[trigger]
            s0.user_metadata_by_id@.contains_key(k) ==> s0.user_metadata_by_id@[k].metadata.students
                + teaching_count(s0.course_metadata_by_id@, views_of(ids).push(c), k) <= u32::MAX,
    ensures
        sale_error(s.user_metadata_by_id@, s.course_metadata_by_id@, c, price) is None,
        s.course_metadata_by_id@[c].instructor_id == s0.course_metadata_by_id@[c].instructor_id,
{
    let us0 = s0.user_metadata_by_id@;
    let us = s.user_metadata_by_id@;
    let oc0 = s0.course_metadata_by_id@;
    let oc = s.course_metadata_by_id@;
    let cs = views_of(ids);
    assert(oc.contains_key(c));
    let course0 = oc0[c];
    let course = oc[c];
    assert(course.instructor_id == course0.instructor_id);
    assert(course.students_studying_map@ == course0.students_studying_map@);
    assert forall|k: Seq<char>| #[trigger] course.instructor_id@.contains_key(k) implies us.contains_key(k) by {
        assert(course0.instructor_id@.contains_key(k));
    }
    assert forall|k: Seq<char>| #[trigger] course.instructor_id@.contains_key(k) implies payout(price, course.instructor_id@[k])
        <= u128::MAX && (milestone_sale(course) ==> us[k].metadata.total_credit + 1 <= u32::MAX) by {
        assert(course0.instructor_id@.contains_key(k));
        assert(us0.contains_key(k));
    }
    assert forall|k: Seq<char>| #[trigger] us.contains_key(k) implies us[k].metadata.students + teaching_count(oc, seq![c], k)
        <= u32::MAX by {
        assert(us0.contains_key(k));
        lemma_teaching_count_one(oc, c, k);
        lemma_teaching_count_push(oc0, cs, c, k);
    }
}

/// A transfer as a receiver and an amount.
pub open spec fn transfer_view(t: Transfer) -> (Seq<char>, int) {
    (t.receiver@, t.amount as int)
}

/// What a sale of the course at `price` NEAR pays: each instructor, in key
/// order, its payout.
pub open spec fn sale_payouts(course: CourseMetadata, price: u128) -> Seq<(Seq<char>, int)> {
    course.instructor_id.key_order().map_values(|k: Seq<char>| (k, payout(price, course.instructor_id@[k])))
}

/// Sum of the amounts of a list of payouts.
pub open spec fn paid_total(ps: Seq<(Seq<char>, int)>) -> int
    decreases ps.len(),
{
    if ps.len() == 0 {
        0
    } else {
        paid_total(ps.drop_last()) + ps.last().1
    }
}

/// The first `j` payouts of a sale pay each share of the price times the
/// units of the first `j` instructors.
proof fn lemma_paid_prefix(course: CourseMetadata, price: u128, j: int)
    requires
        0 <= j <= course.instructor_id.key_order().len(),
    ensures
        paid_total(sale_payouts(course, price).take(j)) == (price * yocto_per_near()) / 10000 * sum_at(
            course.instructor_id@,
            course.instructor_id.key_order().take(j),
        ),
    decreases j,
{
    let ks = course.instructor_id.key_order();
    let ps = sale_payouts(course, price);
    let share = (price * yocto_per_near()) / 10000;
    if j == 0 {
        assert(ps.take(0) =~= Seq::<(Seq<char>, int)>::empty());
        assert(ks.take(0) =~= Seq::<Seq<char>>::empty());
    } else {
        lemma_paid_prefix(course, price, j - 1);
        assert(ps.take(j).drop_last() =~= ps.take(j - 1));
        assert(ks.take(j).drop_last() =~= ks.take(j - 1));
        assert(ps.take(j).last() == ps[j - 1]);
        assert(ks.take(j).last() == ks[j - 1]);
        let u = course.instructor_id@[ks[j - 1]];
        let before = sum_at(course.instructor_id@, ks.take(j - 1));
        assert(share * (before + u) == share * before + share * u) by (nonlinear_arith);
    }
}

/// What a sale pays its instructors never exceeds the price paid (in
/// yoctoNEAR), where the course's units total at most 10000.
pub proof fn sale_pays_at_most_price(course: CourseMetadata, price: u128)
    requires
        course.instructor_id.key_order().no_duplicates(),
        map_total(course.instructor_id@) <= 10000,
    ensures
        paid_total(sale_payouts(course, price)) <= price * yocto_per_near(),
{
    let ks = course.instructor_id.key_order();
    lemma_paid_prefix(course, price, ks.len() as int);
    assert(ks.take(ks.len() as int) =~= ks);
    assert(sale_payouts(course, price).take(ks.len() as int) =~= sale_payouts(course, price));
    course.instructor_id.lemma_dom_is_key_set();
    lemma_sum_at_is_total(course.instructor_id@, ks);
    let share = (price * yocto_per_near()) / 10000;
    let total = sum_at(course.instructor_id@, ks);
    assert(total >= 0) by {
        lemma_map_total_nonneg(course.instructor_id@);
    }
    assert(share * total <= share * 10000) by (nonlinear_arith)
        requires
            0 <= total <= 10000,
            share >= 0,
    ;
    assert(share * 10000 <= price * yocto_per_near()) by (nonlinear_arith)
        requires
            share == (price * yocto_per_near()) / 10000,
            price * yocto_per_near() >= 0,
    ;
}

/// Replacing a user's record by one with more courses, all of them known,
/// keeps the invariant.
proof fn lemma_user_enrolled(old: &ELearningContract, new: &ELearningContract, u: Seq<char>)
    requires
        old.inv(),
        *new == (ELearningContract { user_metadata_by_id: new.user_metadata_by_id, ..*old }),
        old.user_metadata_by_id@.contains_key(u),
        new.user_metadata_by_id@ == old.user_metadata_by_id@.insert(u, new.user_metadata_by_id@[u]),
        new.user_metadata_by_id@[u].certificate@ == old.user_metadata_by_id@[u].certificate@,
        new.user_metadata_by_id@[u].user_id == old.user_metadata_by_id@[u].user_id,
        all_strings_keyed(new.user_metadata_by_id@[u].courses@, old.course_metadata_by_id@),
    ensures
        new.inv(),
{
    assert(new.user_metadata_by_id@.dom() =~= old.user_metadata_by_id@.dom());
    assert forall|w: Seq<char>| #[trigger] new.user_metadata_by_id@.contains_key(w) implies (
    all_strings_keyed(new.user_metadata_by_id@[w].courses@, new.course_metadata_by_id@)
        && all_strings_keyed(new.user_metadata_by_id@[w].certificate@, new.certificate_metadata_by_id@)
        && new.user_metadata_by_id@[w].user_id@ == w) by {
        assert(old.user_metadata_by_id@.contains_key(w));
    }
    assert forall|i: int| 0 <= i < new.subscriber_users@.len() implies new.user_metadata_by_id@.contains_key(
    #[trigger] new.subscriber_users@[i]) by {
        assert(old.user_metadata_by_id@.contains_key(old.subscriber_users@[i]));
    }
    assert forall|i: int| 0 <= i < new.intructor_users@.len() implies new.user_metadata_by_id@.contains_key(
    #[trigger] new.intructor_users@[i]) by {
        assert(old.user_metadata_by_id@.contains_key(old.intructor_users@[i]));
    }
}

/// A course taught by `k` counts once in a sale of that course alone.
proof fn lemma_teaching_count_one(courses: Map<Seq<char>, CourseMetadata>, c: Seq<char>, k: Seq<char>)
    ensures
        teaching_count(courses, seq![c], k) == if courses[c].instructor_id@.contains_key(k) {
            1nat
        } else {
            0nat
        },
{
    reveal_with_fuel(teaching_count, 2);
    assert(seq![c].drop_last() =~= Seq::<Seq<char>>::empty());
    assert(seq![c].last() == c);
}

/// Sum of the prices of a combo's courses, or `None` where it leaves `u128`.
fn combo_price(courses: &Vec<WrapCombo>) -> (r: Option<u128>)
    ensures
        match r {
            Some(p) => p == combo_total(courses@),
            None => combo_total(courses@) > u128::MAX,
        },
{
    let mut total: u128 = 0;
    let mut i: usize = 0;
    while i < courses.len()
        invariant
            i <= courses.len(),
            total == combo_total(courses@.take(i as int)),
        decreases courses.len() - i,
    {
        assert(courses@.take(i + 1).drop_last() =~= courses@.take(i as int));
        match total.checked_add(courses[i].price) {
            None => {
                proof {
                    lemma_total_prefix(courses@, i + 1);
                }
                return None;
            },
            Some(t) => {
                total = t;
            },
        }
        i = i + 1;
    }
    assert(courses@.take(courses.len() as int) =~= courses@);
    Some(total)
}

/// The price of the course `course_id` in a combo: that of its last entry, or 0.
fn price_of_course(courses: &Vec<WrapCombo>, course_id: &String) -> (p: u128)
    ensures
        p == price_in_combo(courses@, course_id@),
{
    let mut price: u128 = 0;
    let mut i: usize = 0;
    while i < courses.len()
        invariant
            i <= courses.len(),
            price == price_in_combo(courses@.take(i as int), course_id@),
        decreases courses.len() - i,
    {
        assert(courses@.take(i + 1).drop_last() =~= courses@.take(i as int));
        if courses[i].course_id == *course_id {
            price = courses[i].price;
        }
        i = i + 1;
    }
    assert(courses@.take(courses.len() as int) =~= courses@);
    price
}

/// The entries of `hs` whose course did not come earlier, in order.
fn unique_courses(hs: &Vec<WrapComboHash>) -> (r: Vec<WrapComboHash>)
    ensures
        r@ == unique_by_course(hs@),
{
    let mut unique: Vec<WrapComboHash> = Vec::new();
    let mut unique_ids: Vec<String> = Vec::new();
    let mut i: usize = 0;
    while i < hs.len()
        invariant
            i <= hs.len(),
            unique@ == unique_by_course(hs@.take(i as int)),
            views_of(unique_ids@) == views_of(hash_course_ids(unique@)),
        decreases hs.len() - i,
    {
        assert(hs@.take(i + 1).drop_last() =~= hs@.take(i as int));
        let id = &hs[i].course_id;
        let seen = contains_string(&unique_ids, id);
        proof {
            let vs = views_of(unique_ids@);
            if seen {
                let t = choose|t: int| 0 <= t < unique_ids@.len() && #[trigger] unique_ids@[t]@ == id@;
                assert(vs[t] == id@);
            }
            if vs.contains(id@) {
                let t = choose|t: int| 0 <= t < vs.len() && vs[t] == id@;
                assert(unique_ids@[t]@ == id@);
            }
        }
        if !seen {
            let ghost before = unique@;
            unique.push(WrapComboHash { course_id: id.clone(), encode_check: hs[i].encode_check.clone() });
            unique_ids.push(id.clone());
            proof {
                assert(unique@ =~= before.push(hs@[i as int]));
                assert(views_of(hash_course_ids(unique@)) =~= views_of(hash_course_ids(before)).push(id@));
                assert(views_of(unique_ids@) =~= views_of(hash_course_ids(unique@)));
            }
        }
        i = i + 1;
    }
    assert(hs@.take(hs.len() as int) =~= hs@);
    unique
}

impl ELearningContract {
    /// Checks that a sale of `course` at `price` NEAR can pay and count each
    /// instructor: each is registered (else `NotRegistered`), and each payout,
    /// number of students and milestone credit fits (else `ArithmeticOverflow`).
    fn check_sale_instructors(&self, course: &CourseMetadata, price: u128) -> (r: Result<(), ContractError>)
        requires
            price * yocto_per_near() <= u128::MAX,
        ensures
            ({
                let users = self.user_metadata_by_id@;
                let units = course.instructor_id@;
                let registered = instructors_registered(users, *course);
                let fits = payouts_fit(users, *course, price) && forall|k: Seq<char>| #[trigger]
                    units.contains_key(k) ==> users[k].metadata.students + 1 <= u32::MAX;
                &&& r is Ok <==> registered && fits
                &&& r matches Err(e) ==> e == if !registered {
                    ContractError::NotRegistered
                } else {
                    ContractError::ArithmeticOverflow
                }
            }),
    {
        let keys = course.instructor_id.keys();
        let ghost ks = course.instructor_id.key_order();
        let ghost users = self.user_metadata_by_id@;
        let ghost units = course.instructor_id@;
        let mut j: usize = 0;
        while j < keys.len()
            invariant
                j <= keys.len(),
                views_of(keys@) == ks,
                users == self.user_metadata_by_id@,
                units == course.instructor_id@,
                forall|q: Seq<char>| units.contains_key(q) <==> #[trigger] ks.contains(q),
                forall|t: int| 0 <= t < j ==> users.contains_key(#[trigger] ks[t]),
            decreases keys.len() - j,
        {
            proof {
                assert(ks[j as int] == keys@[j as int]@);
            }
            if !self.user_metadata_by_id.contains_key(&keys[j]) {
                proof {
                    assert(ks.contains(ks[j as int]));
                }
                return Err(ContractError::NotRegistered);
            }
            j = j + 1;
        }
        proof {
            assert forall|k: Seq<char>| #[trigger] units.contains_key(k) implies users.contains_key(k) by {
                assert(ks.contains(k));
                let t = choose|t: int| 0 <= t < ks.len() && ks[t] == k;
            }
        }
        let share = convert_to_yocto(price) / 10000;
        let milestone = course.students_studying_map.len() % 5 == 4;
        let mut j: usize = 0;
        while j < keys.len()
            invariant
                j <= keys.len(),
                views_of(keys@) == ks,
                users == self.user_metadata_by_id@,
                units == course.instructor_id@,
                forall|q: Seq<char>| units.contains_key(q) <==> #[trigger] ks.contains(q),
                instructors_registered(users, *course),
                share == (price * yocto_per_near()) / 10000,
                milestone == milestone_sale(*course),
                forall|t: int| 0 <= t < j ==> {
                    let k = #[trigger] ks[t];
                    &&& payout(price, units[k]) <= u128::MAX
                    &&& (milestone ==> users[k].metadata.total_credit + 1 <= u32::MAX)
                    &&& users[k].metadata.students + 1 <= u32::MAX
                },
            decreases keys.len() - j,
        {
            let k = &keys[j];
            proof {
                assert(ks[j as int] == k@);
                assert(ks.contains(k@));
            }
            let user = self.user_metadata_by_id.get(k).unwrap();
            let units_k = *course.instructor_id.get(k).unwrap();
            if user.metadata.students == u32::MAX {
                return Err(ContractError::ArithmeticOverflow);
            }
            if milestone && user.metadata.total_credit == u32::MAX {
                return Err(ContractError::ArithmeticOverflow);
            }
            if share.checked_mul(units_k as u128).is_none() {
                return Err(ContractError::ArithmeticOverflow);
            }
            j = j + 1;
        }
        proof {
            assert forall|k: Seq<char>| #[trigger] units.contains_key(k) implies payout(price, units[k]) <= u128::MAX
                && (milestone_sale(*course) ==> users[k].metadata.total_credit + 1 <= u32::MAX)
                && users[k].metadata.students + 1 <= u32::MAX by {
                assert(ks.contains(k));
                let t = choose|t: int| 0 <= t < ks.len() && ks[t] == k;
            }
        }
        Ok(())
    }

    /// How many of the courses bought in `items` have `k` among their instructors.
    fn count_taught(&self, items: &Vec<WrapComboHash>, k: &String) -> (n: usize)
        requires
            forall|t: int| 0 <= t < items@.len() ==> self.course_metadata_by_id@.contains_key(#[trigger] items@[t].course_id@),
        ensures
            n == teaching_count(self.course_metadata_by_id@, views_of(hash_course_ids(items@)), k@),
    {
        let ghost cs = views_of(hash_course_ids(items@));
        let mut n: usize = 0;
        let mut i: usize = 0;
        while i < items.len()
            invariant
                i <= items.len(),
                cs == views_of(hash_course_ids(items@)),
                forall|t: int| 0 <= t < items@.len() ==> self.course_metadata_by_id@.contains_key(#[trigger] items@[t].course_id@),
                n <= i,
                n == teaching_count(self.course_metadata_by_id@, cs.take(i as int), k@),
            decreases items.len() - i,
        {
            assert(cs.take(i + 1).drop_last() =~= cs.take(i as int));
            assert(cs[i as int] == items@[i as int].course_id@);
            let course = self.course_metadata_by_id.get(&items[i].course_id).unwrap();
            if course.instructor_id.contains_key(k) {
                n = n + 1;
            }
            i = i + 1;
        }
        assert(cs.take(items.len() as int) =~= cs);
        n
    }

    /// Checks that every user's number of students still fits in `u32` after
    /// the courses of `items` are sold (else `ArithmeticOverflow`).
    fn check_students_fit(&self, items: &Vec<WrapComboHash>) -> (r: Result<(), ContractError>)
        requires
            forall|t: int| 0 <= t < items@.len() ==> self.course_metadata_by_id@.contains_key(#[trigger] items@[t].course_id@),
            forall|t: int| 0 <= t < items@.len() ==> instructors_registered(
                self.user_metadata_by_id@,
                self.course_metadata_by_id@[#[trigger] items@[t].course_id@],
            ),
        ensures
            r is Ok <==> students_fit(self.user_metadata_by_id@, self.course_metadata_by_id@, views_of(hash_course_ids(items@))),
            r matches Err(e) ==> e == ContractError::ArithmeticOverflow,
    {
        let ghost cs = views_of(hash_course_ids(items@));
        let ghost users = self.user_metadata_by_id@;
        let ghost courses = self.course_metadata_by_id@;
        let mut i: usize = 0;
        while i < items.len()
            invariant
                i <= items.len(),
                cs == views_of(hash_course_ids(items@)),
                users == self.user_metadata_by_id@,
                courses == self.course_metadata_by_id@,
                forall|t: int| 0 <= t < items@.len() ==> courses.contains_key(#[trigger] items@[t].course_id@),
                forall|t: int| 0 <= t < items@.len() ==> instructors_registered(users, courses[#[trigger] items@[t].course_id@]),
                forall|t: int, k: Seq<char>| 0 <= t < i && #[trigger] courses[cs[t]].instructor_id@.contains_key(k)
                    ==> users[k].metadata.students + teaching_count(courses, cs, k) <= u32::MAX,
            decreases items.len() - i,
        {
            assert(cs[i as int] == items@[i as int].course_id@);
            let course = self.course_metadata_by_id.get(&items[i].course_id).unwrap();
            let keys = course.instructor_id.keys();
            let ghost ks = course.instructor_id.key_order();
            let mut j: usize = 0;
            while j < keys.len()
                invariant
                    j <= keys.len(),
                    i < items.len(),
                    cs == views_of(hash_course_ids(items@)),
                    users == self.user_metadata_by_id@,
                    courses == self.course_metadata_by_id@,
                    *course == courses[cs[i as int]],
                    views_of(keys@) == ks,
                    forall|q: Seq<char>| course.instructor_id@.contains_key(q) <==> #[trigger] ks.contains(q),
                    forall|t: int| 0 <= t < items@.len() ==> courses.contains_key(#[trigger] items@[t].course_id@),
                    forall|t: int| 0 <= t < items@.len() ==> instructors_registered(users, courses[#[trigger] items@[t].course_id@]),
                    forall|t: int| 0 <= t < j ==> users[#[trigger] ks[t]].metadata.students + teaching_count(courses, cs, ks[t])
                        <= u32::MAX,
                decreases keys.len() - j,
            {
                let k = &keys[j];
                proof {
                    assert(ks[j as int] == k@);
                    assert(ks.contains(k@));
                    assert(instructors_registered(users, courses[items@[i as int].course_id@]));
                    assert(users.contains_key(k@));
                }
                let n = self.count_taught(items, k);
                let students = self.user_metadata_by_id.get(k).unwrap().metadata.students;
                if n > (u32::MAX - students) as usize {
                    return Err(ContractError::ArithmeticOverflow);
                }
                j = j + 1;
            }
            proof {
                assert forall|t: int, k: Seq<char>| 0 <= t < i + 1 && #[trigger] courses[cs[t]].instructor_id@.contains_key(k)
                    implies users[k].metadata.students + teaching_count(courses, cs, k) <= u32::MAX by {
                    if t == i {
                        assert(ks.contains(k));
                        let q = choose|q: int| 0 <= q < ks.len() && ks[q] == k;
                    }
                }
            }
            i = i + 1;
        }
        proof {
            assert forall|k: Seq<char>| #[trigger] users.contains_key(k) implies users[k].metadata.students + teaching_count(courses, cs, k)
                <= u32::MAX by {
                if teaching_count(courses, cs, k) > 0 {
                    lemma_teaching_count_witness(courses, cs, k);
                }
            }
        }
        Ok(())
    }

    /// Sells the course at `price` NEAR to the signer, who gives the hash
    /// `encode_check`: each instructor gains a student and is paid its share
    /// of the price (returned, in key order, as transfers), the signer gets
    /// the course and studies it with that hash. Refused where the course is
    /// unknown, an instructor or the signer is not registered, or an amount
    /// leaves its integer type.
    pub fn internal_tranfer_course(
        &mut self,
        ctx: &CallContext,
        course_id: String,
        price: u128,
        encode_check: String,
    ) -> (r: Result<Vec<Transfer>, ContractError>)
        requires
            old(self).inv(),
        ensures
            final(self).inv(),
            ({
                let users = old(self).user_metadata_by_id@;
                let courses = old(self).course_metadata_by_id@;
                let blocked = sale_error(users, courses, course_id@, price);
                &&& r is Ok <==> blocked is None && users.contains_key(ctx.signer@)
                &&& r matches Err(e) ==> *final(self) == *old(self) && e == match blocked {
                    Some(b) => b,
                    None => ContractError::NotRegistered,
                }
                &&& r matches Ok(ts) ==> sales_done(*old(self), *final(self), ctx.signer@, seq![course_id], seq![encode_check])
                    && ts@.map_values(|t: Transfer| transfer_view(t)) == sale_payouts(courses[course_id@], price)
            }),
    {
        let ghost s0 = *self;
        let ghost users0 = self.user_metadata_by_id@;
        let ghost courses0 = self.course_metadata_by_id@;
        let ghost c = course_id@;
        let course = match self.course_metadata_by_id.get(&course_id) {
            None => {
                return Err(ContractError::CourseMissing);
            },
            Some(course) => course,
        };
        if !fits_in_yocto(price) {
            return Err(ContractError::ArithmeticOverflow);
        }
        match self.check_sale_instructors(course, price) {
            Err(e) => {
                proof {
                    if instructors_registered(users0, *course) {
                        assert(!(payouts_fit(users0, *course, price) && students_fit(users0, courses0, seq![c]))) by {
                            if payouts_fit(users0, *course, price) && students_fit(users0, courses0, seq![c]) {
                                assert forall|k: Seq<char>| #[trigger] course.instructor_id@.contains_key(k) implies users0[k].metadata.students + 1 <= u32::MAX by {
                                    lemma_teaching_count_one(courses0, c, k);
                                    assert(users0.contains_key(k));
                                }
                            }
                        }
                    }
                }
                return Err(e);
            },
            Ok(()) => {},
        }
        proof {
            assert forall|k: Seq<char>| #[trigger] users0.contains_key(k) implies users0[k].metadata.students + teaching_count(courses0, seq![c], k) <= u32::MAX by {
                lemma_teaching_count_one(courses0, c, k);
            }
        }
        let buyer = &ctx.signer;
        if !self.user_metadata_by_id.contains_key(buyer) {
            return Err(ContractError::NotRegistered);
        }
        let keys = course.instructor_id.keys();
        let ghost ks = course.instructor_id.key_order();
        let ghost course0 = *course;
        let share = convert_to_yocto(price) / 10000;
        let mut transfers: Vec<Transfer> = Vec::new();
        let mut j: usize = 0;
        while j < keys.len()
            invariant
                j <= keys.len(),
                s0.inv(),
                self.inv(),
                *self == (ELearningContract { user_metadata_by_id: self.user_metadata_by_id, ..s0 }),
                users0 == s0.user_metadata_by_id@,
                courses0 == s0.course_metadata_by_id@,
                c == course_id@,
                courses0.contains_key(c),
                course0 == courses0[c],
                views_of(keys@) == ks,
                ks == course0.instructor_id.key_order(),
                ks.no_duplicates(),
                forall|q: Seq<char>| course0.instructor_id@.contains_key(q) <==> #[trigger] ks.contains(q),
                instructors_registered(users0, course0),
                payouts_fit(users0, course0, price),
                forall|k: Seq<char>| #[trigger] course0.instructor_id@.contains_key(k) ==> users0[k].metadata.students + 1 <= u32::MAX,
                share == (price * yocto_per_near()) / 10000,
                self.user_metadata_by_id@ == Map::new(
                    |q: Seq<char>| users0.contains_key(q),
                    |q: Seq<char>| if ks.take(j as int).contains(q) {
                        with_students(users0[q], 1)
                    } else {
                        users0[q]
                    },
                ),
                transfers@.map_values(|t: Transfer| transfer_view(t)) == sale_payouts(course0, price).take(j as int),
            decreases keys.len() - j,
        {
            let k = &keys[j];
            proof {
                assert(ks[j as int] == k@);
                assert(ks.contains(k@));
                assert(!ks.take(j as int).contains(k@)) by {
                    if ks.take(j as int).contains(k@) {
                        let t = choose|t: int| 0 <= t < j && ks.take(j as int)[t] == k@;
                        assert(ks[t] == ks[j as int]);
                    }
                }
            }
            let units_k = *self.course_metadata_by_id.get(&course_id).unwrap().instructor_id.get(k).unwrap();
            let ghost prev = *self;
            let mut owner = self.user_metadata_by_id.remove(k).unwrap();
            owner.metadata.students = owner.metadata.students + 1;
            self.user_metadata_by_id.insert(k.clone(), owner);
            proof {
                assert(self.user_metadata_by_id@ =~= prev.user_metadata_by_id@.insert(k@, self.user_metadata_by_id@[k@]));
                Self::lemma_user_replaced(&prev, self, k@);
            }
            let amount = share * (units_k as u128);
            transfers.push(Transfer { receiver: k.clone(), amount });
            j = j + 1;
            proof {
                let ts = ks.take(j as int);
                assert forall|q: Seq<char>| #[trigger] ts.contains(q) == (ks.take(j - 1).contains(q) || q == k@) by {
                    if ts.contains(q) && q != k@ {
                        let t = choose|t: int| 0 <= t < j && #[trigger] ts[t] == q;
                        assert(t < j - 1);
                        assert(ks.take(j - 1)[t] == q);
                    }
                    if ks.take(j - 1).contains(q) {
                        let t = choose|t: int| 0 <= t < j - 1 && #[trigger] ks.take(j - 1)[t] == q;
                        assert(ts[t] == q);
                    }
                    if q == k@ {
                        assert(ts[j - 1] == q);
                    }
                }
                assert(self.user_metadata_by_id@ =~= Map::new(
                    |q: Seq<char>| users0.contains_key(q),
                    |q: Seq<char>| if ts.contains(q) {
                        with_students(users0[q], 1)
                    } else {
                        users0[q]
                    },
                ));
                assert(sale_payouts(course0, price).take(j as int) =~= sale_payouts(course0, price).take(j - 1).push(
                    (k@, payout(price, course0.instructor_id@[k@])),
                ));
                assert(transfers@.map_values(|t: Transfer| transfer_view(t)) =~= sale_payouts(course0, price).take(j as int));
            }
        }
        proof {
            assert(ks.take(keys.len() as int) =~= ks);
            assert(sale_payouts(course0, price).take(keys.len() as int) =~= sale_payouts(course0, price));
        }
        let ghost s1 = *self;
        let mut student = self.user_metadata_by_id.remove(buyer).unwrap();
        student.courses.push(course_id.clone());
        self.user_metadata_by_id.insert(buyer.clone(), student);
        proof {
            let nus = self.user_metadata_by_id@;
            assert(nus =~= s1.user_metadata_by_id@.insert(buyer@, nus[buyer@]));
            let cs = nus[buyer@].courses@;
            assert(all_strings_keyed(s1.user_metadata_by_id@[buyer@].courses@, courses0));
            assert forall|i: int| 0 <= i < cs.len() implies courses0.contains_key(#[trigger] cs[i]@) by {
                if i < cs.len() - 1 {
                    assert(cs[i] == s1.user_metadata_by_id@[buyer@].courses@[i]);
                }
            }
            lemma_user_enrolled(&s1, self, buyer@);
        }
        let ghost s2 = *self;
        let mut sold = self.course_metadata_by_id.remove(&course_id).unwrap();
        sold.students_studying_map.insert(buyer.clone(), encode_check);
        self.course_metadata_by_id.insert(course_id, sold);
        proof {
            let ncs = self.course_metadata_by_id@;
            assert(ncs =~= s2.course_metadata_by_id@.insert(c, ncs[c]));
            self.lemma_course_replaced(&s2, c);
            let ids = seq![course_id];
            let cs = views_of(ids);
            assert(cs =~= seq![c]);
            assert(cs.contains(c)) by {
                assert(cs[0] == c);
            }
            assert(hash_for(cs, seq![encode_check], c) == encode_check);
            assert forall|q: Seq<char>| #[trigger] ncs.contains_key(q) && q != c implies !cs.contains(q) by {
                if cs.contains(q) {
                    let t = choose|t: int| 0 <= t < cs.len() && cs[t] == q;
                }
            }
            let ous = users0;
            let nus = self.user_metadata_by_id@;
            assert(nus.dom() =~= ous.dom());
            assert forall|k: Seq<char>| #[trigger] nus.contains_key(k) implies nus[k] == (JsonUser {
                courses: nus[k].courses,
                ..with_students(ous[k], teaching_count(courses0, cs, k))
            }) && nus[k].courses@ == if k == buyer@ {
                ous[k].courses@ + ids
            } else {
                ous[k].courses@
            } by {
                lemma_teaching_count_one(courses0, c, k);
                assert(ks.take(keys.len() as int) =~= ks);
                if course0.instructor_id@.contains_key(k) {
                    assert(ks.contains(k));
                } else {
                    assert(!ks.contains(k));
                }
                if k == buyer@ {
                    assert(nus[k].courses@ =~= ous[k].courses@ + ids);
                }
            }
            assert(ncs.dom() =~= courses0.dom());
        }
        Ok(transfers)
    }

    /// The signer buys the course, attaching a deposit that covers its price,
    /// and gives the hash `encode_check`; the sale goes as in
    /// `internal_tranfer_course`. Refused where the course is unknown, the
    /// signer is not registered or already has the course, or the deposit is
    /// too low.
    pub fn payment_course(&mut self, ctx: &CallContext, course_id: String, encode_check: String) -> (r: Result<
        Vec<Transfer>,
        ContractError,
    >)
        requires
            old(self).inv(),
        ensures
            final(self).inv(),
            ({
                let users = old(self).user_metadata_by_id@;
                let courses = old(self).course_metadata_by_id@;
                let c = course_id@;
                let course = courses[c];
                let buyer = ctx.signer@;
                let known = courses.contains_key(c);
                let registered = users.contains_key(buyer);
                let owned = course.students_studying_map@.contains_key(buyer)
                    || course.students_completed@.contains_key(buyer);
                let yocto_fits = course.price * yocto_per_near() <= u128::MAX;
                let covered = ctx.attached_deposit >= course.price * yocto_per_near();
                let blocked = sale_error(users, courses, c, course.price);
                &&& r is Ok <==> known && registered && !owned && yocto_fits && covered && blocked is None
                &&& r matches Err(e) ==> *final(self) == *old(self) && e == if !known {
                    ContractError::CourseMissing
                } else if !registered {
                    ContractError::NotRegistered
                } else if owned {
                    ContractError::CourseAlreadyOwned
                } else if !yocto_fits {
                    ContractError::ArithmeticOverflow
                } else if !covered {
                    ContractError::DepositTooLow
                } else {
                    blocked.unwrap()
                }
                &&& r matches Ok(ts) ==> sales_done(*old(self), *final(self), buyer, seq![course_id], seq![encode_check])
                    && ts@.map_values(|t: Transfer| transfer_view(t)) == sale_payouts(course, course.price)
            }),
    {
        let user_id = &ctx.signer;
        if !self.internal_check_course_exits(&course_id) {
            return Err(ContractError::CourseMissing);
        }
        if !self.internal_check_user_has_register(user_id) {
            return Err(ContractError::NotRegistered);
        }
        let price = self.course_metadata_by_id.get(&course_id).unwrap().price;
        if !self.internal_check_subscriber_has_course(user_id, &course_id) {
            return Err(ContractError::CourseAlreadyOwned);
        }
        if !fits_in_yocto(price) {
            return Err(ContractError::ArithmeticOverflow);
        }
        if ctx.attached_deposit < convert_to_yocto(price) {
            return Err(ContractError::DepositTooLow);
        }
        self.internal_tranfer_course(ctx, course_id, price, encode_check)
    }

    /// The signer buys an active combo, attaching a deposit that covers the
    /// sum of its prices and giving a hash for each course (`combo_hash`).
    /// Each course named there is sold once (the first hash given for it
    /// counts), at its price in the combo, as in `internal_tranfer_course`;
    /// the transfers of all the sales are returned in order. Refused where
    /// the combo is unknown or inactive, a named course is not in it, an
    /// amount leaves its integer type, the deposit is too low, the number of
    /// courses named differs from the number of enabled courses, or a sale
    /// cannot go through.
    #[verifier::rlimit(80)]
    pub fn payment_combo(&mut self, ctx: &CallContext, combo_id: String, combo_hash: Vec<WrapComboHash>) -> (r:
        Result<Vec<Transfer>, ContractError>)
        requires
            old(self).inv(),
        ensures
            final(self).inv(),
            ({
                let users = old(self).user_metadata_by_id@;
                let courses = old(self).course_metadata_by_id@;
                let combos = old(self).combo_metadata_by_combo_id@;
                let combo = combos[combo_id@];
                let buyer = ctx.signer@;
                let known = combos.contains_key(combo_id@);
                let active = combo.combo_state == ComboState::ACTIVE;
                let in_combo = forall|i: int| 0 <= i < combo_hash@.len() ==> combo_has_course(
                    combo.courses@,
                    #[trigger] combo_hash@[i].course_id@,
                );
                let total = combo_total(combo.courses@);
                let yocto_fits = total * yocto_per_near() <= u128::MAX;
                let covered = ctx.attached_deposit >= total * yocto_per_near();
                let items = unique_by_course(combo_hash@);
                let all_enabled = combo.enable_course@.len() == items.len();
                let blocked = first_sale_error(users, courses, combo.courses@, items);
                let cs = views_of(hash_course_ids(items));
                let counted = students_fit(users, courses, cs);
                let buyer_known = items.len() > 0 ==> users.contains_key(buyer);
                &&& r is Ok <==> known && active && in_combo && yocto_fits && covered && all_enabled && blocked is None
                    && counted && buyer_known
                &&& r matches Err(e) ==> *final(self) == *old(self) && e == if !known {
                    ContractError::ComboMissing
                } else if !active {
                    ContractError::ComboInactive
                } else if !in_combo {
                    ContractError::CourseNotInCombo
                } else if !yocto_fits {
                    ContractError::ArithmeticOverflow
                } else if !covered {
                    ContractError::DepositTooLow
                } else if !all_enabled {
                    ContractError::ComboCoursesDuplicated
                } else if blocked is Some {
                    blocked.unwrap()
                } else if !counted {
                    ContractError::ArithmeticOverflow
                } else {
                    ContractError::NotRegistered
                }
                &&& r matches Ok(ts) ==> sales_done(*old(self), *final(self), buyer, hash_course_ids(items), hash_codes(items))
                    && ts@.map_values(|t: Transfer| transfer_view(t)) == combo_payouts(courses, combo.courses@, items)
            }),
    {
        if !self.check_combo_existence(&combo_id) {
            return Err(ContractError::ComboMissing);
        }
        if self.check_combo_state(&combo_id) != ComboState::ACTIVE {
            return Err(ContractError::ComboInactive);
        }
        let ghost combo0 = self.combo_metadata_by_combo_id@[combo_id@];
        let mut i: usize = 0;
        while i < combo_hash.len()
            invariant
                i <= combo_hash.len(),
                *self == *old(self),
                self.inv(),
                self.combo_metadata_by_combo_id@.contains_key(combo_id@),
                combo0 == self.combo_metadata_by_combo_id@[combo_id@],
                combo0.combo_state == ComboState::ACTIVE,
                forall|t: int| 0 <= t < i ==> combo_has_course(combo0.courses@, #[trigger] combo_hash@[t].course_id@),
            decreases combo_hash.len() - i,
        {
            if !self.check_course_in_combo(&combo_id, &combo_hash[i].course_id) {
                return Err(ContractError::CourseNotInCombo);
            }
            i = i + 1;
        }
        let combo = self.combo_metadata_by_combo_id.get(&combo_id).unwrap();
        let combo_total_price = match combo_price(&combo.courses) {
            None => {
                return Err(ContractError::ArithmeticOverflow);
            },
            Some(p) => p,
        };
        if !fits_in_yocto(combo_total_price) {
            return Err(ContractError::ArithmeticOverflow);
        }
        if ctx.attached_deposit < convert_to_yocto(combo_total_price) {
            return Err(ContractError::DepositTooLow);
        }
        let unique_course = unique_courses(&combo_hash);
        if combo.enable_course.len() != unique_course.len() {
            return Err(ContractError::ComboCoursesDuplicated);
        }
        let ghost users0 = self.user_metadata_by_id@;
        let ghost courses0 = self.course_metadata_by_id@;
        let ghost items = unique_course@;
        let ghost cs = views_of(hash_course_ids(items));
        let mut prices: Vec<u128> = Vec::new();
        let mut i: usize = 0;
        while i < unique_course.len()
            invariant
                i <= unique_course.len(),
                items == unique_course@,
                *self == *old(self),
                self.inv(),
                users0 == self.user_metadata_by_id@,
                courses0 == self.course_metadata_by_id@,
                self.combo_metadata_by_combo_id@.contains_key(combo_id@),
                combo0 == self.combo_metadata_by_combo_id@[combo_id@],
                *combo == combo0,
                combo0.combo_state == ComboState::ACTIVE,
                forall|t: int| 0 <= t < combo_hash@.len() ==> combo_has_course(combo0.courses@, #[trigger] combo_hash@[t].course_id@),
                items == unique_by_course(combo_hash@),
                combo0.enable_course@.len() == items.len(),
                combo_total(combo0.courses@) * yocto_per_near() <= u128::MAX,
                ctx.attached_deposit >= combo_total(combo0.courses@) * yocto_per_near(),
                prices@.len() == i,
                forall|t: int| 0 <= t < i ==> #[trigger] prices@[t] == price_in_combo(combo0.courses@, items[t].course_id@),
                first_sale_error(users0, courses0, combo0.courses@, items.take(i as int)) is None,
            decreases unique_course.len() - i,
        {
            assert(items.take(i + 1).drop_last() =~= items.take(i as int));
            let id = &unique_course[i].course_id;
            let price = price_of_course(&combo.courses, id);
            proof {
                lemma_price_in_total(combo0.courses@, id@);
                lemma_total_nonneg(combo0.courses@);
                assert(price * yocto_per_near() <= combo_total(combo0.courses@) * yocto_per_near()) by (nonlinear_arith)
                    requires
                        price <= combo_total(combo0.courses@),
                        0 <= price,
                        yocto_per_near() > 0,
                {
                }
            }
            let course = match self.course_metadata_by_id.get(id) {
                None => {
                    proof {
                        assert(items.take(i + 1).last() == items[i as int]);
                        lemma_first_sale_error_prefix(users0, courses0, combo0.courses@, items, i + 1);
                    }
                    return Err(ContractError::CourseMissing);
                },
                Some(course) => course,
            };
            match self.check_sale_instructors(course, price) {
                Err(e) => {
                    proof {
                        if instructors_registered(users0, *course) && payouts_fit(users0, *course, price) && students_fit(
                            users0,
                            courses0,
                            seq![id@],
                        ) {
                            assert forall|k: Seq<char>| #[trigger] course.instructor_id@.contains_key(k) implies users0[k].metadata.students
                                + 1 <= u32::MAX by {
                                lemma_teaching_count_one(courses0, id@, k);
                                assert(users0.contains_key(k));
                            }
                        }
                        assert(items.take(i + 1).last() == items[i as int]);
                        lemma_first_sale_error_prefix(users0, courses0, combo0.courses@, items, i + 1);
                    }
                    return Err(e);
                },
                Ok(()) => {},
            }
            proof {
                assert forall|k: Seq<char>| #[trigger] users0.contains_key(k) implies users0[k].metadata.students + teaching_count(
                    courses0,
                    seq![id@],
                    k,
                ) <= u32::MAX by {
                    lemma_teaching_count_one(courses0, id@, k);
                }
            }
            prices.push(price);
            i = i + 1;
        }
        assert(items.take(items.len() as int) =~= items);
        proof {
            assert forall|t: int| 0 <= t < items.len() implies courses0.contains_key(#[trigger] items[t].course_id@)
                && instructors_registered(users0, courses0[items[t].course_id@]) by {
                lemma_first_sale_error_none(users0, courses0, combo0.courses@, items, t);
            }
        }
        self.check_students_fit(&unique_course)?;
        if unique_course.len() > 0 && !self.user_metadata_by_id.contains_key(&ctx.signer) {
            return Err(ContractError::NotRegistered);
        }
        let ghost s0 = *self;
        let ghost ids = hash_course_ids(items);
        let ghost codes = hash_codes(items);
        proof {
            lemma_unique_distinct(combo_hash@);
            assert(views_of(ids.take(0)) =~= Seq::<Seq<char>>::empty());
            assert(self.user_metadata_by_id@ =~= Map::new(
                |k: Seq<char>| users0.contains_key(k),
                |k: Seq<char>| users0[k],
            ));
        }
        let mut all_transfers: Vec<Transfer> = Vec::new();
        let mut j: usize = 0;
        while j < unique_course.len()
            invariant
                j <= unique_course.len(),
                items == unique_course@,
                ids == hash_course_ids(items),
                codes == hash_codes(items),
                cs == views_of(ids),
                cs.no_duplicates(),
                s0.inv(),
                self.inv(),
                users0 == s0.user_metadata_by_id@,
                courses0 == s0.course_metadata_by_id@,
                prices@.len() == items.len(),
                forall|t: int| 0 <= t < items.len() ==> #[trigger] prices@[t] == price_in_combo(combo0.courses@, items[t].course_id@),
                first_sale_error(users0, courses0, combo0.courses@, items) is None,
                students_fit(users0, courses0, cs),
                items.len() > 0 ==> users0.contains_key(ctx.signer@),
                sales_done(s0, *self, ctx.signer@, ids.take(j as int), codes.take(j as int)),
                all_transfers@.map_values(|t: Transfer| transfer_view(t)) == combo_payouts(courses0, combo0.courses@, items.take(j as int)),
            decreases unique_course.len() - j,
        {
            let ghost prev = *self;
            let ghost c = items[j as int].course_id@;
            let ghost id_j = items[j as int].course_id;
            proof {
                lemma_first_sale_error_none(users0, courses0, combo0.courses@, items, j as int);
                assert(views_of(ids.take(j as int)).push(c) =~= cs.take(j + 1));
                assert(!views_of(ids.take(j as int)).contains(c)) by {
                    if views_of(ids.take(j as int)).contains(c) {
                        let t = choose|t: int| 0 <= t < j && views_of(ids.take(j as int))[t] == c;
                        assert(cs[t] == cs[j as int]);
                    }
                }
                assert forall|k: Seq<char>| #[trigger] users0.contains_key(k) implies users0[k].metadata.students + teaching_count(
                    courses0,
                    views_of(ids.take(j as int)).push(c),
                    k,
                ) <= u32::MAX by {
                    lemma_teaching_count_prefix(courses0, cs, j + 1, k);
                }
                lemma_sale_still_possible(s0, prev, ctx.signer@, ids.take(j as int), codes.take(j as int), c, prices@[j as int]);
                assert(prev.user_metadata_by_id@.dom() == users0.dom());
            }
            let item = &unique_course[j];
            match self.internal_tranfer_course(ctx, item.course_id.clone(), prices[j], item.encode_check.clone()) {
                Err(e) => {
                    proof {
                        assert(false);
                    }
                    return Err(e);
                },
                Ok(mut ts) => {
                    proof {
                        assert(ids.take(j as int).push(id_j) =~= ids.take(j + 1));
                        assert(codes.take(j as int).push(items[j as int].encode_check) =~= codes.take(j + 1));
                        assert forall|k: Seq<char>| #[trigger] users0.contains_key(k) implies users0[k].metadata.students
                            + teaching_count(courses0, views_of(ids.take(j as int).push(id_j)), k) <= u32::MAX by {
                            assert(views_of(ids.take(j as int).push(id_j)) =~= cs.take(j + 1));
                            lemma_teaching_count_prefix(courses0, cs, j + 1, k);
                        }
                        lemma_sales_compose(
                            s0,
                            prev,
                            *self,
                            ctx.signer@,
                            ids.take(j as int),
                            codes.take(j as int),
                            id_j,
                            items[j as int].encode_check,
                        );
                        assert(items.take(j + 1).drop_last() =~= items.take(j as int));
                        assert(sale_payouts(prev.course_metadata_by_id@[c], prices@[j as int]) == sale_payouts(
                            courses0[c],
                            prices@[j as int],
                        ));
                    }
                    all_transfers.append(&mut ts);
                },
            }
            j = j + 1;
        }
        proof {
            assert(ids.take(items.len() as int) =~= ids);
            assert(codes.take(items.len() as int) =~= codes);
            assert(items.take(items.len() as int) =~= items);
        }
        Ok(all_transfers)
    }
}

} // verus!
