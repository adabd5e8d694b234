//! Totals of a course's units: a new course gives its creator all 10000;
//! letting an instructor in and transferring units move units between
//! instructors without creating or destroying any; letting one out loses
//! only what the leaving instructor had agreed to give up themselves.
use vstd::prelude::*;

use crate::collab::{sum_at, sum_of_values, units_after_add, units_after_remove};
use crate::collections::StrMap;
use crate::courses::new_course_record;
use crate::models::CourseMetadata;

verus! {

/// Total of the values of a finite map, in no particular order.
pub open spec fn map_total(m: Map<Seq<char>, u32>) -> int
    decreases m.dom().len(),
    when m.dom().finite()
{
    if m.dom().len() == 0 {
        0
    } else {
        let k = m.dom().choose();
        m[k] + map_total(m.remove(k))
    }
}

/// A total of counts is not negative.
pub proof fn lemma_map_total_nonneg(m: Map<Seq<char>, u32>)
    requires
        m.dom().finite(),
    ensures
        map_total(m) >= 0,
    decreases m.dom().len(),
{
    if m.dom().len() > 0 {
        let k = m.dom().choose();
        assert(m.dom().contains(k));
        lemma_map_total_nonneg(m.remove(k));
    }
}

/// Any key can be taken out first.
pub proof fn lemma_map_total_remove(m: Map<Seq<char>, u32>, k: Seq<char>)
    requires
        m.dom().finite(),
        m.contains_key(k),
    ensures
        map_total(m) == m[k] + map_total(m.remove(k)),
    decreases m.dom().len(),
{
    let c = m.dom().choose();
    assert(m.dom().contains(c));
    if c != k {
        lemma_map_total_remove(m.remove(c), k);
        lemma_map_total_remove(m.remove(k), c);
        assert(m.remove(c).remove(k) =~= m.remove(k).remove(c));
    }
}

/// Storing `v` under `k` changes the total by the difference.
pub proof fn lemma_map_total_insert(m: Map<Seq<char>, u32>, k: Seq<char>, v: u32)
    requires
        m.dom().finite(),
    ensures
        map_total(m.insert(k, v)) == map_total(m) - (if m.contains_key(k) {
            m[k] as int
        } else {
            0
        }) + v,
{
    let n = m.insert(k, v);
    lemma_map_total_remove(n, k);
    if m.contains_key(k) {
        lemma_map_total_remove(m, k);
        assert(n.remove(k) =~= m.remove(k));
    } else {
        assert(n.remove(k) =~= m);
    }
}

/// A map whose every value is at most the value of the same key in `m`
/// totals at most `m`'s total.
pub proof fn lemma_map_total_le(c: Map<Seq<char>, u32>, m: Map<Seq<char>, u32>)
    requires
        c.dom().finite(),
        m.dom().finite(),
        forall|k: Seq<char>| #[trigger] c.contains_key(k) ==> m.contains_key(k) && c[k] <= m[k],
    ensures
        map_total(c) <= map_total(m),
    decreases c.dom().len(),
{
    if c.dom().len() == 0 {
        lemma_map_total_nonneg(m);
    } else {
        let k = c.dom().choose();
        assert(c.contains_key(k));
        lemma_map_total_remove(c, k);
        lemma_map_total_remove(m, k);
        lemma_map_total_le(c.remove(k), m.remove(k));
    }
}

/// Two different keys hold no more than the whole total.
pub proof fn lemma_map_total_two(m: Map<Seq<char>, u32>, a: Seq<char>, b: Seq<char>)
    requires
        m.dom().finite(),
        m.contains_key(a),
        m.contains_key(b),
        a != b,
    ensures
        m[a] + m[b] <= map_total(m),
{
    lemma_map_total_remove(m, a);
    lemma_map_total_remove(m.remove(a), b);
    lemma_map_total_nonneg(m.remove(a).remove(b));
}

/// One key holds no more than the whole total.
pub proof fn lemma_map_total_one(m: Map<Seq<char>, u32>, a: Seq<char>)
    requires
        m.dom().finite(),
        m.contains_key(a),
    ensures
        m[a] <= map_total(m),
{
    lemma_map_total_remove(m, a);
    lemma_map_total_nonneg(m.remove(a));
}

/// Summing a map over its keys, each once, gives its total.
pub proof fn lemma_sum_at_is_total(m: Map<Seq<char>, u32>, ks: Seq<Seq<char>>)
    requires
        ks.no_duplicates(),
        forall|q: Seq<char>| m.contains_key(q) <==> #[trigger] ks.contains(q),
    ensures
        m.dom().finite(),
        sum_at(m, ks) == map_total(m),
    decreases ks.len(),
{
    assert(m.dom() =~= ks.to_set());
    vstd::seq_lib::seq_to_set_is_finite(ks);
    if ks.len() == 0 {
        assert(m.dom() =~= Set::<Seq<char>>::empty());
    } else {
        let k = ks.last();
        let d = ks.drop_last();
        assert(ks[ks.len() - 1] == k);
        assert(!d.contains(k)) by {
            if d.contains(k) {
                let t = choose|t: int| 0 <= t < d.len() && d[t] == k;
                assert(ks[t] == ks[ks.len() - 1]);
            }
        }
        assert forall|q: Seq<char>| m.remove(k).contains_key(q) <==> #[trigger] d.contains(q) by {
            vstd::seq_lib::lemma_seq_contains_after_push(d, k, q);
            assert(d.push(k) =~= ks);
        }
        lemma_sum_at_is_total(m.remove(k), d);
        lemma_sum_at_agree(m, m.remove(k), d);
        lemma_map_total_remove(m, k);
    }
}

/// A sum of counts is not negative.
proof fn lemma_sum_at_nonneg(m: Map<Seq<char>, u32>, ks: Seq<Seq<char>>)
    ensures
        sum_at(m, ks) >= 0,
    decreases ks.len(),
{
    if ks.len() > 0 {
        lemma_sum_at_nonneg(m, ks.drop_last());
    }
}

/// A sum over keys only reads the values at those keys.
proof fn lemma_sum_at_agree(a: Map<Seq<char>, u32>, b: Map<Seq<char>, u32>, ks: Seq<Seq<char>>)
    requires
        forall|t: int| 0 <= t < ks.len() ==> a[#[trigger] ks[t]] == b[ks[t]],
    ensures
        sum_at(a, ks) == sum_at(b, ks),
    decreases ks.len(),
{
    if ks.len() > 0 {
        let d = ks.drop_last();
        assert forall|t: int| 0 <= t < d.len() implies a[#[trigger] d[t]] == b[d[t]] by {
            assert(d[t] == ks[t]);
        }
        lemma_sum_at_agree(a, b, d);
        assert(a[ks[ks.len() - 1]] == b[ks[ks.len() - 1]]);
    }
}

/// What the instructors hold before a newcomer `n` comes in with `sum`, for
/// the agreed amounts `c` (a part of what was agreed): the total grows by
/// `sum` and falls by what `c` gives up.
proof fn lemma_add_part(units: Map<Seq<char>, u32>, c: Map<Seq<char>, u32>, n: Seq<char>, sum: int)
    requires
        units.dom().finite(),
        c.dom().finite(),
        !units.contains_key(n),
        0 <= sum <= u32::MAX,
        forall|k: Seq<char>| #[trigger] c.contains_key(k) ==> (units.contains_key(k) || k == n) && (if k == n {
            sum
        } else {
            units[k] as int
        }) >= c[k],
    ensures
        units_after_add(units, c, n, sum).dom().finite(),
        map_total(units_after_add(units, c, n, sum)) == map_total(units) + sum - map_total(c),
    decreases c.dom().len(),
{
    let after = units_after_add(units, c, n, sum);
    assert(after.dom() =~= units.dom().insert(n));
    if c.dom().len() == 0 {
        assert(c.dom() =~= Set::<Seq<char>>::empty());
        assert(after =~= units.insert(n, sum as u32));
        lemma_map_total_insert(units, n, sum as u32);
    } else {
        let k = c.dom().choose();
        assert(c.contains_key(k));
        let rest = c.remove(k);
        lemma_add_part(units, rest, n, sum);
        let before = units_after_add(units, rest, n, sum);
        let base = if k == n {
            sum
        } else {
            units[k] as int
        };
        assert(before.contains_key(k) && before[k] == base);
        assert(after =~= before.insert(k, (base - c[k]) as u32));
        lemma_map_total_insert(before, k, (base - c[k]) as u32);
        lemma_map_total_remove(c, k);
    }
}

/// What the instructors hold when `g` leaves and the agreed amounts `c` (a
/// part of what was agreed) come back: the total loses `g`'s units and gains
/// what `c` gets back.
proof fn lemma_remove_part(units: Map<Seq<char>, u32>, c: Map<Seq<char>, u32>, g: Seq<char>)
    requires
        units.dom().finite(),
        c.dom().finite(),
        units.contains_key(g),
        !c.contains_key(g),
        forall|k: Seq<char>| #[trigger] c.contains_key(k) ==> units.contains_key(k) && units[k] + c[k] <= u32::MAX,
    ensures
        units_after_remove(units, c, g).dom().finite(),
        map_total(units_after_remove(units, c, g)) == map_total(units) - units[g] + map_total(c),
    decreases c.dom().len(),
{
    let after = units_after_remove(units, c, g);
    assert(after.dom() =~= units.dom().remove(g));
    if c.dom().len() == 0 {
        assert(c.dom() =~= Set::<Seq<char>>::empty());
        assert(after =~= units.remove(g));
        lemma_map_total_remove(units, g);
    } else {
        let k = c.dom().choose();
        assert(c.contains_key(k));
        let rest = c.remove(k);
        lemma_remove_part(units, rest, g);
        let before = units_after_remove(units, rest, g);
        assert(before.contains_key(k) && before[k] == units[k]);
        assert(after =~= before.insert(k, (units[k] + c[k]) as u32));
        lemma_map_total_insert(before, k, (units[k] + c[k]) as u32);
        lemma_map_total_remove(c, k);
    }
}

/// The keys of a map are finitely many.
pub proof fn lemma_str_map_finite<V>(m: StrMap<V>)
    ensures
        m@.dom().finite(),
{
    m.lemma_dom_is_key_set();
    vstd::seq_lib::seq_to_set_is_finite(m.key_order());
}

/// A course made by `create_course` holds 10000 units in all, its creator's.
pub proof fn new_course_units(
    c: CourseMetadata,
    course_id: Seq<char>,
    title: String,
    description: Option<String>,
    media: Option<String>,
    price: u128,
    skills: Seq<String>,
    instructor: Seq<char>,
    now: u64,
)
    requires
        new_course_record(c, course_id, title, description, media, price, skills, instructor, now),
    ensures
        map_total(c.instructor_id@) == 10000,
{
    let m = Map::<Seq<char>, u32>::empty();
    assert(m.dom() =~= Set::<Seq<char>>::empty());
    lemma_map_total_insert(m, instructor, 10000);
}

/// Adding a map's values over its keys, each once, gives its total.
pub proof fn lemma_sum_of_values_is_total(m: StrMap<u32>)
    requires
        m.key_order().no_duplicates(),
    ensures
        m@.dom().finite(),
        sum_of_values(m) == map_total(m@),
{
    m.lemma_dom_is_key_set();
    lemma_sum_at_is_total(m@, m.key_order());
}

/// Letting a new instructor in (`add_instructor`) keeps the course's total
/// of units: the newcomer gets exactly what the agreeing instructors give up.
pub(crate) proof fn lemma_add_instructor_total(course: CourseMetadata, n: Seq<char>)
    requires
        course.consensus.key_order().no_duplicates(),
        !course.instructor_id@.contains_key(n),
        sum_of_values(course.consensus) <= u32::MAX,
        forall|k: Seq<char>| #[trigger]
            course.consensus@.contains_key(k) ==> (course.instructor_id@.contains_key(k) || k == n) && (if k
                == n {
                sum_of_values(course.consensus)
            } else {
                course.instructor_id@[k] as int
            }) >= course.consensus@[k],
    ensures
        map_total(units_after_add(course.instructor_id@, course.consensus@, n, sum_of_values(course.consensus)))
            == map_total(course.instructor_id@),
{
    let cons = course.consensus;
    cons.lemma_dom_is_key_set();
    lemma_sum_at_is_total(cons@, cons.key_order());
    lemma_sum_at_nonneg(cons@, cons.key_order());
    lemma_str_map_finite(course.instructor_id);
    lemma_add_part(course.instructor_id@, cons@, n, sum_of_values(cons));
}

/// Letting an instructor out (`remove_instructor`): their units, equal to
/// the agreed amounts, go back to the agreeing instructors, except what the
/// leaving instructor agreed to themselves, which leaves with them.
pub(crate) proof fn lemma_remove_instructor_total(course: CourseMetadata, g: Seq<char>)
    requires
        course.consensus.key_order().no_duplicates(),
        course.instructor_id@.contains_key(g),
        course.instructor_id@[g] == sum_of_values(course.consensus),
        forall|k: Seq<char>| #[trigger]
            course.consensus@.contains_key(k) ==> course.instructor_id@.contains_key(k)
                && course.instructor_id@[k] + course.consensus@[k] <= u32::MAX,
    ensures
        map_total(units_after_remove(course.instructor_id@, course.consensus@, g)) == map_total(
            course.instructor_id@,
        ) - (if course.consensus@.contains_key(g) {
            course.consensus@[g] as int
        } else {
            0
        }),
{
    let cons = course.consensus;
    let units = course.instructor_id@;
    cons.lemma_dom_is_key_set();
    lemma_sum_at_is_total(cons@, cons.key_order());
    lemma_str_map_finite(course.instructor_id);
    let rest = cons@.remove(g);
    assert(units_after_remove(units, cons@, g) =~= units_after_remove(units, rest, g));
    lemma_remove_part(units, rest, g);
    if cons@.contains_key(g) {
        lemma_map_total_remove(cons@, g);
    } else {
        assert(rest =~= cons@);
    }
}

/// Transferring units between instructors (`transfer_unit`) keeps the
/// course's total of units.
pub proof fn transfer_unit_keeps_units(units: StrMap<u32>, s: Seq<char>, t: Seq<char>, amount: u32)
    requires
        units@.contains_key(s),
        units@.contains_key(t),
        amount <= units@[s],
        units@.insert(s, (units@[s] - amount) as u32)[t] + amount <= u32::MAX,
    ensures
        ({
            let after_sender = units@.insert(s, (units@[s] - amount) as u32);
            map_total(after_sender.insert(t, (after_sender[t] + amount) as u32)) == map_total(units@)
        }),
{
    lemma_str_map_finite(units);
    let after_sender = units@.insert(s, (units@[s] - amount) as u32);
    lemma_map_total_insert(units@, s, (units@[s] - amount) as u32);
    assert(after_sender.dom() =~= units@.dom());
    lemma_map_total_insert(after_sender, t, (after_sender[t] + amount) as u32);
}

} // verus!
