//! String-keyed collections with mathematical views.
//!
//! `StrMap<V>` is a map from account or record identifiers to values; its
//! view is a `Map<Seq<char>, V>`. `StrSet` is an insertion-ordered set of
//! identifiers whose view is the `Seq<Seq<char>>` of its members in the order
//! in which they were first inserted (the order in which a page is read).
use vstd::prelude::*;

verus! {

/// The views of a sequence of strings.
pub open spec fn views_of(s: Seq<String>) -> Seq<Seq<char>> {
    s.map_values(|x: String| x@)
}

/// Does `s` hold a string whose view is `k`?
pub open spec fn has_view(s: Seq<String>, k: Seq<char>) -> bool {
    exists|i: int| 0 <= i < s.len() && #[trigger] s[i]@ == k
}

/// Position of the string equal to `k` in `v`, if any.
pub fn find_string(v: &Vec<String>, k: &String) -> (r: Option<usize>)
    ensures
        match r {
            Some(i) => i < v.len() && v@[i as int]@ == k@,
            None => !has_view(v@, k@),
        },
{
    let mut i: usize = 0;
    while i < v.len()
        invariant
            i <= v.len(),
            forall|j: int| 0 <= j < i ==> v@[j]@ != k@,
        decreases v.len() - i,
    {
        if v[i] == *k {
            return Some(i);
        }
        i = i + 1;
    }
    None
}

/// Whether `v` holds a string equal to `k`.
pub fn contains_string(v: &Vec<String>, k: &String) -> (r: bool)
    ensures
        r == has_view(v@, k@),
{
    find_string(v, k).is_some()
}

/// A map from strings to values. Its keys keep the order in which they were
/// first inserted; a key taken out and put back goes to the end.
pub struct StrMap<V> {
    entries: Vec<(String, V)>,
}

impl<V> StrMap<V> {
    /// The stored keys, in storage order.
    pub closed spec fn key_order(&self) -> Seq<Seq<char>> {
        self.entries@.map_values(|e: (String, V)| e.0@)
    }

    #[verifier::type_invariant]
    closed spec fn keys_unique(&self) -> bool {
        self.key_order().no_duplicates()
    }

    pub closed spec fn spec_lookup(&self, k: Seq<char>) -> V {
        self.entries@[self.key_order().index_of(k)].1
    }

    proof fn lemma_slot(&self, i: int)
        requires
            self.key_order().no_duplicates(),
            0 <= i < self.entries@.len(),
        ensures
            self.key_order().contains(self.entries@[i].0@),
            self.key_order().index_of(self.entries@[i].0@) == i,
            self@.contains_key(self.entries@[i].0@),
            self@[self.entries@[i].0@] == self.entries@[i].1,
    {
        let ks = self.key_order();
        assert(ks[i] == self.entries@[i].0@);
        assert(ks.contains(ks[i]));
    }

    /// The map's keys are those its key order lists.
    pub proof fn lemma_dom_is_key_set(&self)
        ensures
            forall|q: Seq<char>| self@.contains_key(q) <==> #[trigger] self.key_order().contains(q),
            self@.dom() == self.key_order().to_set(),
    {
        assert(self@.dom() =~= self.key_order().to_set());
    }

    /// An empty map.
    pub fn new() -> (m: Self)
        ensures
            m@ == Map::<Seq<char>, V>::empty(),
            m.key_order() == Seq::<Seq<char>>::empty(),
    {
        let m = StrMap { entries: Vec::new() };
        assert(m@ =~= Map::<Seq<char>, V>::empty());
        m
    }

    fn position(&self, k: &String) -> (r: Option<usize>)
        ensures
            match r {
                Some(i) => i < self.entries@.len() && self.entries@[i as int].0@ == k@,
                None => !self.key_order().contains(k@),
            },
    {
        let mut i: usize = 0;
        while i < self.entries.len()
            invariant
                i <= self.entries@.len(),
                forall|j: int| 0 <= j < i ==> self.entries@[j].0@ != k@,
            decreases self.entries@.len() - i,
        {
            if self.entries[i].0 == *k {
                return Some(i);
            }
            i = i + 1;
        }
        proof {
            if self.key_order().contains(k@) {
                let j = choose|j: int| 0 <= j < self.key_order().len() && self.key_order()[j] == k@;
                assert(self.entries@[j].0@ == k@);
            }
        }
        None
    }

    /// Number of keys.
    pub fn len(&self) -> (n: usize)
        ensures
            n == self@.len(),
            n == self.key_order().len(),
    {
        proof {
            use_type_invariant(self);
            self.key_order().unique_seq_to_set();
            assert(self@.dom() =~= self.key_order().to_set());
            assert(self@.len() == self@.dom().len());
            assert(self.key_order().len() == self.entries@.len());
            assert(self@.dom().len() == self.key_order().to_set().len());
            assert(self.key_order().to_set().len() == self.key_order().len());
        }
        self.entries.len()
    }

    /// Whether `k` is a key.
    pub fn contains_key(&self, k: &String) -> (b: bool)
        ensures
            b == self@.contains_key(k@),
    {
        let r = self.position(k);
        proof {
            if let Some(i) = r {
                assert(self.key_order()[i as int] == k@);
            }
        }
        r.is_some()
    }

    /// The value stored under `k`.
    pub fn get(&self, k: &String) -> (r: Option<&V>)
        ensures
            match r {
                Some(v) => self@.contains_key(k@) && *v == self@[k@],
                None => !self@.contains_key(k@),
            },
    {
        proof {
            use_type_invariant(self);
        }
        match self.position(k) {
            Some(i) => {
                proof {
                    self.lemma_slot(i as int);
                }
                Some(&self.entries[i].1)
            },
            None => None,
        }
    }

    /// Stores `v` under `k`, replacing any earlier value in place.
    pub fn insert(&mut self, k: String, v: V)
        ensures
            final(self)@ == old(self)@.insert(k@, v),
            old(self)@.contains_key(k@) ==> final(self).key_order() == old(self).key_order(),
            !old(self)@.contains_key(k@) ==> final(self).key_order() == old(self).key_order().push(k@),
    {
        proof {
            use_type_invariant(&*self);
        }
        let ghost old_self = *self;
        let ghost kv = k@;
        match self.position(&k) {
            Some(i) => {
                proof {
                    old_self.lemma_slot(i as int);
                }
                let mut es: Vec<(String, V)> = Vec::new();
                std::mem::swap(&mut es, &mut self.entries);
                es.set(i, (k, v));
                proof {
                    assert(es@.map_values(|e: (String, V)| e.0@) =~= old_self.key_order());
                }
                self.entries = es;
                proof {
                    let ks_old = old_self.key_order();
                    let ks = self.key_order();
                    assert(ks =~= ks_old);
                    assert forall|q: Seq<char>| #[trigger] self@.contains_key(q) == old_self@.insert(kv, v).contains_key(q) by {}
                    assert forall|q: Seq<char>| self@.contains_key(q) implies #[trigger] self@[q] == old_self@.insert(kv, v)[q] by {
                        let j = ks.index_of(q);
                        assert(0 <= j < ks.len() && ks[j] == q);
                        if q == kv {
                            assert(ks[i as int] == kv);
                            assert(j == i);
                        } else {
                            assert(j != i);
                            old_self.lemma_slot(j);
                        }
                    }
                    assert(self@ =~= old_self@.insert(kv, v));
                }
            },
            None => {
                let mut es: Vec<(String, V)> = Vec::new();
                std::mem::swap(&mut es, &mut self.entries);
                es.push((k, v));
                proof {
                    assert(es@.map_values(|e: (String, V)| e.0@) =~= old_self.key_order().push(kv));
                }
                self.entries = es;
                proof {
                    let ks_old = old_self.key_order();
                    let ks = self.key_order();
                    assert(ks =~= ks_old.push(kv));
                    assert(ks.no_duplicates());
                    let n = ks_old.len() as int;
                    assert forall|q: Seq<char>| #[trigger] self@.contains_key(q) == old_self@.insert(kv, v).contains_key(q) by {
                        if ks_old.contains(q) {
                            let j = ks_old.index_of(q);
                            assert(ks[j] == q);
                        }
                        if ks.contains(q) && q != kv {
                            let j = ks.index_of(q);
                            assert(j != n);
                            assert(ks_old[j] == q);
                        }
                        if q == kv {
                            assert(ks[n] == kv);
                        }
                    }
                    assert forall|q: Seq<char>| self@.contains_key(q) implies #[trigger] self@[q] == old_self@.insert(kv, v)[q] by {
                        let j = ks.index_of(q);
                        if q == kv {
                            assert(ks[n] == kv);
                            assert(j == n);
                        } else {
                            assert(j != n);
                            assert(ks_old[j] == q);
                            assert(ks_old.contains(q));
                            old_self.lemma_slot(j);
                        }
                    }
                    assert(self@ =~= old_self@.insert(kv, v));
                }
            },
        }
    }

    /// Takes the value stored under `k` out of the map.
    pub fn remove(&mut self, k: &String) -> (r: Option<V>)
        ensures
            final(self)@ == old(self)@.remove(k@),
            match r {
                Some(v) => old(self)@.contains_key(k@) && v == old(self)@[k@],
                None => !old(self)@.contains_key(k@),
            },
    {
        proof {
            use_type_invariant(&*self);
        }
        let ghost old_self = *self;
        match self.position(k) {
            Some(i) => {
                proof {
                    old_self.lemma_slot(i as int);
                }
                let mut es: Vec<(String, V)> = Vec::new();
                std::mem::swap(&mut es, &mut self.entries);
                let e = es.remove(i);
                proof {
                    let ks2 = es@.map_values(|e: (String, V)| e.0@);
                    assert(ks2 =~= old_self.key_order().remove(i as int));
                    assert forall|a: int, b: int| 0 <= a < ks2.len() && 0 <= b < ks2.len() && a != b implies ks2[a] != ks2[b] by {
                        let a2 = if a < i { a } else { a + 1 };
                        let b2 = if b < i { b } else { b + 1 };
                        assert(ks2[a] == old_self.key_order()[a2]);
                        assert(ks2[b] == old_self.key_order()[b2]);
                    }
                }
                self.entries = es;
                proof {
                    let ks_old = old_self.key_order();
                    let ks = self.key_order();
                    assert(ks =~= ks_old.remove(i as int));
                    assert forall|q: Seq<char>| #[trigger] self@.contains_key(q) == old_self@.remove(k@).contains_key(q) by {
                        if ks_old.contains(q) && q != k@ {
                            let j = ks_old.index_of(q);
                            assert(j != i);
                            if j < i {
                                assert(ks[j] == q);
                            } else {
                                assert(ks[j - 1] == q);
                            }
                        }
                        if ks.contains(q) {
                            let j = ks.index_of(q);
                            if j < i {
                                assert(ks_old[j] == q);
                            } else {
                                assert(ks_old[j + 1] == q);
                                assert(j + 1 != i);
                            }
                        }
                    }
                    assert forall|q: Seq<char>| self@.contains_key(q) implies #[trigger] self@[q] == old_self@.remove(k@)[q] by {
                        let j = ks.index_of(q);
                        if j < i {
                            assert(ks_old[j] == q);
                            old_self.lemma_slot(j);
                        } else {
                            assert(ks_old[j + 1] == q);
                            old_self.lemma_slot(j + 1);
                        }
                    }
                    assert(self@ =~= old_self@.remove(k@));
                }
                Some(e.1)
            },
            None => {
                proof {
                    assert(self@ =~= old_self@.remove(k@));
                }
                None
            },
        }
    }

    /// The keys, in storage order.
    pub fn keys(&self) -> (r: Vec<String>)
        ensures
            views_of(r@) == self.key_order(),
            self.key_order().no_duplicates(),
            forall|q: Seq<char>| self@.contains_key(q) <==> #[trigger] self.key_order().contains(q),
    {
        proof {
            use_type_invariant(self);
        }
        let mut r: Vec<String> = Vec::new();
        let mut i: usize = 0;
        while i < self.entries.len()
            invariant
                i <= self.entries@.len(),
                r@.len() == i,
                forall|j: int| 0 <= j < i ==> #[trigger] r@[j]@ == self.entries@[j].0@,
            decreases self.entries@.len() - i,
        {
            r.push(self.entries[i].0.clone());
            i = i + 1;
        }
        assert(views_of(r@) =~= self.key_order());
        r
    }
}

impl<V> View for StrMap<V> {
    type V = Map<Seq<char>, V>;

    closed spec fn view(&self) -> Map<Seq<char>, V> {
        Map::new(|k: Seq<char>| self.key_order().contains(k), |k: Seq<char>| self.spec_lookup(k))
    }
}

impl<V: Clone> Clone for StrMap<V> {
    /// A copy with the same keys in the same order, each value cloned.
    fn clone(&self) -> (r: Self)
        ensures
            r.key_order() == self.key_order(),
            r@.dom() == self@.dom(),
            forall|k: Seq<char>| #[trigger] r@.contains_key(k) ==> cloned::<V>(self@[k], r@[k]),
    {
        proof {
            use_type_invariant(self);
        }
        let mut es: Vec<(String, V)> = Vec::new();
        let mut i: usize = 0;
        while i < self.entries.len()
            invariant
                i <= self.entries@.len(),
                es@.len() == i,
                forall|j: int| 0 <= j < i ==> #[trigger] es@[j].0@ == self.entries@[j].0@ && cloned::<V>(self.entries@[j].1, es@[j].1),
            decreases self.entries@.len() - i,
        {
            let k = self.entries[i].0.clone();
            let v = self.entries[i].1.clone();
            es.push((k, v));
            i = i + 1;
        }
        proof {
            assert(es@.map_values(|e: (String, V)| e.0@) =~= self.key_order());
        }
        let r = StrMap { entries: es };
        proof {
            assert(r.key_order() =~= self.key_order());
            assert(r@.dom() =~= self@.dom());
            assert forall|k: Seq<char>| #[trigger] r@.contains_key(k) implies cloned::<V>(self@[k], r@[k]) by {
                let j = self.key_order().index_of(k);
                self.lemma_slot(j);
                r.lemma_slot(j);
            }
        }
        r
    }
}

/// A set of strings that remembers the order in which members first came in.
pub struct StrSet {
    items: Vec<String>,
}

impl StrSet {
    #[verifier::type_invariant]
    closed spec fn members_unique(&self) -> bool {
        views_of(self.items@).no_duplicates()
    }
}

impl View for StrSet {
    type V = Seq<Seq<char>>;

    closed spec fn view(&self) -> Seq<Seq<char>> {
        views_of(self.items@)
    }
}

impl Clone for StrSet {
    /// A copy with the same members in the same order.
    fn clone(&self) -> (r: Self)
        ensures
            r@ == self@,
    {
        proof {
            use_type_invariant(self);
        }
        let mut items: Vec<String> = Vec::new();
        let mut i: usize = 0;
        while i < self.items.len()
            invariant
                i <= self.items@.len(),
                items@.len() == i,
                forall|j: int| 0 <= j < i ==> #[trigger] items@[j]@ == self.items@[j]@,
            decreases self.items@.len() - i,
        {
            items.push(self.items[i].clone());
            i = i + 1;
        }
        proof {
            assert(views_of(items@) =~= views_of(self.items@));
        }
        StrSet { items }
    }
}

impl StrSet {
    /// An empty set.
    pub fn new() -> (s: Self)
        ensures
            s@ == Seq::<Seq<char>>::empty(),
    {
        let s = StrSet { items: Vec::new() };
        assert(s@ =~= Seq::<Seq<char>>::empty());
        s
    }

    /// Number of members.
    pub fn len(&self) -> (n: usize)
        ensures
            n == self@.len(),
    {
        self.items.len()
    }

    /// Whether `k` is a member.
    pub fn contains(&self, k: &String) -> (b: bool)
        ensures
            b == self@.contains(k@),
    {
        let r = contains_string(&self.items, k);
        proof {
            if r {
                let i = choose|i: int| 0 <= i < self.items@.len() && #[trigger] self.items@[i]@ == k@;
                assert(self@[i] == k@);
            }
            if self@.contains(k@) {
                let i = choose|i: int| 0 <= i < self@.len() && self@[i] == k@;
                assert(self.items@[i]@ == k@);
            }
        }
        r
    }

    /// Adds `k` at the end unless it is already a member; says whether it was added.
    pub fn insert(&mut self, k: String) -> (added: bool)
        ensures
            added == !old(self)@.contains(k@),
            added ==> final(self)@ == old(self)@.push(k@),
            !added ==> final(self)@ == old(self)@,
    {
        proof {
            use_type_invariant(&*self);
        }
        if self.contains(&k) {
            false
        } else {
            let ghost old_items = self.items@;
            let mut items: Vec<String> = Vec::new();
            std::mem::swap(&mut items, &mut self.items);
            items.push(k);
            proof {
                assert(views_of(items@) =~= views_of(old_items).push(k@));
            }
            self.items = items;
            proof {
                assert(views_of(self.items@) =~= views_of(old_items).push(k@));
            }
            true
        }
    }

    /// The member at position `i`.
    pub fn get(&self, i: usize) -> (r: &String)
        requires
            i < self@.len(),
        ensures
            r@ == self@[i as int],
    {
        &self.items[i]
    }
}

} // verus!
