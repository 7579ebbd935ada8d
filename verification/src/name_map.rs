use vstd::prelude::*;

use crate::name::Name;

verus! {

/// A map from names to values, kept as a list of entries in insertion order
/// in which no name occurs twice.
///
/// Its mathematical model is a `Map` from the characters of each name to the
/// model of its value; the entry order is exposed for the operations that
/// visit the entries one by one.
#[derive(Debug, Clone)]
pub struct NameMap<V> {
    entries: Vec<(Name, V)>,
}

impl<V: View> View for NameMap<V> {
    type V = Map<Seq<char>, V::V>;

    open spec fn view(&self) -> Map<Seq<char>, V::V> {
        Map::new(|k: Seq<char>| self.has_key(k), |k: Seq<char>| self.value(self.index_of(k))@)
    }
}

impl<V: View> NameMap<V> {
    /// No name occurs in two entries.
    pub open spec fn wf(self) -> bool {
        forall|i: int, j: int|
            0 <= i < j < self.spec_len() ==> #[trigger] self.key(i) != #[trigger] self.key(j)
    }

    /// Number of entries.
    pub closed spec fn spec_len(self) -> nat {
        self.entries@.len()
    }

    /// The characters of the name in entry `i`.
    pub closed spec fn key(self, i: int) -> Seq<char> {
        self.entries@[i].0@
    }

    /// The value in entry `i`.
    pub closed spec fn value(self, i: int) -> V {
        self.entries@[i].1
    }

    /// Some entry holds the name `k`.
    pub open spec fn has_key(self, k: Seq<char>) -> bool {
        exists|i: int| 0 <= i < self.spec_len() && #[trigger] self.key(i) == k
    }

    /// The entry that holds the name `k`, where there is one.
    pub open spec fn index_of(self, k: Seq<char>) -> int {
        choose|i: int| 0 <= i < self.spec_len() && #[trigger] self.key(i) == k
    }

    /// In a well-formed map the entry of a name is the one that holds it.
    pub proof fn lemma_index_of(self, i: int)
        requires
            self.wf(),
            0 <= i < self.spec_len(),
        ensures
            self.has_key(self.key(i)),
            self.index_of(self.key(i)) == i,
            self@.contains_key(self.key(i)),
            self@[self.key(i)] == self.value(i)@,
    {
        let k = self.key(i);
        assert(self.has_key(k));
        let j = self.index_of(k);
        if j != i {
            if j < i {
                assert(self.key(j) != self.key(i));
            } else {
                assert(self.key(i) != self.key(j));
            }
        }
    }

    /// Two maps whose entries hold the same names in the same order have the
    /// same names in their models, and each model value is the value of the
    /// entry that holds the name.
    pub proof fn lemma_same_keys(self, other: Self)
        requires
            self.wf(),
            other.spec_len() == self.spec_len(),
            forall|i: int| 0 <= i < self.spec_len() ==> #[trigger] other.key(i) == self.key(i),
        ensures
            other.wf(),
            other@.dom() == self@.dom(),
            forall|k: Seq<char>|
                #[trigger] self@.contains_key(k) ==> other.index_of(k) == self.index_of(k)
                    && other@[k] == other.value(self.index_of(k))@ && 0 <= self.index_of(k)
                    < self.spec_len() && self.key(self.index_of(k)) == k,
    {
        assert forall|a: int, b: int| 0 <= a < b < other.spec_len() implies #[trigger] other.key(a)
            != #[trigger] other.key(b) by {
            assert(self.key(a) != self.key(b));
        }
        assert forall|k: Seq<char>| #[trigger] other@.contains_key(k) <==> self@.contains_key(k) by {
            if other.has_key(k) {
                assert(self.key(other.index_of(k)) == k);
            }
            if self.has_key(k) {
                assert(other.key(self.index_of(k)) == k);
            }
        }
        assert(other@.dom() =~= self@.dom());
        assert forall|k: Seq<char>| #[trigger] self@.contains_key(k) implies other.index_of(k)
            == self.index_of(k) && other@[k] == other.value(self.index_of(k))@ && 0
            <= self.index_of(k) < self.spec_len() && self.key(self.index_of(k)) == k by {
            let a = self.index_of(k);
            self.lemma_index_of(a);
            other.lemma_index_of(a);
        }
    }

    /// Every name of the model is held by some entry.
    pub proof fn lemma_key_in_entries(self, k: Seq<char>)
        requires
            self@.contains_key(k),
        ensures
            0 <= self.index_of(k) < self.spec_len(),
            self.key(self.index_of(k)) == k,
            self@[k] == self.value(self.index_of(k))@,
    {
    }

}

impl<V: Duplicate> NameMap<V> {
    /// A map with no entries.
    pub fn new() -> (r: Self)
        ensures
            r.wf(),
            r.spec_len() == 0,
            r@ == Map::<Seq<char>, V::V>::empty(),
            r.well_formed(),
    {
        let r = NameMap { entries: Vec::new() };
        assert(r@ =~= Map::<Seq<char>, V::V>::empty());
        r
    }

    /// Number of entries.
    pub fn len(&self) -> (r: usize)
        ensures
            r == self.spec_len(),
    {
        self.entries.len()
    }

    /// The name of entry `i`.
    pub fn key_at(&self, i: usize) -> (r: &Name)
        requires
            i < self.spec_len(),
        ensures
            r@ == self.key(i as int),
    {
        &self.entries[i].0
    }

    /// The value of entry `i`.
    pub fn value_at(&self, i: usize) -> (r: &V)
        requires
            i < self.spec_len(),
        ensures
            *r == self.value(i as int),
    {
        &self.entries[i].1
    }

    /// Mutable access to the value of entry `i`; the names stay as they are.
    pub fn value_at_mut(&mut self, i: usize) -> (r: &mut V)
        requires
            i < old(self).spec_len(),
        ensures
            *r == old(self).value(i as int),
            final(self).spec_len() == old(self).spec_len(),
            forall|j: int| 0 <= j < old(self).spec_len() ==> #[trigger] final(self).key(j) == old(self).key(j),
            forall|j: int|
                0 <= j < old(self).spec_len() && j != i ==> #[trigger] final(self).value(j)
                    == old(self).value(j),
            final(self).value(i as int) == *final(r),
    {
        &mut self.entries[i].1
    }

    /// The entry that holds `k`, or `None` where no entry does.
    pub fn find(&self, k: &Name) -> (r: Option<usize>)
        requires
            self.wf(),
        ensures
            match r {
                Some(i) => i < self.spec_len() && self.key(i as int) == k@ && self.index_of(k@)
                    == i,
                None => !self@.contains_key(k@),
            },
    {
        let n = self.entries.len();
        let mut i: usize = 0;
        while i < n
            invariant
                n == self.spec_len(),
                i <= n,
                self.wf(),
                forall|j: int| 0 <= j < i ==> #[trigger] self.key(j) != k@,
            decreases n - i,
        {
            if self.entries[i].0.equals(k) {
                proof {
                    self.lemma_index_of(i as int);
                }
                return Some(i);
            }
            i = i + 1;
        }
        None
    }

    /// Whether some entry holds `k`.
    pub fn contains_key(&self, k: &Name) -> (r: bool)
        requires
            self.wf(),
        ensures
            r == self@.contains_key(k@),
    {
        match self.find(k) {
            Some(_) => true,
            None => false,
        }
    }

    /// The value for `k`, where there is one.
    pub fn get(&self, k: &Name) -> (r: Option<&V>)
        requires
            self.wf(),
        ensures
            match r {
                Some(v) => self@.contains_key(k@) && v@ == self@[k@] && *v == self.value(
                    self.index_of(k@),
                ),
                None => !self@.contains_key(k@),
            },
    {
        match self.find(k) {
            Some(i) => {
                proof {
                    self.lemma_index_of(i as int);
                }
                Some(&self.entries[i].1)
            },
            None => None,
        }
    }

    /// Set the value for `k`, replacing the entry that holds it or adding one
    /// at the end. Returns the value that was replaced.
    pub fn insert(&mut self, k: Name, v: V) -> (r: Option<V>)
        requires
            old(self).wf(),
        ensures
            final(self).wf(),
            final(self)@ == old(self)@.insert(k@, v@),
            forall|j: int|
                0 <= j < final(self).spec_len() ==> #[trigger] final(self).value(j) == v || (j
                    < old(self).spec_len() && final(self).value(j) == old(self).value(j)),
            old(self).well_formed() && v.well_formed() ==> final(self).well_formed(),
            match r {
                Some(o) => old(self)@.contains_key(k@) && o@ == old(self)@[k@],
                None => !old(self)@.contains_key(k@),
            },
    {
        match self.find(&k) {
            Some(i) => {
                proof {
                    self.lemma_index_of(i as int);
                }
                let ghost pre = *self;
                let ghost kv = k@;
                let mut old_entry = (k, v);
                self.entries.set_and_swap(i, &mut old_entry);
                proof {
                    assert(self.spec_len() == pre.spec_len());
                    assert forall|a: int| 0 <= a < self.spec_len() implies #[trigger] self.key(a)
                        == pre.key(a) by {}
                    assert(self.wf());
                    assert forall|q: Seq<char>| #[trigger] self@.contains_key(q) <==> pre@.insert(kv, v@).contains_key(q) by {
                        if self.has_key(q) {
                            let a = self.index_of(q);
                            assert(pre.key(a) == q);
                        }
                        if pre.has_key(q) {
                            let a = pre.index_of(q);
                            assert(self.key(a) == q);
                        }
                    }
                    assert forall|q: Seq<char>| #[trigger] self@.contains_key(q) implies self@[q] == pre@.insert(kv, v@)[q] by {
                        let a = self.index_of(q);
                        self.lemma_index_of(a);
                        if a == i {
                        } else {
                            pre.lemma_index_of(a);
                        }
                    }
                    assert(self@ =~= pre@.insert(kv, v@));
                    assert forall|a: int| 0 <= a < self.spec_len() implies #[trigger] self.value(a) == v || (a < pre.spec_len() && self.value(a) == pre.value(a)) by {}
                }
                Some(old_entry.1)
            },
            None => {
                let ghost pre = *self;
                let ghost kv = k@;
                let ghost vv = v@;
                self.entries.push((k, v));
                proof {
                    let n = pre.spec_len() as int;
                    assert forall|a: int| 0 <= a < n implies #[trigger] self.key(a) == pre.key(a)
                        && self.value(a) == pre.value(a) by {}
                    assert(self.key(n) == kv);
                    assert forall|a: int, b: int| 0 <= a < b < self.spec_len() implies #[trigger] self.key(a)
                        != #[trigger] self.key(b) by {
                        if b == n {
                            if pre.key(a) == kv {
                                assert(pre.has_key(kv));
                            }
                        } else {
                            assert(pre.key(a) != pre.key(b));
                        }
                    }
                    assert forall|q: Seq<char>| #[trigger] self@.contains_key(q) <==> pre@.insert(kv, vv).contains_key(q) by {
                        if self.has_key(q) {
                            let a = self.index_of(q);
                            if a < n {
                                assert(pre.key(a) == q);
                            }
                        }
                        if pre.has_key(q) {
                            let a = pre.index_of(q);
                            assert(self.key(a) == q);
                        }
                        if q == kv {
                            assert(self.key(n) == q);
                        }
                    }
                    assert forall|q: Seq<char>| #[trigger] self@.contains_key(q) implies self@[q] == pre@.insert(kv, vv)[q] by {
                        let a = self.index_of(q);
                        self.lemma_index_of(a);
                        if a < n {
                            pre.lemma_index_of(a);
                        }
                    }
                    assert(self@ =~= pre@.insert(kv, vv));
                    assert forall|a: int| 0 <= a < self.spec_len() implies #[trigger] self.value(a) == v || (a < pre.spec_len() && self.value(a) == pre.value(a)) by {}
                }
                None
            },
        }
    }

    /// Remove the entry that holds `k`, keeping the order of the others.
    /// Returns its value.
    pub fn remove(&mut self, k: &Name) -> (r: Option<V>)
        requires
            old(self).wf(),
        ensures
            final(self).wf(),
            final(self)@ == old(self)@.remove(k@),
            old(self).well_formed() ==> final(self).well_formed(),
            match r {
                Some(o) => old(self)@.contains_key(k@) && o@ == old(self)@[k@],
                None => !old(self)@.contains_key(k@),
            },
    {
        match self.find(k) {
            Some(i) => {
                proof {
                    self.lemma_index_of(i as int);
                }
                let ghost pre = *self;
                let entry = self.entries.remove(i);
                proof {
                    let n = self.spec_len() as int;
                    assert forall|a: int| 0 <= a < n implies #[trigger] self.key(a) == pre.key(
                        if a < i { a } else { a + 1 },
                    ) && self.value(a) == pre.value(if a < i { a } else { a + 1 }) by {}
                    assert forall|a: int, b: int| 0 <= a < b < n implies #[trigger] self.key(a)
                        != #[trigger] self.key(b) by {
                        let pa = if a < i { a } else { a + 1 };
                        let pb = if b < i { b } else { b + 1 };
                        assert(self.key(a) == pre.key(pa));
                        assert(self.key(b) == pre.key(pb));
                        assert(pre.key(pa) != pre.key(pb));
                    }
                    assert forall|q: Seq<char>| #[trigger] self@.contains_key(q) <==> pre@.remove(k@).contains_key(q) by {
                        if self.has_key(q) {
                            let a = self.index_of(q);
                            let pa = if a < i { a } else { a + 1 };
                            assert(self.key(a) == pre.key(pa));
                            assert(pre.key(pa) != pre.key(i as int));
                        }
                        if pre.has_key(q) && q != k@ {
                            let pa = pre.index_of(q);
                            assert(pa != i);
                            let a = if pa < i { pa } else { pa - 1 };
                            assert(self.key(a) == q);
                        }
                    }
                    assert forall|q: Seq<char>| #[trigger] self@.contains_key(q) implies self@[q] == pre@.remove(k@)[q] by {
                        let a = self.index_of(q);
                        self.lemma_index_of(a);
                        let pa = if a < i { a } else { a + 1 };
                        assert(self.key(a) == pre.key(pa));
                        pre.lemma_index_of(pa);
                    }
                    assert(self@ =~= pre@.remove(k@));
                    if pre.well_formed() {
                        assert forall|a: int| 0 <= a < n implies #[trigger] self.value(a).well_formed() by {
                            let pa = if a < i { a } else { a + 1 };
                            assert(self.value(a) == pre.value(pa));
                        }
                    }
                }
                Some(entry.1)
            },
            None => {
                proof {
                    assert(self@ =~= self@.remove(k@));
                }
                None
            },
        }
    }

    /// Remove every entry.
    pub fn clear(&mut self)
        ensures
            final(self).wf(),
            final(self).spec_len() == 0,
            final(self)@ == Map::<Seq<char>, V::V>::empty(),
            final(self).well_formed(),
    {
        self.entries.clear();
        assert(self@ =~= Map::<Seq<char>, V::V>::empty());
    }
}

} // verus!

verus! {

/// Values that can be copied so that the copy has the same model.
///
/// `well_formed` is the validity of the value and of everything it holds.
pub trait Duplicate: View + Sized {
    spec fn well_formed(&self) -> bool;

    fn duplicate(&self) -> (r: Self)
        requires
            self.well_formed(),
        ensures
            r@ == self@,
            r.well_formed(),
    ;
}

impl Duplicate for Name {
    open spec fn well_formed(&self) -> bool {
        true
    }

    fn duplicate(&self) -> (r: Self) {
        Name::duplicate(self)
    }
}

impl Duplicate for String {
    open spec fn well_formed(&self) -> bool {
        true
    }

    fn duplicate(&self) -> (r: Self) {
        self.clone()
    }
}

impl<V: Duplicate> Duplicate for NameMap<V> {
    open spec fn well_formed(&self) -> bool {
        &&& self.wf()
        &&& forall|i: int| 0 <= i < self.spec_len() ==> #[trigger] self.value(i).well_formed()
    }

    fn duplicate(&self) -> (r: Self) {
        self.copy()
    }
}

impl<V: Duplicate> NameMap<V> {
    /// A copy of the map, entry by entry.
    pub fn copy(&self) -> (r: Self)
        requires
            self.well_formed(),
        ensures
            r.well_formed(),
            r@ == self@,
            r.spec_len() == self.spec_len(),
            forall|i: int| 0 <= i < self.spec_len() ==> #[trigger] r.key(i) == self.key(i),
    {
        let mut entries: Vec<(Name, V)> = Vec::new();
        let n = self.entries.len();
        let mut i: usize = 0;
        while i < n
            invariant
                n == self.spec_len(),
                i <= n,
                self.well_formed(),
                entries@.len() == i,
                forall|j: int| 0 <= j < i ==> #[trigger] entries@[j].0@ == self.key(j),
                forall|j: int| 0 <= j < i ==> #[trigger] entries@[j].1@ == self.value(j)@,
                forall|j: int| 0 <= j < i ==> #[trigger] entries@[j].1.well_formed(),
            decreases n - i,
        {
            let k = self.entries[i].0.duplicate();
            assert(self.value(i as int).well_formed());
            let v = self.entries[i].1.duplicate();
            entries.push((k, v));
            i = i + 1;
        }
        let r = NameMap { entries };
        proof {
            assert forall|a: int, b: int| 0 <= a < b < r.spec_len() implies #[trigger] r.key(a)
                != #[trigger] r.key(b) by {
                assert(self.key(a) != self.key(b));
            }
            assert forall|q: Seq<char>| #[trigger] r@.contains_key(q) <==> self@.contains_key(q) by {
                if r.has_key(q) {
                    let a = r.index_of(q);
                    assert(self.key(a) == q);
                }
                if self.has_key(q) {
                    let a = self.index_of(q);
                    assert(r.key(a) == q);
                }
            }
            assert forall|q: Seq<char>| #[trigger] r@.contains_key(q) implies r@[q] == self@[q] by {
                let a = r.index_of(q);
                r.lemma_index_of(a);
                self.lemma_index_of(a);
            }
            assert(r@ =~= self@);
        }
        r
    }
}

} // verus!
