//! A table of rows keyed by a 64-bit id, at most one row per id, in the order
//! in which the ids were first added.

use vstd::prelude::*;

verus! {

/// A row with an id.
pub trait Keyed {
    spec fn key_of(&self) -> u64;

    fn key(&self) -> (r: u64)
        ensures
            r == self.key_of(),
    ;
}

pub struct Table<T> {
    rows: Vec<T>,
}

/// Row `i` of `rows` has id `k`.
pub open spec fn row_has_key<T: Keyed>(rows: Seq<T>, i: int, k: u64) -> bool {
    0 <= i < rows.len() && rows[i].key_of() == k
}

impl<T: Keyed> View for Table<T> {
    type V = Map<u64, T>;

    closed spec fn view(&self) -> Map<u64, T> {
        Map::new(
            |k: u64| exists|i: int| row_has_key(self.rows@, i, k),
            |k: u64| self.rows@[choose|i: int| row_has_key(self.rows@, i, k)],
        )
    }
}

impl<T: Keyed> Table<T> {
    /// No two rows share an id.
    pub closed spec fn wf(&self) -> bool {
        forall|i: int, j: int|
            0 <= i < self.rows@.len() && 0 <= j < self.rows@.len() && #[trigger] self.rows@[i].key_of()
                == #[trigger] self.rows@[j].key_of() ==> i == j
    }

    proof fn lemma_view_at(&self, i: int)
        requires
            self.wf(),
            0 <= i < self.rows@.len(),
        ensures
            self@.contains_key(self.rows@[i].key_of()),
            self@[self.rows@[i].key_of()] == self.rows@[i],
    {
        let k = self.rows@[i].key_of();
        assert(row_has_key(self.rows@, i, k));
        let j = choose|j: int| row_has_key(self.rows@, j, k);
        assert(self.rows@[j].key_of() == self.rows@[i].key_of());
    }

    pub fn new() -> (r: Table<T>)
        ensures
            r.wf(),
            r@ == Map::<u64, T>::empty(),
    {
        let r = Table { rows: Vec::new() };
        assert(r@ =~= Map::<u64, T>::empty());
        r
    }

    fn index_of(&self, k: u64) -> (r: Option<usize>)
        requires
            self.wf(),
        ensures
            match r {
                Some(i) => row_has_key(self.rows@, i as int, k),
                None => !self@.contains_key(k),
            },
    {
        let mut i: usize = 0;
        while i < self.rows.len()
            invariant
                i <= self.rows@.len(),
                forall|j: int| 0 <= j < i ==> (#[trigger] self.rows@[j]).key_of() != k,
            decreases self.rows@.len() - i,
        {
            if self.rows[i].key() == k {
                return Some(i);
            }
            i = i + 1;
        }
        None
    }

    pub fn contains(&self, k: u64) -> (r: bool)
        requires
            self.wf(),
        ensures
            r == self@.contains_key(k),
    {
        match self.index_of(k) {
            Some(i) => {
                proof {
                    self.lemma_view_at(i as int);
                }
                true
            },
            None => false,
        }
    }

    pub fn get(&self, k: u64) -> (r: Option<&T>)
        requires
            self.wf(),
        ensures
            match r {
                Some(v) => self@.contains_key(k) && *v == self@[k],
                None => !self@.contains_key(k),
            },
    {
        match self.index_of(k) {
            Some(i) => {
                proof {
                    self.lemma_view_at(i as int);
                }
                Some(&self.rows[i])
            },
            None => None,
        }
    }

    /// Puts `v` in the row of its id, or in a new row.
    pub fn upsert(&mut self, v: T)
        requires
            old(self).wf(),
        ensures
            final(self).wf(),
            final(self)@ == old(self)@.insert(v.key_of(), v),
    {
        let k = v.key();
        let ghost old_rows = self.rows@;
        let ghost old_view = self@;
        match self.index_of(k) {
            Some(i) => {
                self.rows.set(i, v);
                assert forall|a: int, b: int|
                    0 <= a < self.rows@.len() && 0 <= b < self.rows@.len() && #[trigger] self.rows@[a].key_of()
                        == #[trigger] self.rows@[b].key_of() implies a == b by {
                    assert(old_rows[a].key_of() == self.rows@[a].key_of());
                    assert(old_rows[b].key_of() == self.rows@[b].key_of());
                }
                assert forall|q: u64| #[trigger] self@.contains_key(q) == old_view.insert(k, v).contains_key(q) by {
                    if exists|j: int| row_has_key(self.rows@, j, q) {
                        let j = choose|j: int| row_has_key(self.rows@, j, q);
                        if j != i {
                            assert(row_has_key(old_rows, j, q));
                        }
                    }
                    if exists|j: int| row_has_key(old_rows, j, q) {
                        let j = choose|j: int| row_has_key(old_rows, j, q);
                        assert(row_has_key(self.rows@, j, q));
                    }
                }
                assert forall|q: u64| #[trigger] self@.contains_key(q) implies self@[q] == old_view.insert(k, v)[q] by {
                    let j = choose|j: int| row_has_key(self.rows@, j, q);
                    self.lemma_view_at(j);
                    if j != i {
                        assert(row_has_key(old_rows, j, q));
                        let o = choose|o: int| row_has_key(old_rows, o, q);
                        assert(old_rows[o].key_of() == old_rows[j].key_of());
                        assert(o == j);
                    }
                }
                assert(self@ =~= old_view.insert(k, v));
            },
            None => {
                self.rows.push(v);
                let ghost n = old_rows.len() as int;
                assert forall|a: int, b: int|
                    0 <= a < self.rows@.len() && 0 <= b < self.rows@.len() && #[trigger] self.rows@[a].key_of()
                        == #[trigger] self.rows@[b].key_of() implies a == b by {
                    if a < n && b < n {
                        assert(old_rows[a].key_of() == old_rows[b].key_of());
                    } else if a < n {
                        assert(row_has_key(old_rows, a, k));
                    } else if b < n {
                        assert(row_has_key(old_rows, b, k));
                    }
                }
                assert forall|q: u64| #[trigger] self@.contains_key(q) == old_view.insert(k, v).contains_key(q) by {
                    if exists|j: int| row_has_key(self.rows@, j, q) {
                        let j = choose|j: int| row_has_key(self.rows@, j, q);
                        if j < n {
                            assert(row_has_key(old_rows, j, q));
                        }
                    }
                    if exists|j: int| row_has_key(old_rows, j, q) {
                        let j = choose|j: int| row_has_key(old_rows, j, q);
                        assert(row_has_key(self.rows@, j, q));
                    }
                    if q == k {
                        assert(row_has_key(self.rows@, n, q));
                    }
                }
                assert forall|q: u64| #[trigger] self@.contains_key(q) implies self@[q] == old_view.insert(k, v)[q] by {
                    let j = choose|j: int| row_has_key(self.rows@, j, q);
                    self.lemma_view_at(j);
                    if j < n {
                        assert(row_has_key(old_rows, j, q));
                        let o = choose|o: int| row_has_key(old_rows, o, q);
                        assert(old_rows[o].key_of() == old_rows[j].key_of());
                    }
                }
                assert(self@ =~= old_view.insert(k, v));
            },
        }
    }

    /// Removes the row of id `k`, if there is one.
    pub fn remove(&mut self, k: u64)
        requires
            old(self).wf(),
        ensures
            final(self).wf(),
            final(self)@ == old(self)@.remove(k),
    {
        let ghost old_rows = self.rows@;
        let ghost old_view = self@;
        match self.index_of(k) {
            Some(i) => {
                self.rows.remove(i);
                assert forall|a: int, b: int|
                    0 <= a < self.rows@.len() && 0 <= b < self.rows@.len() && #[trigger] self.rows@[a].key_of()
                        == #[trigger] self.rows@[b].key_of() implies a == b by {
                    let oa = if a < i { a } else { a + 1 };
                    let ob = if b < i { b } else { b + 1 };
                    assert(old_rows[oa].key_of() == old_rows[ob].key_of());
                }
                assert forall|q: u64| #[trigger] self@.contains_key(q) == old_view.remove(k).contains_key(q) by {
                    if exists|j: int| row_has_key(self.rows@, j, q) {
                        let j = choose|j: int| row_has_key(self.rows@, j, q);
                        let o = if j < i { j } else { j + 1 };
                        assert(row_has_key(old_rows, o, q));
                        assert(o != i);
                    }
                    if q != k && exists|j: int| row_has_key(old_rows, j, q) {
                        let j = choose|j: int| row_has_key(old_rows, j, q);
                        assert(j != i);
                        let m = if j < i { j } else { j - 1 };
                        assert(row_has_key(self.rows@, m, q));
                    }
                }
                assert forall|q: u64| #[trigger] self@.contains_key(q) implies self@[q] == old_view.remove(k)[q] by {
                    let j = choose|j: int| row_has_key(self.rows@, j, q);
                    self.lemma_view_at(j);
                    let o = if j < i { j } else { j + 1 };
                    assert(row_has_key(old_rows, o, q));
                    let c = choose|c: int| row_has_key(old_rows, c, q);
                    assert(old_rows[c].key_of() == old_rows[o].key_of());
                }
                assert(self@ =~= old_view.remove(k));
            },
            None => {
                assert(self@ =~= old_view.remove(k));
            },
        }
    }

    /// The ids of the rows.
    pub fn keys(&self) -> (r: Vec<u64>)
        requires
            self.wf(),
        ensures
            forall|k: u64| #[trigger] r@.contains(k) <==> self@.contains_key(k),
    {
        let mut r: Vec<u64> = Vec::new();
        let mut i: usize = 0;
        while i < self.rows.len()
            invariant
                i <= self.rows@.len(),
                r@.len() == i,
                forall|j: int| 0 <= j < i ==> #[trigger] r@[j] == self.rows@[j].key_of(),
            decreases self.rows@.len() - i,
        {
            r.push(self.rows[i].key());
            i = i + 1;
        }
        assert forall|k: u64| #[trigger] r@.contains(k) <==> self@.contains_key(k) by {
            if r@.contains(k) {
                let j = choose|j: int| 0 <= j < r@.len() && r@[j] == k;
                assert(row_has_key(self.rows@, j, k));
            }
            if self@.contains_key(k) {
                let j = choose|j: int| row_has_key(self.rows@, j, k);
                assert(r@[j] == k);
            }
        }
        r
    }
}

} // verus!
