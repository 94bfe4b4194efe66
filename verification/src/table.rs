//! A small table of rows, each found by its key.
use vstd::prelude::*;

verus! {

/// A plain value by which a row is found.
pub trait Key: Copy {
    /// Whether the two keys are one and the same.
    fn same(&self, other: &Self) -> (b: bool)
        ensures
            b == (*self == *other),
    ;
}

/// Rows in the order in which their keys first came; no key has two rows.
#[derive(Debug)]
#[verifier::reject_recursive_types(K)]
pub struct Table<K, V> {
    rows: Vec<(K, V)>,
}

spec fn distinct<K, V>(rows: Seq<(K, V)>) -> bool {
    forall|i: int, j: int|
        0 <= i < j < rows.len() ==> (#[trigger] rows[i]).0 != (#[trigger] rows[j]).0
}

spec fn has_row<K, V>(rows: Seq<(K, V)>, k: K) -> bool {
    exists|i: int| 0 <= i < rows.len() && (#[trigger] rows[i]).0 == k
}

spec fn row_of<K, V>(rows: Seq<(K, V)>, k: K) -> int {
    choose|i: int| 0 <= i < rows.len() && (#[trigger] rows[i]).0 == k
}

spec fn rows_map<K, V>(rows: Seq<(K, V)>) -> Map<K, V> {
    Map::new(|k: K| has_row(rows, k), |k: K| rows[row_of(rows, k)].1)
}

proof fn lemma_rows_finite<K, V>(rows: Seq<(K, V)>)
    ensures
        rows_map(rows).dom().finite(),
{
    let keys = rows.map_values(|r: (K, V)| r.0);
    vstd::seq_lib::seq_to_set_is_finite(keys);
    assert forall|k: K| rows_map(rows).dom().contains(k) implies keys.to_set().contains(k) by {
        let i = row_of(rows, k);
        assert(keys[i] == k);
    }
    vstd::set_lib::lemma_set_subset_finite(keys.to_set(), rows_map(rows).dom());
}

impl<K, V> Table<K, V> {
    #[verifier::type_invariant]
    spec fn no_key_twice(&self) -> bool {
        distinct(self.rows@)
    }
}

impl<K, V> View for Table<K, V> {
    type V = Map<K, V>;

    closed spec fn view(&self) -> Map<K, V> {
        rows_map(self.rows@)
    }
}

impl<K: Key, V: Copy> Table<K, V> {
    /// The table without rows.
    pub fn new() -> (t: Self)
        ensures
            t@ == Map::<K, V>::empty(),
    {
        let t = Table { rows: Vec::new() };
        assert(t@ =~= Map::<K, V>::empty());
        t
    }

    fn position(&self, k: &K) -> (found: Option<usize>)
        ensures
            match found {
                Some(i) => i < self.rows@.len() && self.rows@[i as int].0 == *k,
                None => !has_row(self.rows@, *k),
            },
    {
        let mut i: usize = 0;
        while i < self.rows.len()
            invariant
                i <= self.rows@.len(),
                forall|j: int| 0 <= j < i ==> (#[trigger] self.rows@[j]).0 != *k,
            decreases self.rows@.len() - i,
        {
            if self.rows[i].0.same(k) {
                return Some(i);
            }
            i = i + 1;
        }
        None
    }

    /// The value in the row of `k`, if it has one.
    pub fn get(&self, k: &K) -> (found: Option<V>)
        ensures
            found == (if self@.contains_key(*k) {
                Some(self@[*k])
            } else {
                None
            }),
            self@.dom().finite(),
    {
        proof {
            use_type_invariant(self);
            lemma_rows_finite(self.rows@);
        }
        match self.position(k) {
            Some(i) => {
                assert(row_of(self.rows@, *k) == i) by {
                    let j = row_of(self.rows@, *k);
                    assert(self.rows@[i as int].0 == *k);
                    assert(0 <= j < self.rows@.len() && self.rows@[j].0 == *k);
                }
                Some(self.rows[i].1)
            },
            None => None,
        }
    }

    /// Gives `k` a row that holds `v`, in place of the one it had.
    pub fn insert(&mut self, k: K, v: V)
        ensures
            final(self)@ == old(self)@.insert(k, v),
    {
        proof {
            use_type_invariant(&*self);
        }
        let ghost before = self.rows@;
        let found = self.position(&k);
        let mut rows: Vec<(K, V)> = Vec::new();
        std::mem::swap(&mut rows, &mut self.rows);
        match found {
            Some(i) => {
                rows.set(i, (k, v));
            },
            None => {
                rows.push((k, v));
            },
        }
        proof {
            lemma_put(before, found, k, v, rows@);
        }
        self.rows = rows;
    }

    /// Takes the row of `k` out, if it has one.
    pub fn remove(&mut self, k: &K)
        ensures
            final(self)@ == old(self)@.remove(*k),
    {
        proof {
            use_type_invariant(&*self);
        }
        let ghost before = self.rows@;
        let found = self.position(k);
        let mut rows: Vec<(K, V)> = Vec::new();
        std::mem::swap(&mut rows, &mut self.rows);
        match found {
            Some(i) => {
                rows.remove(i);
            },
            None => {},
        }
        proof {
            lemma_cut(before, found, *k, rows@);
        }
        self.rows = rows;
    }
}

proof fn lemma_row<K, V>(rows: Seq<(K, V)>, i: int)
    requires
        distinct(rows),
        0 <= i < rows.len(),
    ensures
        rows_map(rows).contains_key(rows[i].0),
        rows_map(rows)[rows[i].0] == rows[i].1,
{
    let j = row_of(rows, rows[i].0);
    assert(0 <= j < rows.len() && rows[j].0 == rows[i].0);
}

proof fn lemma_put<K, V>(
    before: Seq<(K, V)>,
    found: Option<usize>,
    k: K,
    v: V,
    after: Seq<(K, V)>,
)
    requires
        distinct(before),
        match found {
            Some(i) => i < before.len() && before[i as int].0 == k && after == before.update(
                i as int,
                (k, v),
            ),
            None => !has_row(before, k) && after == before.push((k, v)),
        },
    ensures
        distinct(after),
        rows_map(after) == rows_map(before).insert(k, v),
{
    let at: int = match found {
        Some(i) => i as int,
        None => before.len() as int,
    };
    assert(after[at] == (k, v));
    assert forall|i: int, j: int| 0 <= i < j < after.len() implies (#[trigger] after[i]).0
        != (#[trigger] after[j]).0 by {
        if i != at {
            assert(before[i] == after[i]);
        }
        if j != at {
            assert(before[j] == after[j]);
        }
    }
    lemma_row(after, at);
    assert forall|x: K| x != k implies #[trigger] rows_map(after).dom().contains(x) == rows_map(
        before,
    ).dom().contains(x) && (rows_map(before).contains_key(x) ==> rows_map(after)[x] == rows_map(
        before,
    )[x]) by {
        if rows_map(before).contains_key(x) {
            let i = row_of(before, x);
            assert(before[i].0 == x);
            assert(after[i] == before[i]);
            lemma_row(before, i);
            lemma_row(after, i);
        }
        if rows_map(after).contains_key(x) {
            let i = row_of(after, x);
            assert(after[i].0 == x);
            assert(after[i] == before[i]);
        }
    }
    assert(rows_map(after) =~= rows_map(before).insert(k, v));
}

proof fn lemma_cut<K, V>(before: Seq<(K, V)>, found: Option<usize>, k: K, after: Seq<(K, V)>)
    requires
        distinct(before),
        match found {
            Some(i) => i < before.len() && before[i as int].0 == k && after == before.remove(
                i as int,
            ),
            None => !has_row(before, k) && after == before,
        },
    ensures
        distinct(after),
        rows_map(after) == rows_map(before).remove(k),
{
    match found {
        Some(at) => {
            let at = at as int;
            assert forall|i: int| 0 <= i < after.len() implies #[trigger] after[i] == before[if i
                < at {
                i
            } else {
                i + 1
            }] by {}
            assert forall|i: int, j: int| 0 <= i < j < after.len() implies (#[trigger] after[i]).0
                != (#[trigger] after[j]).0 by {
                let a = if i < at { i } else { i + 1 };
                let b = if j < at { j } else { j + 1 };
                assert(before[a].0 != before[b].0);
            }
            assert forall|x: K| #[trigger] rows_map(after).dom().contains(x) == (x != k && rows_map(
                before,
            ).dom().contains(x)) && (x != k && rows_map(before).contains_key(x) ==> rows_map(
                after,
            )[x] == rows_map(before)[x]) by {
                if x != k && rows_map(before).contains_key(x) {
                    let i = row_of(before, x);
                    assert(before[i].0 == x);
                    let a = if i < at { i } else { i - 1 };
                    assert(after[a] == before[i]);
                    lemma_row(before, i);
                    lemma_row(after, a);
                }
                if rows_map(after).contains_key(x) {
                    let i = row_of(after, x);
                    assert(after[i].0 == x);
                    let a = if i < at { i } else { i + 1 };
                    assert(before[a] == after[i]);
                    assert(before[at].0 == k);
                }
            }
            assert(rows_map(after) =~= rows_map(before).remove(k));
        },
        None => {
            assert(rows_map(after) =~= rows_map(before).remove(k));
        },
    }
}

} // verus!
