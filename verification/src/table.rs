//! A small table from keys to values, each key at most once.

use vstd::prelude::*;

verus! {

/// A key: two of them are the same exactly where their views are.
pub trait Key: View + Sized {
    /// Whether the two are the same key.
    fn same(&self, other: &Self) -> (r: bool)
        ensures
            r == (self@ == other@),
    ;
}

/// Rows of a key and a value, in no promised order.
pub struct Table<K, V> {
    pub rows: Vec<(K, V)>,
}

/// Whether some row has the key.
pub open spec fn has_row<K: Key, V>(rows: Seq<(K, V)>, k: K::V) -> bool {
    exists|i: int| 0 <= i < rows.len() && (#[trigger] rows[i]).0@ == k
}

/// A row with the key.
pub open spec fn row_of<K: Key, V>(rows: Seq<(K, V)>, k: K::V) -> int {
    choose|i: int| 0 <= i < rows.len() && (#[trigger] rows[i]).0@ == k
}

/// No key stands in two rows.
pub open spec fn distinct<K: Key, V>(rows: Seq<(K, V)>) -> bool {
    forall|i: int, j: int|
        0 <= i < j < rows.len() ==> (#[trigger] rows[i]).0@ != (#[trigger] rows[j]).0@
}

/// The table that the rows make.
pub open spec fn table_of<K: Key, V>(rows: Seq<(K, V)>) -> Map<K::V, V> {
    Map::new(|k: K::V| has_row(rows, k), |k: K::V| rows[row_of(rows, k)].1)
}

/// In rows with distinct keys, the row of a row's key is that row.
proof fn lemma_row<K: Key, V>(rows: Seq<(K, V)>, i: int)
    requires
        distinct(rows),
        0 <= i < rows.len(),
    ensures
        has_row(rows, rows[i].0@),
        row_of(rows, rows[i].0@) == i,
        table_of(rows).contains_key(rows[i].0@),
        table_of(rows)[rows[i].0@] == rows[i].1,
{
    let k = rows[i].0@;
    assert(rows[i].0@ == k);
    let j = row_of(rows, k);
    assert(rows[j].0@ == k);
    if i < j {
        assert(rows[i].0@ != rows[j].0@);
    } else if j < i {
        assert(rows[j].0@ != rows[i].0@);
    }
}

/// Adding a row with a new key adds that key.
proof fn lemma_push<K: Key, V>(rows: Seq<(K, V)>, row: (K, V))
    requires
        distinct(rows),
        !has_row(rows, row.0@),
    ensures
        distinct(rows.push(row)),
        table_of(rows.push(row)) == table_of(rows).insert(row.0@, row.1),
{
    let after = rows.push(row);
    assert(distinct(after)) by {
        assert forall|i: int, j: int| 0 <= i < j < after.len() implies (#[trigger] after[i]).0@ != (
        #[trigger] after[j]).0@ by {
            if j < rows.len() {
                assert(rows[i].0@ != rows[j].0@);
            } else {
                assert(rows[i].0@ != row.0@);
            }
        }
    }
    assert forall|k: K::V| #![auto]
        table_of(after).contains_key(k) <==> table_of(rows).insert(row.0@, row.1).contains_key(
            k,
        ) by {
        if has_row(rows, k) {
            let i = row_of(rows, k);
            assert(after[i].0@ == k);
        }
        if k == row.0@ {
            assert(after[rows.len() as int].0@ == k);
        }
        if has_row(after, k) {
            let i = row_of(after, k);
            if i < rows.len() {
                assert(rows[i].0@ == k);
            }
        }
    }
    assert forall|k: K::V| #![auto]
        table_of(after).contains_key(k) implies table_of(after)[k] == table_of(rows).insert(
        row.0@,
        row.1,
    )[k] by {
        let i = row_of(after, k);
        assert(after[i].0@ == k);
        lemma_row(after, i);
        if i < rows.len() {
            assert(rows[i].0@ == k);
            lemma_row(rows, i);
            assert(k != row.0@);
        }
    }
    assert(table_of(after) =~= table_of(rows).insert(row.0@, row.1));
}

/// Taking a row out takes its key out.
proof fn lemma_remove<K: Key, V>(rows: Seq<(K, V)>, at: int)
    requires
        distinct(rows),
        0 <= at < rows.len(),
    ensures
        distinct(rows.remove(at)),
        !has_row(rows.remove(at), rows[at].0@),
        table_of(rows.remove(at)) == table_of(rows).remove(rows[at].0@),
{
    let after = rows.remove(at);
    let gone = rows[at].0@;
    assert forall|i: int, j: int| 0 <= i < j < after.len() implies (#[trigger] after[i]).0@ != (
    #[trigger] after[j]).0@ by {
        let i0 = if i < at {
            i
        } else {
            i + 1
        };
        let j0 = if j < at {
            j
        } else {
            j + 1
        };
        assert(rows[i0].0@ != rows[j0].0@);
    }
    if has_row(after, gone) {
        let i = row_of(after, gone);
        assert(after[i].0@ == gone);
        let i0 = if i < at {
            i
        } else {
            i + 1
        };
        assert(rows[i0].0@ == gone);
        lemma_row(rows, i0);
        lemma_row(rows, at);
    }
    assert forall|k: K::V| #![auto]
        table_of(after).contains_key(k) <==> table_of(rows).remove(gone).contains_key(k) by {
        if has_row(after, k) {
            let i = row_of(after, k);
            let i0 = if i < at {
                i
            } else {
                i + 1
            };
            assert(rows[i0].0@ == k);
        }
        if has_row(rows, k) && k != gone {
            let i = row_of(rows, k);
            let i1 = if i < at {
                i
            } else {
                i - 1
            };
            assert(after[i1].0@ == k);
        }
    }
    assert forall|k: K::V| #![auto]
        table_of(after).contains_key(k) implies table_of(after)[k] == table_of(rows).remove(
        gone,
    )[k] by {
        let i = row_of(after, k);
        assert(after[i].0@ == k);
        lemma_row(after, i);
        let i0 = if i < at {
            i
        } else {
            i + 1
        };
        assert(rows[i0].0@ == k);
        lemma_row(rows, i0);
    }
    assert(table_of(after) =~= table_of(rows).remove(gone));
}

/// The part of a table whose values pass.
pub open spec fn kept<M, V>(m: Map<M, V>, keep: spec_fn(V) -> bool) -> Map<M, V> {
    Map::new(|k: M| m.contains_key(k) && keep(m[k]), |k: M| m[k])
}

impl<K: Key, V> Table<K, V> {
    /// Each key stands in one row.
    pub open spec fn wf(self) -> bool {
        distinct(self.rows@)
    }

    /// An empty table.
    pub fn new() -> (t: Self)
        ensures
            t.wf(),
            t@ == Map::<K::V, V>::empty(),
    {
        let t = Table { rows: Vec::new() };
        assert(t@ =~= Map::<K::V, V>::empty());
        t
    }

    /// The row with the key.
    pub fn find(&self, key: &K) -> (r: Option<usize>)
        requires
            self.wf(),
        ensures
            match r {
                Some(i) => i < self.rows@.len() && self.rows@[i as int].0@ == key@
                    && self@.contains_key(key@) && self@[key@] == self.rows@[i as int].1,
                None => !self@.contains_key(key@) && !has_row(self.rows@, key@),
            },
    {
        let mut i: usize = 0;
        while i < self.rows.len()
            invariant
                self.wf(),
                i <= self.rows@.len(),
                forall|j: int| 0 <= j < i ==> (#[trigger] self.rows@[j]).0@ != key@,
            decreases self.rows@.len() - i,
        {
            if self.rows[i].0.same(key) {
                proof {
                    lemma_row(self.rows@, i as int);
                }
                return Some(i);
            }
            i = i + 1;
        }
        None
    }

    /// The value under the key.
    pub fn get(&self, key: &K) -> (r: Option<&V>)
        requires
            self.wf(),
        ensures
            match r {
                Some(v) => self@.contains_key(key@) && *v == self@[key@],
                None => !self@.contains_key(key@),
            },
    {
        match self.find(key) {
            Some(i) => Some(&self.rows[i].1),
            None => None,
        }
    }

    /// Forget the key, handing out what stood under it.
    pub fn remove(&mut self, key: &K) -> (r: Option<V>)
        requires
            old(self).wf(),
        ensures
            final(self).wf(),
            final(self)@ == old(self)@.remove(key@),
            !has_row(final(self).rows@, key@),
            match r {
                Some(v) => old(self)@.contains_key(key@) && v == old(self)@[key@],
                None => !old(self)@.contains_key(key@),
            },
    {
        match self.find(key) {
            Some(i) => {
                proof {
                    lemma_remove(self.rows@, i as int);
                }
                let row = self.rows.remove(i);
                Some(row.1)
            },
            None => {
                assert(self@.remove(key@) =~= self@);
                None
            },
        }
    }

    /// Take any one row out.
    pub fn pop(&mut self) -> (r: Option<(K, V)>)
        requires
            old(self).wf(),
        ensures
            final(self).wf(),
            match r {
                Some(row) => old(self)@.contains_key(row.0@) && old(self)@[row.0@] == row.1
                    && final(self)@ == old(self)@.remove(row.0@) && final(self).rows@.len()
                    == old(self).rows@.len() - 1,
                None => old(self)@ == Map::<K::V, V>::empty() && final(self)@ == old(self)@,
            },
    {
        let n: usize = self.rows.len();
        if n == 0 {
            assert(self@ =~= Map::<K::V, V>::empty());
            return None;
        }
        proof {
            lemma_row(self.rows@, n - 1);
            lemma_remove(self.rows@, n - 1);
            assert(self.rows@.remove(n - 1) =~= self.rows@.drop_last());
        }
        self.rows.pop()
    }

    /// Put a value under the key, in place of what stood there.
    pub fn insert(&mut self, key: K, value: V)
        requires
            old(self).wf(),
        ensures
            final(self).wf(),
            final(self)@ == old(self)@.insert(key@, value),
    {
        let _ = self.remove(&key);
        proof {
            lemma_push(self.rows@, (key, value));
            assert(old(self)@.remove(key@).insert(key@, value) =~= old(self)@.insert(key@, value));
        }
        self.rows.push((key, value));
    }

    /// Keep the rows whose value passes, and no others.
    pub fn retain<F: Fn(&V) -> bool>(&mut self, keep: F, Ghost(passes): Ghost<spec_fn(V) -> bool>)
        requires
            old(self).wf(),
            forall|v: V| #[trigger] keep.requires((&v,)),
            forall|v: V, b: bool| #[trigger] keep.ensures((&v,), b) ==> b == passes(v),
        ensures
            final(self).wf(),
            final(self)@ == kept(old(self)@, passes),
    {
        let ghost before = self.rows@;
        let mut i: usize = 0;
        proof {
            assert(kept(table_of(before), passes) =~= kept(self@, passes));
        }
        while i < self.rows.len()
            invariant
                forall|v: V| #[trigger] keep.requires((&v,)),
                forall|v: V, b: bool| #[trigger] keep.ensures((&v,), b) ==> b == passes(v),
                self.wf(),
                i <= self.rows@.len(),
                forall|j: int| 0 <= j < i ==> passes((#[trigger] self.rows@[j]).1),
                kept(self@, passes) == kept(table_of(before), passes),
            decreases self.rows@.len() - i,
        {
            if keep(&self.rows[i].1) {
                i = i + 1;
            } else {
                let ghost rows = self.rows@;
                proof {
                    lemma_row(rows, i as int);
                    lemma_remove(rows, i as int);
                    assert(kept(table_of(rows).remove(rows[i as int].0@), passes) =~= kept(
                        table_of(rows),
                        passes,
                    ));
                }
                let _ = self.rows.remove(i);
            }
        }
        proof {
            assert forall|k: K::V| #![auto] self@.contains_key(k) implies passes(self@[k]) by {
                let j = row_of(self.rows@, k);
                assert(self.rows@[j].0@ == k);
                lemma_row(self.rows@, j);
            }
            assert(kept(self@, passes) =~= self@);
        }
    }
}

impl<K: Key, V> View for Table<K, V> {
    type V = Map<K::V, V>;

    open spec fn view(&self) -> Map<K::V, V> {
        table_of(self.rows@)
    }
}

} // verus!
