//! Key-addressed row tables: the in-memory form of the relational store that
//! the projector writes through.  Every table keeps at most one row per
//! natural key, and every write is key-addressed (insert-if-absent, keyed
//! update, or upsert), which is what makes replaying a record idempotent.

use vstd::prelude::*;

verus! {

/// First row whose key views to `k`, scanning from the front.
pub open spec fn str_rows_get<V>(rows: Seq<(String, V)>, k: Seq<char>) -> Option<V>
    decreases rows.len(),
{
    if rows.len() == 0 {
        None
    } else if rows[0].0@ == k {
        Some(rows[0].1)
    } else {
        str_rows_get(rows.drop_first(), k)
    }
}

/// A table of rows keyed by strings; at most one row per key.
pub struct StrTable<V> {
    pub rows: Vec<(String, V)>,
}

impl<V> View for StrTable<V> {
    type V = Map<Seq<char>, V>;

    open spec fn view(&self) -> Map<Seq<char>, V> {
        Map::new(
            |k: Seq<char>| str_rows_get(self.rows@, k) is Some,
            |k: Seq<char>| str_rows_get(self.rows@, k)->Some_0,
        )
    }
}

impl<V> StrTable<V> {
    /// No two rows share a key.
    pub open spec fn wf(&self) -> bool {
        forall|i: int, j: int|
            0 <= i < j < self.rows@.len() ==> self.rows@[i].0@ != self.rows@[j].0@
    }

    pub fn new() -> (t: Self)
        ensures
            t.wf(),
            t@ == Map::<Seq<char>, V>::empty(),
            t.rows@.len() == 0,
    {
        let t = StrTable { rows: Vec::new() };
        proof {
            assert(t@ =~= Map::<Seq<char>, V>::empty());
        }
        t
    }

    pub fn len(&self) -> (n: usize)
        ensures
            n == self.rows@.len(),
    {
        self.rows.len()
    }

    fn find(&self, k: &String) -> (r: Option<usize>)
        ensures
            match r {
                Some(i) => i < self.rows@.len() && self.rows@[i as int].0@ == k@ && (forall|j: int|
                    0 <= j < i ==> self.rows@[j].0@ != k@),
                None => forall|j: int| 0 <= j < self.rows@.len() ==> self.rows@[j].0@ != k@,
            },
    {
        let n = self.rows.len();
        let mut i: usize = 0;
        while i < n
            invariant
                n == self.rows@.len(),
                i <= n,
                forall|j: int| 0 <= j < i ==> self.rows@[j].0@ != k@,
            decreases n - i,
        {
            if self.rows[i].0 == *k {
                return Some(i);
            }
            i = i + 1;
        }
        None
    }

    pub fn contains_key(&self, k: &String) -> (b: bool)
        ensures
            b == self@.contains_key(k@),
    {
        match self.find(k) {
            Some(i) => {
                proof {
                    lemma_str_rows_get_at_index(self.rows@, k@, i as int);
                }
                true
            },
            None => {
                proof {
                    lemma_str_rows_get_none(self.rows@, k@);
                }
                false
            },
        }
    }

    /// Reference to the row stored under `k`, if any.
    pub fn get(&self, k: &String) -> (r: Option<&V>)
        ensures
            match r {
                Some(v) => self@.contains_key(k@) && *v == self@[k@],
                None => !self@.contains_key(k@),
            },
    {
        match self.find(k) {
            Some(i) => {
                proof {
                    lemma_str_rows_get_at_index(self.rows@, k@, i as int);
                }
                Some(&self.rows[i].1)
            },
            None => {
                proof {
                    lemma_str_rows_get_none(self.rows@, k@);
                }
                None
            },
        }
    }

    /// Insert-or-ignore: the first write for a key sticks; later inserts for
    /// the same key change nothing.
    pub fn insert_if_absent(&mut self, k: String, v: V)
        requires
            old(self).wf(),
        ensures
            final(self).wf(),
            final(self)@ == spec_insert_if_absent(old(self)@, k@, v),
            final(self).rows@.len() == if old(self)@.contains_key(k@) {
                old(self).rows@.len()
            } else {
                old(self).rows@.len() + 1
            },
    {
        let ghost gk = k@;
        match self.find(&k) {
            Some(i) => {
                proof {
                    lemma_str_rows_get_at_index(self.rows@, gk, i as int);
                    assert(self@ =~= spec_insert_if_absent(old(self)@, gk, v));
                }
            },
            None => {
                let ghost old_rows = self.rows@;
                proof {
                    lemma_str_rows_get_none(old_rows, gk);
                }
                self.rows.push((k, v));
                proof {
                    let p = self.rows@[old_rows.len() as int];
                    assert(self.rows@ =~= old_rows.push(p));
                    lemma_str_rows_get_push(old_rows, p);
                    assert(self@ =~= spec_insert_if_absent(old(self)@, gk, v));
                }
            },
        }
    }

    /// Keyed update: overwrite the row stored under `k`; where no row has
    /// that key, change nothing.
    pub fn update_by_key(&mut self, k: &String, v: V)
        requires
            old(self).wf(),
        ensures
            final(self).wf(),
            final(self)@ == spec_update_existing(old(self)@, k@, v),
            final(self).rows@.len() == old(self).rows@.len(),
    {
        let ghost gk = k@;
        match self.find(k) {
            Some(i) => {
                proof {
                    lemma_str_rows_get_at_index(self.rows@, gk, i as int);
                }
                let ghost old_rows = self.rows@;
                self.rows[i].1 = v;
                proof {
                    assert(self.rows@ =~= old_rows.update(
                        i as int,
                        (old_rows[i as int].0, self.rows@[i as int].1),
                    ));
                    lemma_str_rows_get_value_update(old_rows, i as int, self.rows@[i as int].1, gk);
                    assert(self@ =~= spec_update_existing(old(self)@, gk, self.rows@[i as int].1));
                }
            },
            None => {
                proof {
                    lemma_str_rows_get_none(self.rows@, gk);
                    assert(self@ =~= spec_update_existing(old(self)@, gk, v));
                }
            },
        }
    }

    /// Insert-or-update: after the call the table binds `k` to `v`, whatever
    /// it held before.
    pub fn upsert(&mut self, k: String, v: V)
        requires
            old(self).wf(),
        ensures
            final(self).wf(),
            final(self)@ == old(self)@.insert(k@, v),
            final(self).rows@.len() == if old(self)@.contains_key(k@) {
                old(self).rows@.len()
            } else {
                old(self).rows@.len() + 1
            },
    {
        let ghost gk = k@;
        match self.find(&k) {
            Some(i) => {
                proof {
                    lemma_str_rows_get_at_index(self.rows@, gk, i as int);
                }
                let ghost old_rows = self.rows@;
                self.rows[i].1 = v;
                proof {
                    assert(self.rows@ =~= old_rows.update(
                        i as int,
                        (old_rows[i as int].0, self.rows@[i as int].1),
                    ));
                    lemma_str_rows_get_value_update(old_rows, i as int, self.rows@[i as int].1, gk);
                    assert(self@ =~= old(self)@.insert(gk, self.rows@[i as int].1));
                }
            },
            None => {
                let ghost old_rows = self.rows@;
                proof {
                    lemma_str_rows_get_none(old_rows, gk);
                }
                self.rows.push((k, v));
                proof {
                    let p = self.rows@[old_rows.len() as int];
                    assert(self.rows@ =~= old_rows.push(p));
                    lemma_str_rows_get_push(old_rows, p);
                    assert(self@ =~= old(self)@.insert(gk, v));
                }
            },
        }
    }
}

/// First row whose key equals `k`, scanning from the front.
pub open spec fn u64_rows_get<V>(rows: Seq<(u64, V)>, k: u64) -> Option<V>
    decreases rows.len(),
{
    if rows.len() == 0 {
        None
    } else if rows[0].0 == k {
        Some(rows[0].1)
    } else {
        u64_rows_get(rows.drop_first(), k)
    }
}

/// A table of rows keyed by unsigned integers; at most one row per key.
pub struct U64Table<V> {
    pub rows: Vec<(u64, V)>,
}

impl<V> View for U64Table<V> {
    type V = Map<u64, V>;

    open spec fn view(&self) -> Map<u64, V> {
        Map::new(
            |k: u64| u64_rows_get(self.rows@, k) is Some,
            |k: u64| u64_rows_get(self.rows@, k)->Some_0,
        )
    }
}

impl<V> U64Table<V> {
    /// No two rows share a key.
    pub open spec fn wf(&self) -> bool {
        forall|i: int, j: int|
            0 <= i < j < self.rows@.len() ==> self.rows@[i].0 != self.rows@[j].0
    }

    pub fn new() -> (t: Self)
        ensures
            t.wf(),
            t@ == Map::<u64, V>::empty(),
            t.rows@.len() == 0,
    {
        let t = U64Table { rows: Vec::new() };
        proof {
            assert(t@ =~= Map::<u64, V>::empty());
        }
        t
    }

    pub fn len(&self) -> (n: usize)
        ensures
            n == self.rows@.len(),
    {
        self.rows.len()
    }

    fn find(&self, k: u64) -> (r: Option<usize>)
        ensures
            match r {
                Some(i) => i < self.rows@.len() && self.rows@[i as int].0 == k && (forall|j: int|
                    0 <= j < i ==> self.rows@[j].0 != k),
                None => forall|j: int| 0 <= j < self.rows@.len() ==> self.rows@[j].0 != k,
            },
    {
        let n = self.rows.len();
        let mut i: usize = 0;
        while i < n
            invariant
                n == self.rows@.len(),
                i <= n,
                forall|j: int| 0 <= j < i ==> self.rows@[j].0 != k,
            decreases n - i,
        {
            if self.rows[i].0 == k {
                return Some(i);
            }
            i = i + 1;
        }
        None
    }

    pub fn contains_key(&self, k: u64) -> (b: bool)
        ensures
            b == self@.contains_key(k),
    {
        match self.find(k) {
            Some(i) => {
                proof {
                    lemma_u64_rows_get_at_index(self.rows@, k, i as int);
                }
                true
            },
            None => {
                proof {
                    lemma_u64_rows_get_none(self.rows@, k);
                }
                false
            },
        }
    }

    /// Reference to the row stored under `k`, if any.
    pub fn get(&self, k: u64) -> (r: Option<&V>)
        ensures
            match r {
                Some(v) => self@.contains_key(k) && *v == self@[k],
                None => !self@.contains_key(k),
            },
    {
        match self.find(k) {
            Some(i) => {
                proof {
                    lemma_u64_rows_get_at_index(self.rows@, k, i as int);
                }
                Some(&self.rows[i].1)
            },
            None => {
                proof {
                    lemma_u64_rows_get_none(self.rows@, k);
                }
                None
            },
        }
    }

    /// Insert-or-ignore: the first write for a key sticks; later inserts for
    /// the same key change nothing.
    pub fn insert_if_absent(&mut self, k: u64, v: V)
        requires
            old(self).wf(),
        ensures
            final(self).wf(),
            final(self)@ == spec_insert_if_absent(old(self)@, k, v),
            final(self).rows@.len() == if old(self)@.contains_key(k) {
                old(self).rows@.len()
            } else {
                old(self).rows@.len() + 1
            },
    {
        match self.find(k) {
            Some(i) => {
                proof {
                    lemma_u64_rows_get_at_index(self.rows@, k, i as int);
                    assert(self@ =~= spec_insert_if_absent(old(self)@, k, v));
                }
            },
            None => {
                let ghost old_rows = self.rows@;
                proof {
                    lemma_u64_rows_get_none(old_rows, k);
                }
                self.rows.push((k, v));
                proof {
                    let p = self.rows@[old_rows.len() as int];
                    assert(self.rows@ =~= old_rows.push(p));
                    lemma_u64_rows_get_push(old_rows, p);
                    assert(self@ =~= spec_insert_if_absent(old(self)@, k, v));
                }
            },
        }
    }

    /// Keyed update: overwrite the row stored under `k`; where no row has
    /// that key, change nothing.
    pub fn update_by_key(&mut self, k: u64, v: V)
        requires
            old(self).wf(),
        ensures
            final(self).wf(),
            final(self)@ == spec_update_existing(old(self)@, k, v),
            final(self).rows@.len() == old(self).rows@.len(),
    {
        match self.find(k) {
            Some(i) => {
                proof {
                    lemma_u64_rows_get_at_index(self.rows@, k, i as int);
                }
                let ghost old_rows = self.rows@;
                self.rows[i].1 = v;
                proof {
                    assert(self.rows@ =~= old_rows.update(
                        i as int,
                        (old_rows[i as int].0, self.rows@[i as int].1),
                    ));
                    lemma_u64_rows_get_value_update(old_rows, i as int, self.rows@[i as int].1, k);
                    assert(self@ =~= spec_update_existing(old(self)@, k, self.rows@[i as int].1));
                }
            },
            None => {
                proof {
                    lemma_u64_rows_get_none(self.rows@, k);
                    assert(self@ =~= spec_update_existing(old(self)@, k, v));
                }
            },
        }
    }

    /// Insert-or-update: after the call the table binds `k` to `v`, whatever
    /// it held before.
    pub fn upsert(&mut self, k: u64, v: V)
        requires
            old(self).wf(),
        ensures
            final(self).wf(),
            final(self)@ == old(self)@.insert(k, v),
            final(self).rows@.len() == if old(self)@.contains_key(k) {
                old(self).rows@.len()
            } else {
                old(self).rows@.len() + 1
            },
    {
        match self.find(k) {
            Some(i) => {
                proof {
                    lemma_u64_rows_get_at_index(self.rows@, k, i as int);
                }
                let ghost old_rows = self.rows@;
                self.rows[i].1 = v;
                proof {
                    assert(self.rows@ =~= old_rows.update(
                        i as int,
                        (old_rows[i as int].0, self.rows@[i as int].1),
                    ));
                    lemma_u64_rows_get_value_update(old_rows, i as int, self.rows@[i as int].1, k);
                    assert(self@ =~= old(self)@.insert(k, self.rows@[i as int].1));
                }
            },
            None => {
                let ghost old_rows = self.rows@;
                proof {
                    lemma_u64_rows_get_none(old_rows, k);
                }
                self.rows.push((k, v));
                proof {
                    let p = self.rows@[old_rows.len() as int];
                    assert(self.rows@ =~= old_rows.push(p));
                    lemma_u64_rows_get_push(old_rows, p);
                    assert(self@ =~= old(self)@.insert(k, v));
                }
            },
        }
    }
}

/// Where no row matches, the lookup misses.
proof fn lemma_u64_rows_get_none<V>(rows: Seq<(u64, V)>, k: u64)
    requires
        forall|j: int| 0 <= j < rows.len() ==> rows[j].0 != k,
    ensures
        u64_rows_get(rows, k) is None,
    decreases rows.len(),
{
    if rows.len() > 0 {
        lemma_u64_rows_get_none(rows.drop_first(), k);
    }
}

/// The first matching row decides the lookup.
proof fn lemma_u64_rows_get_at_index<V>(rows: Seq<(u64, V)>, k: u64, i: int)
    requires
        0 <= i < rows.len(),
        rows[i].0 == k,
        forall|j: int| 0 <= j < i ==> rows[j].0 != k,
    ensures
        u64_rows_get(rows, k) == Some(rows[i].1),
    decreases i,
{
    if i > 0 {
        assert(forall|j: int| 0 <= j < i - 1 ==> rows.drop_first()[j] == rows[j + 1]);
        lemma_u64_rows_get_at_index(rows.drop_first(), k, i - 1);
    }
}

/// Replacing the value of the first row matching `k` rebinds exactly `k`.
proof fn lemma_u64_rows_get_value_update<V>(rows: Seq<(u64, V)>, i: int, v: V, k: u64)
    requires
        0 <= i < rows.len(),
        rows[i].0 == k,
        forall|j: int| 0 <= j < i ==> rows[j].0 != k,
    ensures
        forall|q: u64|
            #![trigger u64_rows_get(rows.update(i, (rows[i].0, v)), q)]
            u64_rows_get(rows.update(i, (rows[i].0, v)), q) == if q == k {
                Some(v)
            } else {
                u64_rows_get(rows, q)
            },
    decreases i,
{
    let xs = rows.update(i, (rows[i].0, v));
    if i == 0 {
        assert forall|q: u64| true implies #[trigger] u64_rows_get(xs, q) == if q == k {
            Some(v)
        } else {
            u64_rows_get(rows, q)
        } by {
            assert(xs[0] == (rows[0].0, v));
            assert(xs.drop_first() =~= rows.drop_first());
        }
    } else {
        lemma_u64_rows_get_value_update(rows.drop_first(), i - 1, v, k);
        assert forall|q: u64| true implies #[trigger] u64_rows_get(xs, q) == if q == k {
            Some(v)
        } else {
            u64_rows_get(rows, q)
        } by {
            assert(xs[0] == rows[0]);
            assert(rows.drop_first()[i - 1] == rows[i]);
            assert(xs.drop_first() =~= rows.drop_first().update(i - 1, (rows[i].0, v)));
            assert(u64_rows_get(xs.drop_first(), q) == u64_rows_get(
                rows.drop_first().update(i - 1, (rows.drop_first()[i - 1].0, v)),
                q,
            ));
        }
    }
}

/// Appending a row with a fresh key binds exactly that key in addition.
proof fn lemma_u64_rows_get_push<V>(rows: Seq<(u64, V)>, p: (u64, V))
    ensures
        forall|q: u64|
            #![trigger u64_rows_get(rows.push(p), q)]
            u64_rows_get(rows.push(p), q) == if u64_rows_get(rows, q) is Some {
                u64_rows_get(rows, q)
            } else if q == p.0 {
                Some(p.1)
            } else {
                None::<V>
            },
    decreases rows.len(),
{
    let xs = rows.push(p);
    if rows.len() == 0 {
        assert forall|q: u64| true implies #[trigger] u64_rows_get(xs, q) == if u64_rows_get(
            rows,
            q,
        ) is Some {
            u64_rows_get(rows, q)
        } else if q == p.0 {
            Some(p.1)
        } else {
            None::<V>
        } by {
            assert(xs.len() == 1);
            assert(xs[0] == p);
            assert(xs.drop_first().len() == 0);
            assert(u64_rows_get(xs.drop_first(), q) is None);
            assert(u64_rows_get(rows, q) is None);
        }
    } else {
        lemma_u64_rows_get_push(rows.drop_first(), p);
        assert forall|q: u64| true implies #[trigger] u64_rows_get(xs, q) == if u64_rows_get(
            rows,
            q,
        ) is Some {
            u64_rows_get(rows, q)
        } else if q == p.0 {
            Some(p.1)
        } else {
            None::<V>
        } by {
            assert(xs[0] == rows[0]);
            assert(xs.drop_first() =~= rows.drop_first().push(p));
            assert(u64_rows_get(xs.drop_first(), q) == u64_rows_get(rows.drop_first().push(p), q));
        }
    }
}

/// Insert only where the key is not yet bound.
pub open spec fn spec_insert_if_absent<K, V>(m: Map<K, V>, k: K, v: V) -> Map<K, V> {
    if m.contains_key(k) {
        m
    } else {
        m.insert(k, v)
    }
}

/// Update only where the key is already bound.
pub open spec fn spec_update_existing<K, V>(m: Map<K, V>, k: K, v: V) -> Map<K, V> {
    if m.contains_key(k) {
        m.insert(k, v)
    } else {
        m
    }
}

/// Where no row matches, the lookup misses.
proof fn lemma_str_rows_get_none<V>(rows: Seq<(String, V)>, k: Seq<char>)
    requires
        forall|j: int| 0 <= j < rows.len() ==> rows[j].0@ != k,
    ensures
        str_rows_get(rows, k) is None,
    decreases rows.len(),
{
    if rows.len() > 0 {
        lemma_str_rows_get_none(rows.drop_first(), k);
    }
}

/// The first matching row decides the lookup.
proof fn lemma_str_rows_get_at_index<V>(rows: Seq<(String, V)>, k: Seq<char>, i: int)
    requires
        0 <= i < rows.len(),
        rows[i].0@ == k,
        forall|j: int| 0 <= j < i ==> rows[j].0@ != k,
    ensures
        str_rows_get(rows, k) == Some(rows[i].1),
    decreases i,
{
    if i > 0 {
        assert(forall|j: int| 0 <= j < i - 1 ==> rows.drop_first()[j] == rows[j + 1]);
        lemma_str_rows_get_at_index(rows.drop_first(), k, i - 1);
    }
}

/// Replacing the value of the first row matching `k` rebinds exactly `k`.
proof fn lemma_str_rows_get_value_update<V>(rows: Seq<(String, V)>, i: int, v: V, k: Seq<char>)
    requires
        0 <= i < rows.len(),
        rows[i].0@ == k,
        forall|j: int| 0 <= j < i ==> rows[j].0@ != k,
    ensures
        forall|q: Seq<char>|
            #![trigger str_rows_get(rows.update(i, (rows[i].0, v)), q)]
            str_rows_get(rows.update(i, (rows[i].0, v)), q) == if q == k {
                Some(v)
            } else {
                str_rows_get(rows, q)
            },
    decreases i,
{
    let xs = rows.update(i, (rows[i].0, v));
    if i == 0 {
        assert forall|q: Seq<char>| true implies #[trigger] str_rows_get(xs, q) == if q == k {
            Some(v)
        } else {
            str_rows_get(rows, q)
        } by {
            assert(xs[0] == (rows[0].0, v));
            assert(xs.drop_first() =~= rows.drop_first());
        }
    } else {
        lemma_str_rows_get_value_update(rows.drop_first(), i - 1, v, k);
        assert forall|q: Seq<char>| true implies #[trigger] str_rows_get(xs, q) == if q == k {
            Some(v)
        } else {
            str_rows_get(rows, q)
        } by {
            assert(xs[0] == rows[0]);
            assert(rows.drop_first()[i - 1] == rows[i]);
            assert(xs.drop_first() =~= rows.drop_first().update(i - 1, (rows[i].0, v)));
            assert(str_rows_get(xs.drop_first(), q) == str_rows_get(
                rows.drop_first().update(i - 1, (rows.drop_first()[i - 1].0, v)),
                q,
            ));
        }
    }
}

/// Appending a row with a fresh key binds exactly that key in addition.
proof fn lemma_str_rows_get_push<V>(rows: Seq<(String, V)>, p: (String, V))
    ensures
        forall|q: Seq<char>|
            #![trigger str_rows_get(rows.push(p), q)]
            str_rows_get(rows.push(p), q) == if str_rows_get(rows, q) is Some {
                str_rows_get(rows, q)
            } else if q == p.0@ {
                Some(p.1)
            } else {
                None::<V>
            },
    decreases rows.len(),
{
    let xs = rows.push(p);
    if rows.len() == 0 {
        assert forall|q: Seq<char>| true implies #[trigger] str_rows_get(xs, q) == if str_rows_get(
            rows,
            q,
        ) is Some {
            str_rows_get(rows, q)
        } else if q == p.0@ {
            Some(p.1)
        } else {
            None::<V>
        } by {
            assert(xs.len() == 1);
            assert(xs[0] == p);
            assert(xs.drop_first().len() == 0);
            assert(str_rows_get(xs.drop_first(), q) is None);
            assert(str_rows_get(rows, q) is None);
        }
    } else {
        lemma_str_rows_get_push(rows.drop_first(), p);
        assert forall|q: Seq<char>| true implies #[trigger] str_rows_get(xs, q) == if str_rows_get(
            rows,
            q,
        ) is Some {
            str_rows_get(rows, q)
        } else if q == p.0@ {
            Some(p.1)
        } else {
            None::<V>
        } by {
            assert(xs[0] == rows[0]);
            assert(xs.drop_first() =~= rows.drop_first().push(p));
            assert(str_rows_get(xs.drop_first(), q) == str_rows_get(rows.drop_first().push(p), q));
        }
    }
}

} // verus!
