//! Rows of the relational store's generic tables — key/value mapping
//! entries, raw operations, and ratifications — with their query and
//! write primitives.  Mapping rows are keyed by `key_id` and never
//! deleted: removal is a flag, so history stays queryable.

use crate::errors::PersistenceError;
use vstd::prelude::*;

verus! {

/// An option of a string, seen as an option of its characters.
pub open spec fn opt_str_view(o: Option<String>) -> Option<Seq<char>> {
    match o {
        Some(s) => Some(s@),
        None => None,
    }
}

/// The rows (in order) satisfying a predicate.
pub open spec fn matching_rows<T>(rows: Seq<T>, p: spec_fn(T) -> bool) -> Seq<T>
    decreases rows.len(),
{
    if rows.len() == 0 {
        Seq::empty()
    } else if p(rows.last()) {
        matching_rows(rows.drop_last(), p).push(rows.last())
    } else {
        matching_rows(rows.drop_last(), p)
    }
}

/// One key/value mapping entry of some program, as the feed reported it.
#[derive(Clone, Debug, PartialEq, Eq)]
pub struct Mapping {
    pub key_id: String,
    pub value_id: String,
    pub mapping_id: String,
    pub key: String,
    pub value: String,
    pub mapping_name: String,
    pub program_name: String,
    pub removed: bool,
}

/// A mapping write about to be stored; optional parts mirror what the
/// feed's operation message may omit.
#[derive(Clone, Debug, PartialEq, Eq)]
pub struct NewMapping {
    pub key_id: Option<String>,
    pub value_id: Option<String>,
    pub mapping_id: String,
    pub key: Option<String>,
    pub value: Option<String>,
    pub mapping_name: String,
    pub program_name: String,
    pub removed: bool,
}

/// The mathematical form of one mapping row.
pub struct MappingRowShape {
    pub key_id: Seq<char>,
    pub value_id: Seq<char>,
    pub mapping_id: Seq<char>,
    pub key: Seq<char>,
    pub value: Seq<char>,
    pub mapping_name: Seq<char>,
    pub program_name: Seq<char>,
    pub removed: bool,
}

impl View for Mapping {
    type V = MappingRowShape;

    open spec fn view(&self) -> MappingRowShape {
        MappingRowShape {
            key_id: self.key_id@,
            value_id: self.value_id@,
            mapping_id: self.mapping_id@,
            key: self.key@,
            value: self.value@,
            mapping_name: self.mapping_name@,
            program_name: self.program_name@,
            removed: self.removed,
        }
    }
}

/// The mapping rows, as shapes.
pub open spec fn mapping_rows_view(rows: Seq<Mapping>) -> Seq<MappingRowShape> {
    rows.map_values(|m: Mapping| m@)
}

/// Index of the first row with this `key_id`.
pub open spec fn first_key_index(rows: Seq<MappingRowShape>, kid: Seq<char>) -> Option<int>
    decreases rows.len(),
{
    if rows.len() == 0 {
        None
    } else if rows[0].key_id == kid {
        Some(0)
    } else {
        match first_key_index(rows.drop_first(), kid) {
            Some(i) => Some(i + 1),
            None => None,
        }
    }
}

/// Overwrite the row under this key, or append it where the key is new.
pub open spec fn spec_upsert_mapping_row(
    rows: Seq<MappingRowShape>,
    row: MappingRowShape,
) -> Seq<MappingRowShape> {
    match first_key_index(rows, row.key_id) {
        Some(i) => rows.update(i, row),
        None => rows.push(row),
    }
}

/// Flag every row with this `key_id` as removed.
pub open spec fn spec_flag_removed_by_key_id(
    rows: Seq<MappingRowShape>,
    kid: Seq<char>,
) -> Seq<MappingRowShape> {
    Seq::new(
        rows.len(),
        |i: int|
            if rows[i].key_id == kid {
                MappingRowShape { removed: true, ..rows[i] }
            } else {
                rows[i]
            },
    )
}

/// Flag every row of this mapping as removed.
pub open spec fn spec_flag_removed_by_mapping(
    rows: Seq<MappingRowShape>,
    name: Seq<char>,
) -> Seq<MappingRowShape> {
    Seq::new(
        rows.len(),
        |i: int|
            if rows[i].mapping_name == name {
                MappingRowShape { removed: true, ..rows[i] }
            } else {
                rows[i]
            },
    )
}

/// With pairwise-distinct keys, a matching index is the first one.
pub proof fn lemma_first_key_index_of_match(rows: Seq<MappingRowShape>, kid: Seq<char>, i: int)
    requires
        0 <= i < rows.len(),
        rows[i].key_id == kid,
        forall|p: int, q: int| 0 <= p < q < rows.len() ==> rows[p].key_id != rows[q].key_id,
    ensures
        first_key_index(rows, kid) == Some(i),
    decreases i,
{
    if i == 0 {
    } else {
        assert(rows[0].key_id != kid);
        assert(forall|j: int| 0 <= j < i - 1 ==> rows.drop_first()[j] == rows[j + 1]);
        assert forall|p: int, q: int|
            0 <= p < q < rows.drop_first().len() implies rows.drop_first()[p].key_id
            != rows.drop_first()[q].key_id by {
            assert(rows.drop_first()[p] == rows[p + 1]);
            assert(rows.drop_first()[q] == rows[q + 1]);
        }
        assert(rows.drop_first()[i - 1] == rows[i]);
        lemma_first_key_index_of_match(rows.drop_first(), kid, i - 1);
    }
}

/// Where no row matches, there is no first index.
pub proof fn lemma_first_key_index_none(rows: Seq<MappingRowShape>, kid: Seq<char>)
    requires
        forall|j: int| 0 <= j < rows.len() ==> rows[j].key_id != kid,
    ensures
        first_key_index(rows, kid) is None,
    decreases rows.len(),
{
    if rows.len() > 0 {
        lemma_first_key_index_none(rows.drop_first(), kid);
    }
}

/// The mapping table: at most one row per `key_id`.
pub struct MappingStore {
    pub rows: Vec<Mapping>,
}

/// Whether a row answers a lookup by program, mapping name, and key,
/// among rows not flagged removed.
pub open spec fn slot_matches(m: Mapping, program: Seq<char>, name: Seq<char>, key: Seq<char>) -> bool {
    m.program_name@ == program && m.mapping_name@ == name && m.key@ == key && !m.removed
}

impl MappingStore {
    /// No two rows share a `key_id`.
    pub open spec fn wf(&self) -> bool {
        forall|i: int, j: int|
            0 <= i < j < self.rows@.len() ==> self.rows@[i].key_id@ != self.rows@[j].key_id@
    }

    pub fn new() -> (s: Self)
        ensures
            s.wf(),
            s.rows@.len() == 0,
    {
        MappingStore { rows: Vec::new() }
    }

    fn find_by_key_id(&self, key_id: &String) -> (r: Option<usize>)
        ensures
            match r {
                Some(i) => i < self.rows@.len() && self.rows@[i as int].key_id@ == key_id@ && (
                forall|j: int| 0 <= j < i ==> self.rows@[j].key_id@ != key_id@),
                None => forall|j: int|
                    0 <= j < self.rows@.len() ==> self.rows@[j].key_id@ != key_id@,
            },
    {
        let n = self.rows.len();
        let mut i: usize = 0;
        while i < n
            invariant
                n == self.rows@.len(),
                i <= n,
                forall|j: int| 0 <= j < i ==> self.rows@[j].key_id@ != key_id@,
            decreases n - i,
        {
            if self.rows[i].key_id == *key_id {
                return Some(i);
            }
            i = i + 1;
        }
        None
    }
}

impl Mapping {
    /// The first live row of this program's mapping under this key.
    pub fn get_mapping_by_mapping_key<'a>(
        store: &'a MappingStore,
        program_name: &String,
        mapping_name: &String,
        mapping_key: &String,
    ) -> (r: Option<&'a Mapping>)
        ensures
            match r {
                Some(m) => exists|i: int|
                    0 <= i < store.rows@.len() && store.rows@[i] == *m && slot_matches(
                        #[trigger] store.rows@[i],
                        program_name@,
                        mapping_name@,
                        mapping_key@,
                    ),
                None => forall|i: int|
                    0 <= i < store.rows@.len() ==> !slot_matches(
                        #[trigger] store.rows@[i],
                        program_name@,
                        mapping_name@,
                        mapping_key@,
                    ),
            },
    {
        let n = store.rows.len();
        let mut i: usize = 0;
        while i < n
            invariant
                n == store.rows@.len(),
                i <= n,
                forall|j: int|
                    0 <= j < i ==> !slot_matches(
                        #[trigger] store.rows@[j],
                        program_name@,
                        mapping_name@,
                        mapping_key@,
                    ),
            decreases n - i,
        {
            let m = &store.rows[i];
            if m.program_name == *program_name && m.mapping_name == *mapping_name && m.key
                == *mapping_key && !m.removed {
                return Some(m);
            }
            i = i + 1;
        }
        None
    }

    /// The live row with this `key_id`, if any.
    pub fn get_mapping_by_key_id<'a>(store: &'a MappingStore, key_id: &String) -> (r: Option<
        &'a Mapping,
    >)
        ensures
            match r {
                Some(m) => exists|i: int|
                    0 <= i < store.rows@.len() && #[trigger] store.rows@[i] == *m
                        && store.rows@[i].key_id@ == key_id@ && !store.rows@[i].removed,
                None => forall|i: int|
                    0 <= i < store.rows@.len() ==> !(#[trigger] store.rows@[i].key_id@ == key_id@
                        && !store.rows@[i].removed),
            },
    {
        let n = store.rows.len();
        let mut i: usize = 0;
        while i < n
            invariant
                n == store.rows@.len(),
                i <= n,
                forall|j: int|
                    0 <= j < i ==> !(#[trigger] store.rows@[j].key_id@ == key_id@
                        && !store.rows@[j].removed),
            decreases n - i,
        {
            let m = &store.rows[i];
            if m.key_id == *key_id && !m.removed {
                return Some(m);
            }
            i = i + 1;
        }
        None
    }

    /// Every live row of this program, in insertion order.
    pub fn list_mapping_by_program<'a>(store: &'a MappingStore, program_name: &String) -> (r: Vec<
        &'a Mapping,
    >)
        ensures
            r@.map_values(|m: &Mapping| *m) == matching_rows(
                store.rows@,
                |m: Mapping| m.program_name@ == program_name@ && !m.removed,
            ),
    {
        let ghost p = |m: Mapping| m.program_name@ == program_name@ && !m.removed;
        let n = store.rows.len();
        let mut out: Vec<&'a Mapping> = Vec::new();
        let mut i: usize = 0;
        while i < n
            invariant
                n == store.rows@.len(),
                i <= n,
                out@.map_values(|m: &Mapping| *m) == matching_rows(
                    store.rows@.subrange(0, i as int),
                    p,
                ),
                p == (|m: Mapping| m.program_name@ == program_name@ && !m.removed),
            decreases n - i,
        {
            let ghost pre = store.rows@.subrange(0, i as int);
            let ghost cur = store.rows@.subrange(0, i as int + 1);
            proof {
                assert(cur.drop_last() =~= pre);
                assert(cur.last() == store.rows@[i as int]);
            }
            let m = &store.rows[i];
            if m.program_name == *program_name && !m.removed {
                let ghost before = out@;
                out.push(m);
                proof {
                    assert(out@.map_values(|x: &Mapping| *x) =~= before.map_values(
                        |x: &Mapping| *x,
                    ).push(store.rows@[i as int]));
                }
            } else {
                proof {
                    assert(!p(store.rows@[i as int]));
                }
            }
            i = i + 1;
        }
        proof {
            assert(store.rows@.subrange(0, n as int) =~= store.rows@);
        }
        out
    }

    /// Flag every row with this `key_id` as removed; nothing is deleted.
    pub fn remove_key_value(store: &mut MappingStore, key_id: &String)
        requires
            old(store).wf(),
        ensures
            final(store).wf(),
            final(store).rows@.len() == old(store).rows@.len(),
            forall|i: int|
                0 <= i < old(store).rows@.len() ==> #[trigger] final(store).rows@[i] == if old(
                    store,
                ).rows@[i].key_id@ == key_id@ {
                    Mapping { removed: true, ..old(store).rows@[i] }
                } else {
                    old(store).rows@[i]
                },
    {
        let n = store.rows.len();
        let mut i: usize = 0;
        while i < n
            invariant
                n == store.rows@.len(),
                i <= n,
                forall|j: int|
                    0 <= j < n ==> (#[trigger] store.rows@[j]).key_id@ == old(
                        store,
                    ).rows@[j].key_id@,
                forall|j: int|
                    0 <= j < i ==> #[trigger] store.rows@[j] == if old(store).rows@[j].key_id@
                        == key_id@ {
                        Mapping { removed: true, ..old(store).rows@[j] }
                    } else {
                        old(store).rows@[j]
                    },
                forall|j: int| i <= j < n ==> #[trigger] store.rows@[j] == old(store).rows@[j],
            decreases n - i,
        {
            if store.rows[i].key_id == *key_id {
                store.rows[i].removed = true;
            }
            i = i + 1;
        }
    }

    /// Flag every row of this mapping as removed.
    pub fn remove_mapping(store: &mut MappingStore, mapping_name: &String)
        requires
            old(store).wf(),
        ensures
            final(store).wf(),
            final(store).rows@.len() == old(store).rows@.len(),
            forall|i: int|
                0 <= i < old(store).rows@.len() ==> #[trigger] final(store).rows@[i] == if old(
                    store,
                ).rows@[i].mapping_name@ == mapping_name@ {
                    Mapping { removed: true, ..old(store).rows@[i] }
                } else {
                    old(store).rows@[i]
                },
    {
        let n = store.rows.len();
        let mut i: usize = 0;
        while i < n
            invariant
                n == store.rows@.len(),
                i <= n,
                forall|j: int|
                    0 <= j < n ==> (#[trigger] store.rows@[j]).key_id@ == old(
                        store,
                    ).rows@[j].key_id@,
                forall|j: int|
                    0 <= j < i ==> #[trigger] store.rows@[j] == if old(store).rows@[j].mapping_name@
                        == mapping_name@ {
                        Mapping { removed: true, ..old(store).rows@[j] }
                    } else {
                        old(store).rows@[j]
                    },
                forall|j: int| i <= j < n ==> #[trigger] store.rows@[j] == old(store).rows@[j],
            decreases n - i,
        {
            if store.rows[i].mapping_name == *mapping_name {
                store.rows[i].removed = true;
            }
            i = i + 1;
        }
    }
}

impl NewMapping {
    /// Insert this write under its `key_id`, or overwrite the row already
    /// there.  Fails exactly where a part the row needs is absent, and
    /// then changes nothing.
    pub fn upsert(self, store: &mut MappingStore) -> (r: Result<(), PersistenceError>)
        requires
            old(store).wf(),
        ensures
            final(store).wf(),
            r is Err <==> !(self.key_id is Some && self.value_id is Some && self.key is Some
                && self.value is Some),
            r is Err ==> final(store).rows@ == old(store).rows@,
            r is Ok ==> {
                let k = self.key_id->Some_0;
                if exists|i: int|
                    0 <= i < old(store).rows@.len() && #[trigger] old(store).rows@[i].key_id@
                        == k@ {
                    exists|i: int|
                        0 <= i < old(store).rows@.len() && #[trigger] old(store).rows@[i].key_id@
                            == k@ && final(store).rows@ == old(store).rows@.update(
                            i,
                            Mapping {
                                key_id: self.key_id->Some_0,
                                value_id: self.value_id->Some_0,
                                mapping_id: self.mapping_id,
                                key: self.key->Some_0,
                                value: self.value->Some_0,
                                mapping_name: self.mapping_name,
                                program_name: self.program_name,
                                removed: self.removed,
                            },
                        )
                } else {
                    final(store).rows@ == old(store).rows@.push(
                        Mapping {
                            key_id: k,
                            value_id: self.value_id->Some_0,
                            mapping_id: self.mapping_id,
                            key: self.key->Some_0,
                            value: self.value->Some_0,
                            mapping_name: self.mapping_name,
                            program_name: self.program_name,
                            removed: self.removed,
                        },
                    )
                }
            },
    {
        let NewMapping { key_id, value_id, mapping_id, key, value, mapping_name, program_name, removed } =
            self;
        let (key_id, value_id, key, value) = match (key_id, value_id, key, value) {
            (Some(a), Some(b), Some(c), Some(d)) => (a, b, c, d),
            _ => {
                return Err(PersistenceError::MissingField);
            },
        };
        let row = Mapping {
            key_id,
            value_id,
            mapping_id,
            key,
            value,
            mapping_name,
            program_name,
            removed,
        };
        match store.find_by_key_id(&row.key_id) {
            Some(i) => {
                let ghost old_rows = store.rows@;
                store.rows[i] = row;
                proof {
                    assert(store.rows@ =~= old_rows.update(i as int, store.rows@[i as int]));
                }
            },
            None => {
                store.rows.push(row);
            },
        }
        Ok(())
    }
}

/// One stored ratification event, with its store-assigned serial id.
#[derive(Clone, Debug, PartialEq, Eq)]
pub struct Ratify {
    pub id: u64,
    pub ratification_id: String,
    pub height: i64,
    pub type_: String,
    pub starting_round: Option<String>,
    pub total_stake: Option<String>,
    pub block_reward: Option<String>,
    pub puzzle_reward: Option<String>,
}

/// A ratification about to be stored.
#[derive(Clone, Debug, PartialEq, Eq)]
pub struct NewRatify {
    pub ratification_id: String,
    pub height: i64,
    pub type_: String,
    pub starting_round: Option<String>,
    pub total_stake: Option<String>,
    pub block_reward: Option<String>,
    pub puzzle_reward: Option<String>,
}

/// The ratification log: append-only, serial ids in row order.
pub struct RatifyStore {
    pub rows: Vec<Ratify>,
}

impl RatifyStore {
    pub fn new() -> (s: Self)
        ensures
            s.rows@.len() == 0,
    {
        RatifyStore { rows: Vec::new() }
    }
}

impl NewRatify {
    /// Append this event under the next serial id.
    pub fn insert(self, store: &mut RatifyStore)
        ensures
            final(store).rows@ == old(store).rows@.push(
                Ratify {
                    id: old(store).rows@.len() as u64,
                    ratification_id: self.ratification_id,
                    height: self.height,
                    type_: self.type_,
                    starting_round: self.starting_round,
                    total_stake: self.total_stake,
                    block_reward: self.block_reward,
                    puzzle_reward: self.puzzle_reward,
                },
            ),
    {
        let id = store.rows.len() as u64;
        let NewRatify {
            ratification_id,
            height,
            type_,
            starting_round,
            total_stake,
            block_reward,
            puzzle_reward,
        } = self;
        store.rows.push(
            Ratify {
                id,
                ratification_id,
                height,
                type_,
                starting_round,
                total_stake,
                block_reward,
                puzzle_reward,
            },
        );
    }
}

impl Ratify {
    /// Every stored event of exactly this height, in insertion order.
    pub fn list_by_height<'a>(store: &'a RatifyStore, height: i64) -> (r: Vec<&'a Ratify>)
        ensures
            r@.map_values(|m: &Ratify| *m) == matching_rows(
                store.rows@,
                |m: Ratify| m.height == height,
            ),
    {
        let ghost p = |m: Ratify| m.height == height;
        let n = store.rows.len();
        let mut out: Vec<&'a Ratify> = Vec::new();
        let mut i: usize = 0;
        while i < n
            invariant
                n == store.rows@.len(),
                i <= n,
                out@.map_values(|m: &Ratify| *m) == matching_rows(
                    store.rows@.subrange(0, i as int),
                    p,
                ),
                p == (|m: Ratify| m.height == height),
            decreases n - i,
        {
            let ghost pre = store.rows@.subrange(0, i as int);
            let ghost cur = store.rows@.subrange(0, i as int + 1);
            proof {
                assert(cur.drop_last() =~= pre);
                assert(cur.last() == store.rows@[i as int]);
            }
            let m = &store.rows[i];
            if m.height == height {
                let ghost before = out@;
                out.push(m);
                proof {
                    assert(out@.map_values(|x: &Ratify| *x) =~= before.map_values(
                        |x: &Ratify| *x,
                    ).push(store.rows@[i as int]));
                }
            } else {
                proof {
                    assert(!p(store.rows@[i as int]));
                }
            }
            i = i + 1;
        }
        proof {
            assert(store.rows@.subrange(0, n as int) =~= store.rows@);
        }
        out
    }

    /// Every stored event whose height lies in `[lo, hi]`, in insertion
    /// order.
    pub fn list_by_height_range<'a>(store: &'a RatifyStore, lo: i64, hi: i64) -> (r: Vec<
        &'a Ratify,
    >)
        ensures
            r@.map_values(|m: &Ratify| *m) == matching_rows(
                store.rows@,
                |m: Ratify| lo <= m.height <= hi,
            ),
    {
        let ghost p = |m: Ratify| lo <= m.height <= hi;
        let n = store.rows.len();
        let mut out: Vec<&'a Ratify> = Vec::new();
        let mut i: usize = 0;
        while i < n
            invariant
                n == store.rows@.len(),
                i <= n,
                out@.map_values(|m: &Ratify| *m) == matching_rows(
                    store.rows@.subrange(0, i as int),
                    p,
                ),
                p == (|m: Ratify| lo <= m.height <= hi),
            decreases n - i,
        {
            let ghost pre = store.rows@.subrange(0, i as int);
            let ghost cur = store.rows@.subrange(0, i as int + 1);
            proof {
                assert(cur.drop_last() =~= pre);
                assert(cur.last() == store.rows@[i as int]);
            }
            let m = &store.rows[i];
            if lo <= m.height && m.height <= hi {
                let ghost before = out@;
                out.push(m);
                proof {
                    assert(out@.map_values(|x: &Ratify| *x) =~= before.map_values(
                        |x: &Ratify| *x,
                    ).push(store.rows@[i as int]));
                }
            } else {
                proof {
                    assert(!p(store.rows@[i as int]));
                }
            }
            i = i + 1;
        }
        proof {
            assert(store.rows@.subrange(0, n as int) =~= store.rows@);
        }
        out
    }
}

/// Append one ratification event to the log.
pub fn insert_ratify(store: &mut RatifyStore, new_ratify: NewRatify)
    ensures
        final(store).rows@ == old(store).rows@.push(
            Ratify {
                id: old(store).rows@.len() as u64,
                ratification_id: new_ratify.ratification_id,
                height: new_ratify.height,
                type_: new_ratify.type_,
                starting_round: new_ratify.starting_round,
                total_stake: new_ratify.total_stake,
                block_reward: new_ratify.block_reward,
                puzzle_reward: new_ratify.puzzle_reward,
            },
        ),
{
    new_ratify.insert(store);
}

/// Every stored ratification of exactly this height.
pub fn get_ratifications<'a>(store: &'a RatifyStore, height: i64) -> (r: Vec<&'a Ratify>)
    ensures
        r@.map_values(|m: &Ratify| *m) == matching_rows(
            store.rows@,
            |m: Ratify| m.height == height,
        ),
{
    Ratify::list_by_height(store, height)
}

/// One stored raw operation, with its store-assigned serial id.
#[derive(Clone, Debug, PartialEq, Eq)]
pub struct Operation {
    pub id: u64,
    pub type_: String,
    pub program_name: String,
    pub mapping_id: String,
    pub key_id: Option<String>,
    pub value_id: Option<String>,
    pub mapping_name: String,
    pub key: Option<String>,
    pub value: Option<String>,
}

/// An operation about to be stored.
#[derive(Clone, Debug, PartialEq, Eq)]
pub struct NewOperation {
    pub type_: String,
    pub program_name: String,
    pub mapping_id: String,
    pub key_id: Option<String>,
    pub value_id: Option<String>,
    pub mapping_name: String,
    pub key: Option<String>,
    pub value: Option<String>,
}

/// The operation log: append-only, serial ids in row order.
pub struct OperationStore {
    pub rows: Vec<Operation>,
}

impl OperationStore {
    pub fn new() -> (s: Self)
        ensures
            s.rows@.len() == 0,
    {
        OperationStore { rows: Vec::new() }
    }
}

impl NewOperation {
    /// Append this operation under the next serial id.
    pub fn insert(self, store: &mut OperationStore)
        ensures
            final(store).rows@ == old(store).rows@.push(
                Operation {
                    id: old(store).rows@.len() as u64,
                    type_: self.type_,
                    program_name: self.program_name,
                    mapping_id: self.mapping_id,
                    key_id: self.key_id,
                    value_id: self.value_id,
                    mapping_name: self.mapping_name,
                    key: self.key,
                    value: self.value,
                },
            ),
    {
        let id = store.rows.len() as u64;
        let NewOperation {
            type_,
            program_name,
            mapping_id,
            key_id,
            value_id,
            mapping_name,
            key,
            value,
        } = self;
        store.rows.push(
            Operation {
                id,
                type_,
                program_name,
                mapping_id,
                key_id,
                value_id,
                mapping_name,
                key,
                value,
            },
        );
    }
}

impl Operation {
    /// Every stored operation of this program, in insertion order.
    pub fn list_by_program_name<'a>(store: &'a OperationStore, program_name: &String) -> (r: Vec<
        &'a Operation,
    >)
        ensures
            r@.map_values(|m: &Operation| *m) == matching_rows(
                store.rows@,
                |m: Operation| m.program_name@ == program_name@,
            ),
    {
        let ghost p = |m: Operation| m.program_name@ == program_name@;
        let n = store.rows.len();
        let mut out: Vec<&'a Operation> = Vec::new();
        let mut i: usize = 0;
        while i < n
            invariant
                n == store.rows@.len(),
                i <= n,
                out@.map_values(|m: &Operation| *m) == matching_rows(
                    store.rows@.subrange(0, i as int),
                    p,
                ),
                p == (|m: Operation| m.program_name@ == program_name@),
            decreases n - i,
        {
            let ghost pre = store.rows@.subrange(0, i as int);
            let ghost cur = store.rows@.subrange(0, i as int + 1);
            proof {
                assert(cur.drop_last() =~= pre);
                assert(cur.last() == store.rows@[i as int]);
            }
            let m = &store.rows[i];
            if m.program_name == *program_name {
                let ghost before = out@;
                out.push(m);
                proof {
                    assert(out@.map_values(|x: &Operation| *x) =~= before.map_values(
                        |x: &Operation| *x,
                    ).push(store.rows@[i as int]));
                }
            } else {
                proof {
                    assert(!p(store.rows@[i as int]));
                }
            }
            i = i + 1;
        }
        proof {
            assert(store.rows@.subrange(0, n as int) =~= store.rows@);
        }
        out
    }
}

} // verus!
