//! Per-block processing of an extracted payload: every ratification and
//! every raw operation is appended to its log, and each key/value
//! operation is folded into the mapping table — upserts for inserts and
//! updates, a removal flag for removals.

use crate::decode::OperationShape;
use crate::models::first_key_index;
use crate::models::lemma_first_key_index_none;
use crate::models::lemma_first_key_index_of_match;
use crate::models::mapping_rows_view;
use crate::models::opt_str_view;
use crate::models::spec_flag_removed_by_key_id;
use crate::models::spec_flag_removed_by_mapping;
use crate::models::spec_upsert_mapping_row;
use crate::models::Mapping;
use crate::models::MappingRowShape;
use crate::models::MappingStore;
use crate::models::NewMapping;
use crate::models::NewOperation;
use crate::models::NewRatify;
use crate::models::OperationStore;
use crate::models::RatifyStore;
use crate::numtext::dec_str_of;
use crate::numtext::i32_dec_str;
use crate::numtext::i32_to_string;
use crate::numtext::u64_to_string;
use crate::records::op_type_of;
use crate::records::spec_op_type_of;
use crate::records::Extracted;
use crate::records::OperationType;
use vstd::prelude::*;

verus! {

/// An optional counter, seen as its optional decimal rendering.
pub open spec fn opt_dec_view(o: Option<u64>) -> Option<Seq<char>> {
    match o {
        Some(v) => Some(dec_str_of(v as nat)),
        None => None,
    }
}

/// Whether a stored ratification row is the faithful image of one
/// extracted ratification message, under this serial id.
pub open spec fn ratify_row_matches(
    row: crate::models::Ratify,
    msg: crate::records::Ratify,
    id: u64,
) -> bool {
    &&& row.id == id
    &&& row.ratification_id@ == msg.id@
    &&& row.height == msg.height as i64
    &&& row.type_@ == msg.r_type@
    &&& opt_str_view(row.starting_round) == opt_dec_view(msg.starting_round)
    &&& opt_str_view(row.total_stake) == opt_dec_view(msg.total_stake)
    &&& opt_str_view(row.block_reward) == opt_dec_view(msg.block_reward)
    &&& opt_str_view(row.puzzle_reward) == opt_dec_view(msg.puzzle_reward)
}

/// Whether a stored operation row is the faithful image of one extracted
/// operation message, under this serial id.
pub open spec fn operation_row_matches(
    row: crate::models::Operation,
    msg: crate::records::Operation,
    id: u64,
) -> bool {
    &&& row.id == id
    &&& row.type_@ == i32_dec_str(msg.op_type)
    &&& row.program_name@ == msg.program_name@
    &&& row.mapping_id@ == msg.mapping_id@
    &&& opt_str_view(row.key_id) == opt_str_view(msg.key_id)
    &&& opt_str_view(row.value_id) == opt_str_view(msg.value_id)
    &&& row.mapping_name@ == msg.mapping_name@
    &&& opt_str_view(row.key) == opt_str_view(msg.key)
    &&& opt_str_view(row.value) == opt_str_view(msg.value)
}

fn clone_opt(o: &Option<String>) -> (r: Option<String>)
    ensures
        opt_str_view(r) == opt_str_view(*o),
{
    match o {
        Some(s) => Some(s.clone()),
        None => None,
    }
}

/// The mapping row one insert or update operation writes, where the
/// operation carries every part the row needs.
pub open spec fn mapping_write_of(op: OperationShape) -> Option<MappingRowShape> {
    if op.key_id is Some && op.value_id is Some && op.key is Some && op.value is Some {
        Some(
            MappingRowShape {
                key_id: op.key_id->Some_0,
                value_id: op.value_id->Some_0,
                mapping_id: op.mapping_id,
                key: op.key->Some_0,
                value: op.value->Some_0,
                mapping_name: op.mapping_name,
                program_name: op.program_name,
                removed: false,
            },
        )
    } else {
        None
    }
}

/// What one key/value operation does to the mapping table: an upsert for
/// an insert or update (nothing where a needed part is absent), a removal
/// flag by key or by mapping for a removal, nothing for an
/// initialization or unknown kind.
pub open spec fn spec_apply_mapping_op(
    rows: Seq<MappingRowShape>,
    op: OperationShape,
) -> Seq<MappingRowShape> {
    match spec_op_type_of(op.op_type) {
        OperationType::InsertKeyValue | OperationType::UpdateKeyValue => match mapping_write_of(
            op,
        ) {
            Some(row) => spec_upsert_mapping_row(rows, row),
            None => rows,
        },
        OperationType::RemoveKeyValue => spec_flag_removed_by_key_id(
            rows,
            match op.key_id {
                Some(k) => k,
                None => Seq::empty(),
            },
        ),
        OperationType::RemoveMapping => spec_flag_removed_by_mapping(rows, op.mapping_name),
        OperationType::InitializeMapping => rows,
    }
}

/// The mapping table after a sequence of operations, first to last.
pub open spec fn spec_apply_mapping_ops(
    rows: Seq<MappingRowShape>,
    ops: Seq<OperationShape>,
) -> Seq<MappingRowShape>
    decreases ops.len(),
{
    if ops.len() == 0 {
        rows
    } else {
        spec_apply_mapping_ops(spec_apply_mapping_op(rows, ops[0]), ops.drop_first())
    }
}

/// Applying one more operation after a sequence is applying the extended
/// sequence.
pub proof fn lemma_apply_mapping_ops_snoc(
    rows: Seq<MappingRowShape>,
    ops: Seq<OperationShape>,
    op: OperationShape,
)
    ensures
        spec_apply_mapping_ops(rows, ops.push(op)) == spec_apply_mapping_op(
            spec_apply_mapping_ops(rows, ops),
            op,
        ),
    decreases ops.len(),
{
    let xs = ops.push(op);
    if ops.len() == 0 {
        assert(xs[0] == op);
        assert(xs.drop_first() =~= Seq::<OperationShape>::empty());
        assert(spec_apply_mapping_ops(rows, xs) == spec_apply_mapping_ops(
            spec_apply_mapping_op(rows, op),
            xs.drop_first(),
        ));
        assert(spec_apply_mapping_ops(spec_apply_mapping_op(rows, op), Seq::<
            OperationShape,
        >::empty()) == spec_apply_mapping_op(rows, op));
        assert(spec_apply_mapping_ops(rows, ops) == rows);
    } else {
        assert(xs[0] == ops[0]);
        assert(xs.drop_first() =~= ops.drop_first().push(op));
        assert(spec_apply_mapping_ops(rows, xs) == spec_apply_mapping_ops(
            spec_apply_mapping_op(rows, ops[0]),
            xs.drop_first(),
        ));
        lemma_apply_mapping_ops_snoc(spec_apply_mapping_op(rows, ops[0]), ops.drop_first(), op);
        assert(spec_apply_mapping_ops(rows, ops) == spec_apply_mapping_ops(
            spec_apply_mapping_op(rows, ops[0]),
            ops.drop_first(),
        ));
    }
}

/// The operation messages, as shapes.
pub open spec fn operations_view(ops: Seq<crate::records::Operation>) -> Seq<OperationShape> {
    ops.map_values(|o: crate::records::Operation| o@)
}

/// Fold one block's extracted payload into the store: log every
/// ratification and operation in order under fresh serial ids, and apply
/// each key/value operation to the mapping table.  Replaying cannot
/// corrupt the mapping table: its writes are key-addressed.
pub fn process_extracted(
    mstore: &mut MappingStore,
    ostore: &mut OperationStore,
    rstore: &mut RatifyStore,
    extracted: &Extracted,
)
    requires
        old(mstore).wf(),
    ensures
        final(mstore).wf(),
        final(rstore).rows@.len() == old(rstore).rows@.len() + extracted.ratifications@.len(),
        final(rstore).rows@.subrange(0, old(rstore).rows@.len() as int) == old(rstore).rows@,
        forall|j: int|
            0 <= j < extracted.ratifications@.len() ==> ratify_row_matches(
                #[trigger] final(rstore).rows@[old(rstore).rows@.len() + j],
                extracted.ratifications@[j],
                (old(rstore).rows@.len() + j) as u64,
            ),
        final(ostore).rows@.len() == old(ostore).rows@.len() + extracted.operations@.len(),
        final(ostore).rows@.subrange(0, old(ostore).rows@.len() as int) == old(ostore).rows@,
        forall|j: int|
            0 <= j < extracted.operations@.len() ==> operation_row_matches(
                #[trigger] final(ostore).rows@[old(ostore).rows@.len() + j],
                extracted.operations@[j],
                (old(ostore).rows@.len() + j) as u64,
            ),
        mapping_rows_view(final(mstore).rows@) == spec_apply_mapping_ops(
            mapping_rows_view(old(mstore).rows@),
            operations_view(extracted.operations@),
        ),
{
    let ghost r0 = rstore.rows@;
    let rn = extracted.ratifications.len();
    let mut i: usize = 0;
    while i < rn
        invariant
            rn == extracted.ratifications@.len(),
            i <= rn,
            rstore.rows@.len() == r0.len() + i,
            rstore.rows@.subrange(0, r0.len() as int) == r0,
            forall|j: int|
                0 <= j < i ==> ratify_row_matches(
                    #[trigger] rstore.rows@[r0.len() + j],
                    extracted.ratifications@[j],
                    (r0.len() + j) as u64,
                ),
        decreases rn - i,
    {
        let ghost pre = rstore.rows@;
        let r = &extracted.ratifications[i];
        let starting_round = match &r.starting_round {
            Some(v) => Some(u64_to_string(*v)),
            None => None,
        };
        let total_stake = match &r.total_stake {
            Some(v) => Some(u64_to_string(*v)),
            None => None,
        };
        let block_reward = match &r.block_reward {
            Some(v) => Some(u64_to_string(*v)),
            None => None,
        };
        let puzzle_reward = match &r.puzzle_reward {
            Some(v) => Some(u64_to_string(*v)),
            None => None,
        };
        let new_ratify = NewRatify {
            ratification_id: r.id.clone(),
            height: r.height as i64,
            type_: r.r_type.clone(),
            starting_round,
            total_stake,
            block_reward,
            puzzle_reward,
        };
        new_ratify.insert(rstore);
        proof {
            assert(rstore.rows@.subrange(0, r0.len() as int) =~= pre.subrange(0, r0.len() as int));
        }
        i = i + 1;
    }
    let ghost o0 = ostore.rows@;
    let ghost m0 = mapping_rows_view(old(mstore).rows@);
    let on = extracted.operations.len();
    let mut k: usize = 0;
    while k < on
        invariant
            on == extracted.operations@.len(),
            k <= on,
            mstore.wf(),
            mapping_rows_view(mstore.rows@) == spec_apply_mapping_ops(
                m0,
                operations_view(extracted.operations@).subrange(0, k as int),
            ),
            m0 == mapping_rows_view(old(mstore).rows@),
            ostore.rows@.len() == o0.len() + k,
            ostore.rows@.subrange(0, o0.len() as int) == o0,
            forall|j: int|
                0 <= j < k ==> operation_row_matches(
                    #[trigger] ostore.rows@[o0.len() + j],
                    extracted.operations@[j],
                    (o0.len() + j) as u64,
                ),
            rstore.rows@.len() == r0.len() + rn,
            rstore.rows@.subrange(0, r0.len() as int) == r0,
            forall|j: int|
                0 <= j < rn ==> ratify_row_matches(
                    #[trigger] rstore.rows@[r0.len() + j],
                    extracted.ratifications@[j],
                    (r0.len() + j) as u64,
                ),
        decreases on - k,
    {
        let ghost pre = ostore.rows@;
        let op = &extracted.operations[k];
        let ghost opv = extracted.operations@[k as int]@;
        let new_operation = NewOperation {
            type_: i32_to_string(op.op_type),
            program_name: op.program_name.clone(),
            mapping_id: op.mapping_id.clone(),
            key_id: clone_opt(&op.key_id),
            value_id: clone_opt(&op.value_id),
            mapping_name: op.mapping_name.clone(),
            key: clone_opt(&op.key),
            value: clone_opt(&op.value),
        };
        new_operation.insert(ostore);
        proof {
            assert(ostore.rows@.subrange(0, o0.len() as int) =~= pre.subrange(0, o0.len() as int));
        }
        let ghost pre_rows = mstore.rows@;
        let ghost mv_pre = mapping_rows_view(pre_rows);
        proof {
            assert(forall|j: int|
                0 <= j < pre_rows.len() ==> #[trigger] mv_pre[j] == pre_rows[j]@);
        }
        match op_type_of(op.op_type) {
            OperationType::InsertKeyValue | OperationType::UpdateKeyValue => {
                let write = NewMapping {
                    key_id: clone_opt(&op.key_id),
                    value_id: clone_opt(&op.value_id),
                    mapping_id: op.mapping_id.clone(),
                    key: clone_opt(&op.key),
                    value: clone_opt(&op.value),
                    mapping_name: op.mapping_name.clone(),
                    program_name: op.program_name.clone(),
                    removed: false,
                };
                let ghost gw = write;
                let upsert_result = write.upsert(mstore);
                proof {
                    if upsert_result is Ok {
                        let specrow = mapping_write_of(opv)->Some_0;
                        let kid = gw.key_id->Some_0@;
                        assert(kid == specrow.key_id);
                        if exists|i: int|
                            0 <= i < pre_rows.len() && #[trigger] pre_rows[i].key_id@ == kid {
                            let i = choose|i: int|
                                0 <= i < pre_rows.len() && #[trigger] pre_rows[i].key_id@ == kid
                                    && mstore.rows@ == pre_rows.update(
                                    i,
                                    Mapping {
                                        key_id: gw.key_id->Some_0,
                                        value_id: gw.value_id->Some_0,
                                        mapping_id: gw.mapping_id,
                                        key: gw.key->Some_0,
                                        value: gw.value->Some_0,
                                        mapping_name: gw.mapping_name,
                                        program_name: gw.program_name,
                                        removed: gw.removed,
                                    },
                                );
                            assert(mv_pre[i].key_id == kid);
                            assert(forall|p: int, q: int|
                                0 <= p < q < mv_pre.len() ==> #[trigger] mv_pre[p].key_id
                                    != #[trigger] mv_pre[q].key_id);
                            lemma_first_key_index_of_match(mv_pre, kid, i);
                            assert(mapping_rows_view(mstore.rows@) =~= mv_pre.update(i, specrow));
                        } else {
                            assert(forall|j: int|
                                0 <= j < mv_pre.len() ==> #[trigger] mv_pre[j].key_id != kid);
                            lemma_first_key_index_none(mv_pre, kid);
                            assert(mapping_rows_view(mstore.rows@) =~= mv_pre.push(specrow));
                        }
                        assert(mapping_rows_view(mstore.rows@) == spec_apply_mapping_op(
                            mv_pre,
                            opv,
                        ));
                    } else {
                        assert(mapping_write_of(opv) is None);
                        assert(mapping_rows_view(mstore.rows@) == spec_apply_mapping_op(
                            mv_pre,
                            opv,
                        ));
                    }
                }
            },
            OperationType::RemoveKeyValue => {
                let key_id = match &op.key_id {
                    Some(s) => s.clone(),
                    None => String::new(),
                };
                Mapping::remove_key_value(mstore, &key_id);
                proof {
                    let kidv = match opv.key_id {
                        Some(q) => q,
                        None => Seq::<char>::empty(),
                    };
                    assert(key_id@ == kidv);
                    assert forall|j: int| 0 <= j < pre_rows.len() implies #[trigger] mapping_rows_view(
                        mstore.rows@,
                    )[j] == spec_flag_removed_by_key_id(mv_pre, kidv)[j] by {
                        assert(mapping_rows_view(mstore.rows@)[j] == mstore.rows@[j]@);
                        assert(mstore.rows@[j] == if pre_rows[j].key_id@ == kidv {
                            Mapping { removed: true, ..pre_rows[j] }
                        } else {
                            pre_rows[j]
                        });
                    }
                    assert(mapping_rows_view(mstore.rows@) =~= spec_flag_removed_by_key_id(
                        mv_pre,
                        kidv,
                    ));
                }
            },
            OperationType::RemoveMapping => {
                Mapping::remove_mapping(mstore, &op.mapping_name);
                proof {
                    assert forall|j: int| 0 <= j < pre_rows.len() implies #[trigger] mapping_rows_view(
                        mstore.rows@,
                    )[j] == spec_flag_removed_by_mapping(mv_pre, opv.mapping_name)[j] by {
                        assert(mapping_rows_view(mstore.rows@)[j] == mstore.rows@[j]@);
                        assert(mstore.rows@[j] == if pre_rows[j].mapping_name@
                            == opv.mapping_name {
                            Mapping { removed: true, ..pre_rows[j] }
                        } else {
                            pre_rows[j]
                        });
                    }
                    assert(mapping_rows_view(mstore.rows@) =~= spec_flag_removed_by_mapping(
                        mv_pre,
                        opv.mapping_name,
                    ));
                }
            },
            OperationType::InitializeMapping => {},
        }
        proof {
            assert(mapping_rows_view(mstore.rows@) == spec_apply_mapping_op(mv_pre, opv));
            let ops_all = operations_view(extracted.operations@);
            assert(ops_all[k as int] == opv);
            assert(ops_all.subrange(0, k as int + 1) =~= ops_all.subrange(0, k as int).push(opv));
            lemma_apply_mapping_ops_snoc(m0, ops_all.subrange(0, k as int), opv);
        }
        k = k + 1;
    }
    proof {
        let ops_all = operations_view(extracted.operations@);
        assert(ops_all.subrange(0, on as int) =~= ops_all);
    }
}

} // verus!
