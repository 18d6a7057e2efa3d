//! Execution records as decoded from a block-scoped feed payload: one
//! record per on-ledger function invocation of some program, with its
//! ordered input and output descriptors and its public finalize arguments.

use vstd::prelude::*;

verus! {

/// One transition input descriptor.
#[derive(Clone, Debug, PartialEq, Eq)]
pub struct Input {
    pub r_type: String,
    pub id: String,
    pub value: String,
}

/// One transition output descriptor.
#[derive(Clone, Debug, PartialEq, Eq)]
pub struct Output {
    pub r_type: String,
    pub id: String,
    pub checksum: String,
    pub value: String,
}

/// One on-ledger function invocation, uniquely identified by its
/// transition id.
#[derive(Clone, Debug, PartialEq, Eq)]
pub struct Record {
    pub program: String,
    pub function: String,
    pub inputs: Vec<Input>,
    pub outputs: Vec<Output>,
    pub finalize: Vec<String>,
    pub block_hash: String,
    pub previous_hash: String,
    pub transaction_id: String,
    pub transition_id: String,
    pub network: u32,
    pub height: u32,
    pub timestamp: i64,
}

/// The records of one block.
#[derive(Clone, Debug, PartialEq, Eq)]
pub struct Records {
    pub records: Vec<Record>,
}

/// What a key/value operation did to a program mapping.
#[derive(Clone, Copy, Debug, PartialEq, Eq, Structural)]
pub enum OperationType {
    InitializeMapping,
    InsertKeyValue,
    UpdateKeyValue,
    RemoveKeyValue,
    RemoveMapping,
}

/// The operation kind a wire tag denotes; an unknown tag falls back to
/// the first kind, as the feed's own decoding does.
pub open spec fn spec_op_type_of(tag: i32) -> OperationType {
    if tag == 1 {
        OperationType::InsertKeyValue
    } else if tag == 2 {
        OperationType::UpdateKeyValue
    } else if tag == 3 {
        OperationType::RemoveKeyValue
    } else if tag == 4 {
        OperationType::RemoveMapping
    } else {
        OperationType::InitializeMapping
    }
}

/// Decode an operation kind from its wire tag.
pub fn op_type_of(tag: i32) -> (t: OperationType)
    ensures
        t == spec_op_type_of(tag),
{
    if tag == 1 {
        OperationType::InsertKeyValue
    } else if tag == 2 {
        OperationType::UpdateKeyValue
    } else if tag == 3 {
        OperationType::RemoveKeyValue
    } else if tag == 4 {
        OperationType::RemoveMapping
    } else {
        OperationType::InitializeMapping
    }
}

/// One ratification event, as the feed extracted it.
#[derive(Clone, Debug, PartialEq, Eq)]
pub struct Ratify {
    pub id: String,
    pub height: u32,
    pub r_type: String,
    pub starting_round: Option<u64>,
    pub total_stake: Option<u64>,
    pub block_reward: Option<u64>,
    pub puzzle_reward: Option<u64>,
}

/// One key/value operation on a program mapping, as the feed extracted
/// it.
#[derive(Clone, Debug, PartialEq, Eq)]
pub struct Operation {
    pub op_type: i32,
    pub program_name: String,
    pub mapping_id: String,
    pub key_id: Option<String>,
    pub value_id: Option<String>,
    pub mapping_name: String,
    pub key: Option<String>,
    pub value: Option<String>,
}

/// The ratifications and operations of one block.
#[derive(Clone, Debug, PartialEq, Eq)]
pub struct Extracted {
    pub ratifications: Vec<Ratify>,
    pub operations: Vec<Operation>,
}

} // verus!
