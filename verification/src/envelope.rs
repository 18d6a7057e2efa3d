//! The envelope decoder: one block-scoped response carries named module
//! outputs; only a bulk map output of the subscribed module is accepted,
//! and its binary payload is decoded into typed messages.  A mismatched
//! module name or a store-delta payload is a misconfigured subscription,
//! fatal for the session.

use crate::decode::decode_extracted;
use crate::decode::decode_records;
use crate::decode::spec_decode_extracted;
use crate::decode::spec_decode_records;
use crate::errors::DecodeError;
use crate::records::Extracted;
use crate::records::Records;
use vstd::prelude::*;

verus! {

/// One module output's payload: a self-contained bulk snapshot, or
/// incremental store deltas (which this pipeline rejects).
pub enum OutputData {
    MapOutput(Vec<u8>),
    StoreDeltas,
}

/// One named module output of a block response.
pub struct ModuleOutput {
    pub name: String,
    pub data: Option<OutputData>,
}

/// One block response: the feed's cursor for it, its height, and its
/// module outputs.
pub struct BlockData {
    pub cursor: String,
    pub height: u64,
    pub outputs: Vec<ModuleOutput>,
}

/// Whether the envelope carries a first output of the subscribed module
/// holding a bulk map payload.
pub open spec fn envelope_ok(data: BlockData, module_name: Seq<char>) -> bool {
    &&& data.outputs@.len() > 0
    &&& data.outputs@[0].name@ == module_name
    &&& data.outputs@[0].data matches Some(d) && d is MapOutput
}

/// The payload bytes of a well-formed envelope.
pub open spec fn envelope_payload(data: BlockData) -> Seq<u8> {
    data.outputs@[0].data->Some_0->MapOutput_0@
}

/// Decode a block response as an extracted payload of the subscribed
/// module.  Exactly one of four things happens: no usable output —
/// `Malformed`; another module's output — `ProtocolMismatch`; a
/// store-delta payload — `StoreDeltas`; else the payload bytes decide.
pub fn extract_output(data: &BlockData, module_name: &String) -> (r: Result<
    Extracted,
    DecodeError,
>)
    ensures
        data.outputs@.len() == 0 ==> (r matches Err(e) && e == DecodeError::Malformed),
        data.outputs@.len() > 0 && data.outputs@[0].name@ != module_name@ ==> (r matches Err(e)
            && e == DecodeError::ProtocolMismatch),
        data.outputs@.len() > 0 && data.outputs@[0].name@ == module_name@ ==> match data.outputs@[0].data {
            None => r matches Err(e) && e == DecodeError::Malformed,
            Some(OutputData::StoreDeltas) => r matches Err(e) && e == DecodeError::StoreDeltas,
            Some(OutputData::MapOutput(payload)) => match spec_decode_extracted(payload@) {
                Some(shape) => r matches Ok(v) && v@ == shape,
                None => r matches Err(e) && e == DecodeError::Malformed,
            },
        },
{
    if data.outputs.len() == 0 {
        return Err(DecodeError::Malformed);
    }
    let output = &data.outputs[0];
    if !(output.name == *module_name) {
        return Err(DecodeError::ProtocolMismatch);
    }
    match &output.data {
        None => Err(DecodeError::Malformed),
        Some(OutputData::StoreDeltas) => Err(DecodeError::StoreDeltas),
        Some(OutputData::MapOutput(payload)) => match decode_extracted(payload.as_slice()) {
            Some(v) => Ok(v),
            None => Err(DecodeError::Malformed),
        },
    }
}

/// Decode a block response as an execution-records payload of the
/// subscribed module, under the same envelope rules.
pub fn extract_records(data: &BlockData, module_name: &String) -> (r: Result<Records, DecodeError>)
    ensures
        data.outputs@.len() == 0 ==> (r matches Err(e) && e == DecodeError::Malformed),
        data.outputs@.len() > 0 && data.outputs@[0].name@ != module_name@ ==> (r matches Err(e)
            && e == DecodeError::ProtocolMismatch),
        data.outputs@.len() > 0 && data.outputs@[0].name@ == module_name@ ==> match data.outputs@[0].data {
            None => r matches Err(e) && e == DecodeError::Malformed,
            Some(OutputData::StoreDeltas) => r matches Err(e) && e == DecodeError::StoreDeltas,
            Some(OutputData::MapOutput(payload)) => match spec_decode_records(payload@) {
                Some(shape) => r matches Ok(v) && v@ == shape,
                None => r matches Err(e) && e == DecodeError::Malformed,
            },
        },
{
    if data.outputs.len() == 0 {
        return Err(DecodeError::Malformed);
    }
    let output = &data.outputs[0];
    if !(output.name == *module_name) {
        return Err(DecodeError::ProtocolMismatch);
    }
    match &output.data {
        None => Err(DecodeError::Malformed),
        Some(OutputData::StoreDeltas) => Err(DecodeError::StoreDeltas),
        Some(OutputData::MapOutput(payload)) => match decode_records(payload.as_slice()) {
            Some(v) => Ok(v),
            None => Err(DecodeError::Malformed),
        },
    }
}

} // verus!
