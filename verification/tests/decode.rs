//! The binary payload decoder, against hand-assembled wire bytes: field
//! order freedom, unknown-field skipping, strict bounds, and the envelope
//! rules around it.

use pledge_indexer::decode::decode_extracted;
use pledge_indexer::decode::decode_records;
use pledge_indexer::envelope::extract_output;
use pledge_indexer::envelope::extract_records;
use pledge_indexer::envelope::BlockData;
use pledge_indexer::envelope::ModuleOutput;
use pledge_indexer::envelope::OutputData;
use pledge_indexer::errors::DecodeError;

fn varint(mut v: u64) -> Vec<u8> {
    let mut out = Vec::new();
    loop {
        let b = (v & 0x7f) as u8;
        v >>= 7;
        if v == 0 {
            out.push(b);
            return out;
        }
        out.push(b | 0x80);
    }
}

fn tag(field: u64, wire: u64) -> Vec<u8> {
    varint(field * 8 + wire)
}

fn str_field(field: u64, s: &str) -> Vec<u8> {
    let mut out = tag(field, 2);
    out.extend_from_slice(&varint(s.len() as u64));
    out.extend_from_slice(s.as_bytes());
    out
}

fn varint_field(field: u64, v: u64) -> Vec<u8> {
    let mut out = tag(field, 0);
    out.extend_from_slice(&varint(v));
    out
}

fn len_field(field: u64, payload: &[u8]) -> Vec<u8> {
    let mut out = tag(field, 2);
    out.extend_from_slice(&varint(payload.len() as u64));
    out.extend_from_slice(payload);
    out
}

fn sample_record_bytes() -> Vec<u8> {
    let mut input_msg = Vec::new();
    input_msg.extend_from_slice(&str_field(1, "private"));
    input_msg.extend_from_slice(&str_field(2, "in1"));
    input_msg.extend_from_slice(&str_field(3, "ciphertext1"));
    let mut output_msg = Vec::new();
    output_msg.extend_from_slice(&str_field(1, "record"));
    output_msg.extend_from_slice(&str_field(2, "out1"));
    output_msg.extend_from_slice(&str_field(3, "sum1"));
    output_msg.extend_from_slice(&str_field(4, "ciphertext2"));
    let mut rec = Vec::new();
    rec.extend_from_slice(&str_field(1, "pledge_vote.aleo"));
    rec.extend_from_slice(&str_field(2, "mint"));
    rec.extend_from_slice(&len_field(3, &input_msg));
    rec.extend_from_slice(&len_field(4, &output_msg));
    rec.extend_from_slice(&str_field(5, "ab1block"));
    rec.extend_from_slice(&str_field(6, "ab1prev"));
    rec.extend_from_slice(&str_field(7, "at1tx"));
    rec.extend_from_slice(&str_field(8, "au1tr"));
    rec.extend_from_slice(&varint_field(9, 3));
    rec.extend_from_slice(&varint_field(10, 42));
    rec.extend_from_slice(&varint_field(11, 1700000000));
    rec.extend_from_slice(&str_field(12, "aleo1owner"));
    rec.extend_from_slice(&str_field(12, "100u64"));
    rec.extend_from_slice(&str_field(12, "1"));
    rec
}

#[test]
fn records_round_trip_from_wire_bytes() {
    let payload = len_field(1, &sample_record_bytes());
    let records = decode_records(&payload).unwrap();
    assert_eq!(records.records.len(), 1);
    let r = &records.records[0];
    assert_eq!(r.program, "pledge_vote.aleo");
    assert_eq!(r.function, "mint");
    assert_eq!(r.inputs.len(), 1);
    assert_eq!(r.inputs[0].r_type, "private");
    assert_eq!(r.inputs[0].id, "in1");
    assert_eq!(r.inputs[0].value, "ciphertext1");
    assert_eq!(r.outputs.len(), 1);
    assert_eq!(r.outputs[0].checksum, "sum1");
    assert_eq!(r.outputs[0].value, "ciphertext2");
    assert_eq!(r.block_hash, "ab1block");
    assert_eq!(r.previous_hash, "ab1prev");
    assert_eq!(r.transaction_id, "at1tx");
    assert_eq!(r.transition_id, "au1tr");
    assert_eq!(r.network, 3);
    assert_eq!(r.height, 42);
    assert_eq!(r.timestamp, 1700000000);
    assert_eq!(r.finalize, vec!["aleo1owner", "100u64", "1"]);
}

#[test]
fn unknown_fields_are_skipped() {
    let mut rec = sample_record_bytes();
    rec.extend_from_slice(&varint_field(99, 123456));
    rec.extend_from_slice(&str_field(98, "future"));
    let payload = len_field(1, &rec);
    let records = decode_records(&payload).unwrap();
    assert_eq!(records.records[0].function, "mint");
}

#[test]
fn long_strings_need_multi_byte_lengths() {
    let long = "x".repeat(300);
    let mut rec = Vec::new();
    rec.extend_from_slice(&str_field(1, "pledge_vote.aleo"));
    rec.extend_from_slice(&str_field(2, &long));
    let payload = len_field(1, &rec);
    let records = decode_records(&payload).unwrap();
    assert_eq!(records.records[0].function, long);
}

#[test]
fn malformed_payloads_are_rejected() {
    // Truncated: a length prefix past the end of the buffer.
    let mut bad = tag(1, 2);
    bad.extend_from_slice(&varint(50));
    bad.push(1);
    assert!(decode_records(&bad).is_none());
    // A non-ASCII byte inside a string field.
    let mut rec = tag(1, 2);
    rec.extend_from_slice(&varint(2));
    rec.push(0xC3);
    rec.push(0xA9);
    let payload = len_field(1, &rec);
    assert!(decode_records(&payload).is_none());
    // A height too wide for its field.
    let rec = varint_field(10, (u32::MAX as u64) + 1);
    let payload = len_field(1, &rec);
    assert!(decode_records(&payload).is_none());
}

#[test]
fn an_empty_payload_holds_no_records() {
    let records = decode_records(&[]).unwrap();
    assert_eq!(records.records.len(), 0);
    let extracted = decode_extracted(&[]).unwrap();
    assert_eq!(extracted.ratifications.len(), 0);
    assert_eq!(extracted.operations.len(), 0);
}

#[test]
fn ten_byte_varints_carry_the_full_range() {
    // A timestamp of u64::MAX is the two's-complement reading -1.
    let rec = varint_field(11, u64::MAX);
    let payload = len_field(1, &rec);
    let records = decode_records(&payload).unwrap();
    assert_eq!(records.records[0].timestamp, -1);
    // An eleventh continuation byte is malformed.
    let mut overlong = tag(11, 0);
    overlong.extend_from_slice(&[0x80u8; 10]);
    overlong.push(0x01);
    let payload = len_field(1, &overlong);
    assert!(decode_records(&payload).is_none());
}

#[test]
fn last_value_wins_for_repeated_scalars() {
    let mut rec = Vec::new();
    rec.extend_from_slice(&str_field(2, "mint"));
    rec.extend_from_slice(&str_field(2, "vote"));
    rec.extend_from_slice(&varint_field(10, 5));
    rec.extend_from_slice(&varint_field(10, 6));
    let payload = len_field(1, &rec);
    let records = decode_records(&payload).unwrap();
    assert_eq!(records.records[0].function, "vote");
    assert_eq!(records.records[0].height, 6);
}

#[test]
fn extracted_round_trip_from_wire_bytes() {
    let mut ratify = Vec::new();
    ratify.extend_from_slice(&str_field(1, "rat1"));
    ratify.extend_from_slice(&varint_field(2, 50));
    ratify.extend_from_slice(&str_field(3, "puzzle_reward"));
    ratify.extend_from_slice(&varint_field(7, 999));
    let mut op = Vec::new();
    op.extend_from_slice(&varint_field(1, 2));
    op.extend_from_slice(&str_field(2, "pledge_vote.aleo"));
    op.extend_from_slice(&str_field(3, "m1"));
    op.extend_from_slice(&str_field(4, "k1"));
    op.extend_from_slice(&str_field(6, "balances"));
    op.extend_from_slice(&str_field(7, "key1"));
    op.extend_from_slice(&str_field(8, "val1"));
    let mut payload = Vec::new();
    payload.extend_from_slice(&len_field(1, &ratify));
    payload.extend_from_slice(&len_field(2, &op));
    let extracted = decode_extracted(&payload).unwrap();
    assert_eq!(extracted.ratifications.len(), 1);
    let r = &extracted.ratifications[0];
    assert_eq!(r.id, "rat1");
    assert_eq!(r.height, 50);
    assert_eq!(r.r_type, "puzzle_reward");
    assert_eq!(r.starting_round, None);
    assert_eq!(r.puzzle_reward, Some(999));
    assert_eq!(extracted.operations.len(), 1);
    let o = &extracted.operations[0];
    assert_eq!(o.op_type, 2);
    assert_eq!(o.program_name, "pledge_vote.aleo");
    assert_eq!(o.key_id.as_deref(), Some("k1"));
    assert_eq!(o.value_id, None);
    assert_eq!(o.key.as_deref(), Some("key1"));
    assert_eq!(o.value.as_deref(), Some("val1"));
}

fn block(name: &str, data: Option<OutputData>) -> BlockData {
    BlockData {
        cursor: "c1".to_string(),
        height: 50,
        outputs: vec![ModuleOutput { name: name.to_string(), data }],
    }
}

#[test]
fn envelope_accepts_only_the_subscribed_module() {
    let payload = len_field(1, &sample_record_bytes());
    let module = "map_records".to_string();
    let good = block("map_records", Some(OutputData::MapOutput(payload.clone())));
    assert!(extract_records(&good, &module).is_ok());
    let wrong = block("map_other", Some(OutputData::MapOutput(payload)));
    assert!(matches!(
        extract_records(&wrong, &module),
        Err(DecodeError::ProtocolMismatch)
    ));
}

#[test]
fn envelope_rejects_store_deltas_and_empty_outputs() {
    let module = "map_records".to_string();
    let deltas = block("map_records", Some(OutputData::StoreDeltas));
    assert!(matches!(
        extract_records(&deltas, &module),
        Err(DecodeError::StoreDeltas)
    ));
    assert!(matches!(
        extract_output(&deltas, &module),
        Err(DecodeError::StoreDeltas)
    ));
    let empty = BlockData {
        cursor: "c1".to_string(),
        height: 50,
        outputs: Vec::new(),
    };
    assert!(matches!(
        extract_records(&empty, &module),
        Err(DecodeError::Malformed)
    ));
    let nodata = block("map_records", None);
    assert!(matches!(
        extract_records(&nodata, &module),
        Err(DecodeError::Malformed)
    ));
}

#[test]
fn envelope_surfaces_payload_corruption() {
    let module = "map_records".to_string();
    let bad = block("map_records", Some(OutputData::MapOutput(vec![0xff, 0xff])));
    assert!(matches!(
        extract_records(&bad, &module),
        Err(DecodeError::Malformed)
    ));
}
