//! Decoders for the feed's binary payload messages, over the wire
//! primitives.  Fields may arrive in any order; a scalar field seen twice
//! keeps the last value; an embedded message field appends; an unknown
//! field is skipped.  Each decoder returns exactly what its
//! position-indexed specification denotes.
//!
//! The explicit progress guards (`pos < e`) in the specifications always
//! hold of positions the primitives return; they only make termination
//! evident.

use crate::models::opt_str_view;
use crate::records::Extracted;
use crate::records::Input;
use crate::records::Operation;
use crate::records::Output;
use crate::records::Ratify;
use crate::records::Record;
use crate::records::Records;
use crate::json::ascii_chars;
use crate::wire::encode_str_payload;
use crate::wire::encode_varint;
use crate::wire::key_field;
use crate::wire::key_wire;
use crate::wire::lemma_segment_split;
use crate::wire::lemma_str_payload_at;
use crate::wire::lemma_varint_at;
use crate::wire::segment_at;
use crate::wire::parse_len_payload;
use crate::wire::parse_len_payload_exec;
use crate::wire::parse_str_field;
use crate::wire::parse_str_field_exec;
use crate::wire::parse_varint;
use crate::wire::parse_varint_exec;
use crate::wire::skip_value;
use crate::wire::skip_value_exec;
use vstd::prelude::*;

verus! {

/// The mathematical form of an input descriptor.
pub struct InputShape {
    pub r_type: Seq<char>,
    pub id: Seq<char>,
    pub value: Seq<char>,
}

/// The mathematical form of an output descriptor.
pub struct OutputShape {
    pub r_type: Seq<char>,
    pub id: Seq<char>,
    pub checksum: Seq<char>,
    pub value: Seq<char>,
}

/// The mathematical form of an execution record.
pub struct RecordShape {
    pub program: Seq<char>,
    pub function: Seq<char>,
    pub inputs: Seq<InputShape>,
    pub outputs: Seq<OutputShape>,
    pub finalize: Seq<Seq<char>>,
    pub block_hash: Seq<char>,
    pub previous_hash: Seq<char>,
    pub transaction_id: Seq<char>,
    pub transition_id: Seq<char>,
    pub network: u32,
    pub height: u32,
    pub timestamp: i64,
}

impl View for Input {
    type V = InputShape;

    open spec fn view(&self) -> InputShape {
        InputShape { r_type: self.r_type@, id: self.id@, value: self.value@ }
    }
}

impl View for Output {
    type V = OutputShape;

    open spec fn view(&self) -> OutputShape {
        OutputShape {
            r_type: self.r_type@,
            id: self.id@,
            checksum: self.checksum@,
            value: self.value@,
        }
    }
}

impl View for Record {
    type V = RecordShape;

    open spec fn view(&self) -> RecordShape {
        RecordShape {
            program: self.program@,
            function: self.function@,
            inputs: self.inputs@.map_values(|x: Input| x@),
            outputs: self.outputs@.map_values(|x: Output| x@),
            finalize: self.finalize@.map_values(|x: String| x@),
            block_hash: self.block_hash@,
            previous_hash: self.previous_hash@,
            transaction_id: self.transaction_id@,
            transition_id: self.transition_id@,
            network: self.network,
            height: self.height,
            timestamp: self.timestamp,
        }
    }
}

impl View for Records {
    type V = Seq<RecordShape>;

    open spec fn view(&self) -> Seq<RecordShape> {
        self.records@.map_values(|x: Record| x@)
    }
}

/// An input descriptor with every field empty.
pub open spec fn input_shape_empty() -> InputShape {
    InputShape { r_type: Seq::empty(), id: Seq::empty(), value: Seq::empty() }
}

/// An output descriptor with every field empty.
pub open spec fn output_shape_empty() -> OutputShape {
    OutputShape {
        r_type: Seq::empty(),
        id: Seq::empty(),
        checksum: Seq::empty(),
        value: Seq::empty(),
    }
}

/// A record with every field empty or zero.
pub open spec fn record_shape_empty() -> RecordShape {
    RecordShape {
        program: Seq::empty(),
        function: Seq::empty(),
        inputs: Seq::empty(),
        outputs: Seq::empty(),
        finalize: Seq::empty(),
        block_hash: Seq::empty(),
        previous_hash: Seq::empty(),
        transaction_id: Seq::empty(),
        transition_id: Seq::empty(),
        network: 0,
        height: 0,
        timestamp: 0,
    }
}

/// Fold the input-descriptor fields of `s[pos..end]` into `acc`.
pub open spec fn scan_input(s: Seq<u8>, pos: int, end: int, acc: InputShape) -> Option<InputShape>
    decreases end - pos,
{
    if pos >= end {
        Some(acc)
    } else {
        match parse_varint(s, pos) {
            None => None,
            Some((key, e1)) => {
                if key_wire(key) == 2 && 1 <= key_field(key) <= 3 {
                    match parse_str_field(s, e1) {
                        None => None,
                        Some((txt, e2)) => {
                            if pos < e2 <= end {
                                let acc2 = if key_field(key) == 1 {
                                    InputShape { r_type: txt, ..acc }
                                } else if key_field(key) == 2 {
                                    InputShape { id: txt, ..acc }
                                } else {
                                    InputShape { value: txt, ..acc }
                                };
                                scan_input(s, e2, end, acc2)
                            } else {
                                None
                            }
                        },
                    }
                } else {
                    match skip_value(s, e1, key_wire(key)) {
                        None => None,
                        Some(e2) => {
                            if pos < e2 <= end {
                                scan_input(s, e2, end, acc)
                            } else {
                                None
                            }
                        },
                    }
                }
            },
        }
    }
}

fn scan_input_exec(s: &[u8], pos: usize, end: usize, acc: Input) -> (r: Option<Input>)
    requires
        pos <= end <= s@.len(),
    ensures
        match r {
            Some(v) => scan_input(s@, pos as int, end as int, acc@) == Some(v@),
            None => scan_input(s@, pos as int, end as int, acc@) is None,
        },
    decreases end - pos,
{
    if pos >= end {
        return Some(acc);
    }
    let (key, e1) = match parse_varint_exec(s, pos) {
        Some(p) => p,
        None => {
            return None;
        },
    };
    let f = key / 8;
    let w = key % 8;
    if w == 2 && 1 <= f && f <= 3 {
        let (txt, e2) = match parse_str_field_exec(s, e1) {
            Some(p) => p,
            None => {
                return None;
            },
        };
        if e2 <= end {
            let mut acc2 = acc;
            if f == 1 {
                acc2.r_type = txt;
            } else if f == 2 {
                acc2.id = txt;
            } else {
                acc2.value = txt;
            }
            scan_input_exec(s, e2, end, acc2)
        } else {
            None
        }
    } else {
        match skip_value_exec(s, e1, w) {
            Some(e2) => {
                if pos < e2 && e2 <= end {
                    scan_input_exec(s, e2, end, acc)
                } else {
                    None
                }
            },
            None => None,
        }
    }
}

/// Fold the output-descriptor fields of `s[pos..end]` into `acc`.
pub open spec fn scan_output(s: Seq<u8>, pos: int, end: int, acc: OutputShape) -> Option<
    OutputShape,
>
    decreases end - pos,
{
    if pos >= end {
        Some(acc)
    } else {
        match parse_varint(s, pos) {
            None => None,
            Some((key, e1)) => {
                if key_wire(key) == 2 && 1 <= key_field(key) <= 4 {
                    match parse_str_field(s, e1) {
                        None => None,
                        Some((txt, e2)) => {
                            if pos < e2 <= end {
                                let acc2 = if key_field(key) == 1 {
                                    OutputShape { r_type: txt, ..acc }
                                } else if key_field(key) == 2 {
                                    OutputShape { id: txt, ..acc }
                                } else if key_field(key) == 3 {
                                    OutputShape { checksum: txt, ..acc }
                                } else {
                                    OutputShape { value: txt, ..acc }
                                };
                                scan_output(s, e2, end, acc2)
                            } else {
                                None
                            }
                        },
                    }
                } else {
                    match skip_value(s, e1, key_wire(key)) {
                        None => None,
                        Some(e2) => {
                            if pos < e2 <= end {
                                scan_output(s, e2, end, acc)
                            } else {
                                None
                            }
                        },
                    }
                }
            },
        }
    }
}

fn scan_output_exec(s: &[u8], pos: usize, end: usize, acc: Output) -> (r: Option<Output>)
    requires
        pos <= end <= s@.len(),
    ensures
        match r {
            Some(v) => scan_output(s@, pos as int, end as int, acc@) == Some(v@),
            None => scan_output(s@, pos as int, end as int, acc@) is None,
        },
    decreases end - pos,
{
    if pos >= end {
        return Some(acc);
    }
    let (key, e1) = match parse_varint_exec(s, pos) {
        Some(p) => p,
        None => {
            return None;
        },
    };
    let f = key / 8;
    let w = key % 8;
    if w == 2 && 1 <= f && f <= 4 {
        let (txt, e2) = match parse_str_field_exec(s, e1) {
            Some(p) => p,
            None => {
                return None;
            },
        };
        if e2 <= end {
            let mut acc2 = acc;
            if f == 1 {
                acc2.r_type = txt;
            } else if f == 2 {
                acc2.id = txt;
            } else if f == 3 {
                acc2.checksum = txt;
            } else {
                acc2.value = txt;
            }
            scan_output_exec(s, e2, end, acc2)
        } else {
            None
        }
    } else {
        match skip_value_exec(s, e1, w) {
            Some(e2) => {
                if pos < e2 && e2 <= end {
                    scan_output_exec(s, e2, end, acc)
                } else {
                    None
                }
            },
            None => None,
        }
    }
}

/// Fold the record fields of `s[pos..end]` into `acc`.
pub open spec fn scan_record(s: Seq<u8>, pos: int, end: int, acc: RecordShape) -> Option<
    RecordShape,
>
    decreases end - pos,
{
    if pos >= end {
        Some(acc)
    } else {
        match parse_varint(s, pos) {
            None => None,
            Some((key, e1)) => {
                let f = key_field(key);
                let w = key_wire(key);
                if w == 2 && (f == 1 || f == 2 || 5 <= f <= 8 || f == 12) {
                    match parse_str_field(s, e1) {
                        None => None,
                        Some((txt, e2)) => {
                            if pos < e2 <= end {
                                let acc2 = if f == 1 {
                                    RecordShape { program: txt, ..acc }
                                } else if f == 2 {
                                    RecordShape { function: txt, ..acc }
                                } else if f == 5 {
                                    RecordShape { block_hash: txt, ..acc }
                                } else if f == 6 {
                                    RecordShape { previous_hash: txt, ..acc }
                                } else if f == 7 {
                                    RecordShape { transaction_id: txt, ..acc }
                                } else if f == 8 {
                                    RecordShape { transition_id: txt, ..acc }
                                } else {
                                    RecordShape { finalize: acc.finalize.push(txt), ..acc }
                                };
                                scan_record(s, e2, end, acc2)
                            } else {
                                None
                            }
                        },
                    }
                } else if w == 2 && f == 3 {
                    match parse_len_payload(s, e1) {
                        None => None,
                        Some((st, en)) => {
                            if pos < en <= end {
                                match scan_input(s, st, en, input_shape_empty()) {
                                    None => None,
                                    Some(iv) => scan_record(
                                        s,
                                        en,
                                        end,
                                        RecordShape { inputs: acc.inputs.push(iv), ..acc },
                                    ),
                                }
                            } else {
                                None
                            }
                        },
                    }
                } else if w == 2 && f == 4 {
                    match parse_len_payload(s, e1) {
                        None => None,
                        Some((st, en)) => {
                            if pos < en <= end {
                                match scan_output(s, st, en, output_shape_empty()) {
                                    None => None,
                                    Some(ov) => scan_record(
                                        s,
                                        en,
                                        end,
                                        RecordShape { outputs: acc.outputs.push(ov), ..acc },
                                    ),
                                }
                            } else {
                                None
                            }
                        },
                    }
                } else if w == 0 && (f == 9 || f == 10) {
                    match parse_varint(s, e1) {
                        None => None,
                        Some((v, e2)) => {
                            if pos < e2 <= end && v <= u32::MAX {
                                let acc2 = if f == 9 {
                                    RecordShape { network: v as u32, ..acc }
                                } else {
                                    RecordShape { height: v as u32, ..acc }
                                };
                                scan_record(s, e2, end, acc2)
                            } else {
                                None
                            }
                        },
                    }
                } else if w == 0 && f == 11 {
                    match parse_varint(s, e1) {
                        None => None,
                        Some((v, e2)) => {
                            if pos < e2 <= end {
                                scan_record(s, e2, end, RecordShape { timestamp: v as i64, ..acc })
                            } else {
                                None
                            }
                        },
                    }
                } else {
                    match skip_value(s, e1, w) {
                        None => None,
                        Some(e2) => {
                            if pos < e2 <= end {
                                scan_record(s, e2, end, acc)
                            } else {
                                None
                            }
                        },
                    }
                }
            },
        }
    }
}

fn input_empty() -> (r: Input)
    ensures
        r@ == input_shape_empty(),
{
    Input { r_type: String::new(), id: String::new(), value: String::new() }
}

fn output_empty() -> (r: Output)
    ensures
        r@ == output_shape_empty(),
{
    Output {
        r_type: String::new(),
        id: String::new(),
        checksum: String::new(),
        value: String::new(),
    }
}

fn record_empty() -> (r: Record)
    ensures
        r@ == record_shape_empty(),
{
    let r = Record {
        program: String::new(),
        function: String::new(),
        inputs: Vec::new(),
        outputs: Vec::new(),
        finalize: Vec::new(),
        block_hash: String::new(),
        previous_hash: String::new(),
        transaction_id: String::new(),
        transition_id: String::new(),
        network: 0,
        height: 0,
        timestamp: 0,
    };
    proof {
        assert(r.inputs@.map_values(|x: Input| x@) =~= Seq::<InputShape>::empty());
        assert(r.outputs@.map_values(|x: Output| x@) =~= Seq::<OutputShape>::empty());
        assert(r.finalize@.map_values(|x: String| x@) =~= Seq::<Seq<char>>::empty());
    }
    r
}

fn scan_record_exec(s: &[u8], pos: usize, end: usize, acc: Record) -> (r: Option<Record>)
    requires
        pos <= end <= s@.len(),
    ensures
        match r {
            Some(v) => scan_record(s@, pos as int, end as int, acc@) == Some(v@),
            None => scan_record(s@, pos as int, end as int, acc@) is None,
        },
    decreases end - pos,
{
    if pos >= end {
        return Some(acc);
    }
    let (key, e1) = match parse_varint_exec(s, pos) {
        Some(p) => p,
        None => {
            return None;
        },
    };
    let f = key / 8;
    let w = key % 8;
    if w == 2 && (f == 1 || f == 2 || (5 <= f && f <= 8) || f == 12) {
        let (txt, e2) = match parse_str_field_exec(s, e1) {
            Some(p) => p,
            None => {
                return None;
            },
        };
        if e2 <= end {
            let mut acc2 = acc;
            if f == 1 {
                acc2.program = txt;
            } else if f == 2 {
                acc2.function = txt;
            } else if f == 5 {
                acc2.block_hash = txt;
            } else if f == 6 {
                acc2.previous_hash = txt;
            } else if f == 7 {
                acc2.transaction_id = txt;
            } else if f == 8 {
                acc2.transition_id = txt;
            } else {
                let ghost before = acc2.finalize@.map_values(|x: String| x@);
                let ghost t = txt@;
                acc2.finalize.push(txt);
                proof {
                    assert(acc2.finalize@.map_values(|x: String| x@) =~= before.push(t));
                }
            }
            scan_record_exec(s, e2, end, acc2)
        } else {
            None
        }
    } else if w == 2 && f == 3 {
        let (st, en) = match parse_len_payload_exec(s, e1) {
            Some(p) => p,
            None => {
                return None;
            },
        };
        if en <= end {
            match scan_input_exec(s, st, en, input_empty()) {
                Some(iv) => {
                    let mut acc2 = acc;
                    let ghost before = acc2.inputs@.map_values(|x: Input| x@);
                    let ghost ivv = iv@;
                    acc2.inputs.push(iv);
                    proof {
                        assert(acc2.inputs@.map_values(|x: Input| x@) =~= before.push(ivv));
                    }
                    scan_record_exec(s, en, end, acc2)
                },
                None => None,
            }
        } else {
            None
        }
    } else if w == 2 && f == 4 {
        let (st, en) = match parse_len_payload_exec(s, e1) {
            Some(p) => p,
            None => {
                return None;
            },
        };
        if en <= end {
            match scan_output_exec(s, st, en, output_empty()) {
                Some(ov) => {
                    let mut acc2 = acc;
                    let ghost before = acc2.outputs@.map_values(|x: Output| x@);
                    let ghost ovv = ov@;
                    acc2.outputs.push(ov);
                    proof {
                        assert(acc2.outputs@.map_values(|x: Output| x@) =~= before.push(ovv));
                    }
                    scan_record_exec(s, en, end, acc2)
                },
                None => None,
            }
        } else {
            None
        }
    } else if w == 0 && (f == 9 || f == 10) {
        let (v, e2) = match parse_varint_exec(s, e1) {
            Some(p) => p,
            None => {
                return None;
            },
        };
        if e2 <= end && v <= u32::MAX as u64 {
            let mut acc2 = acc;
            if f == 9 {
                acc2.network = v as u32;
            } else {
                acc2.height = v as u32;
            }
            scan_record_exec(s, e2, end, acc2)
        } else {
            None
        }
    } else if w == 0 && f == 11 {
        let (v, e2) = match parse_varint_exec(s, e1) {
            Some(p) => p,
            None => {
                return None;
            },
        };
        if e2 <= end {
            let mut acc2 = acc;
            acc2.timestamp = v as i64;
            scan_record_exec(s, e2, end, acc2)
        } else {
            None
        }
    } else {
        match skip_value_exec(s, e1, w) {
            Some(e2) => {
                if pos < e2 && e2 <= end {
                    scan_record_exec(s, e2, end, acc)
                } else {
                    None
                }
            },
            None => None,
        }
    }
}

/// Fold the repeated record fields of `s[pos..end]` into `acc`.
pub open spec fn scan_records(s: Seq<u8>, pos: int, end: int, acc: Seq<RecordShape>) -> Option<
    Seq<RecordShape>,
>
    decreases end - pos,
{
    if pos >= end {
        Some(acc)
    } else {
        match parse_varint(s, pos) {
            None => None,
            Some((key, e1)) => {
                if key_wire(key) == 2 && key_field(key) == 1 {
                    match parse_len_payload(s, e1) {
                        None => None,
                        Some((st, en)) => {
                            if pos < en <= end {
                                match scan_record(s, st, en, record_shape_empty()) {
                                    None => None,
                                    Some(rv) => scan_records(s, en, end, acc.push(rv)),
                                }
                            } else {
                                None
                            }
                        },
                    }
                } else {
                    match skip_value(s, e1, key_wire(key)) {
                        None => None,
                        Some(e2) => {
                            if pos < e2 <= end {
                                scan_records(s, e2, end, acc)
                            } else {
                                None
                            }
                        },
                    }
                }
            },
        }
    }
}

/// The records message a whole buffer encodes.
pub open spec fn spec_decode_records(s: Seq<u8>) -> Option<Seq<RecordShape>> {
    scan_records(s, 0, s.len() as int, Seq::empty())
}

/// Decode a whole buffer as a records message.
pub fn decode_records(s: &[u8]) -> (r: Option<Records>)
    ensures
        match r {
            Some(v) => spec_decode_records(s@) == Some(v@),
            None => spec_decode_records(s@) is None,
        },
{
    let out: Vec<Record> = Vec::new();
    proof {
        assert(out@.map_values(|x: Record| x@) =~= Seq::<RecordShape>::empty());
    }
    match scan_records_exec(s, 0, s.len(), out) {
        Some(v) => Some(Records { records: v }),
        None => None,
    }
}

fn scan_records_exec(s: &[u8], pos: usize, end: usize, acc: Vec<Record>) -> (r: Option<
    Vec<Record>,
>)
    requires
        pos <= end <= s@.len(),
    ensures
        match r {
            Some(v) => scan_records(s@, pos as int, end as int, acc@.map_values(|x: Record| x@))
                == Some(v@.map_values(|x: Record| x@)),
            None => scan_records(s@, pos as int, end as int, acc@.map_values(|x: Record| x@)) is None,
        },
    decreases end - pos,
{
    if pos >= end {
        return Some(acc);
    }
    let (key, e1) = match parse_varint_exec(s, pos) {
        Some(p) => p,
        None => {
            return None;
        },
    };
    let f = key / 8;
    let w = key % 8;
    if w == 2 && f == 1 {
        let (st, en) = match parse_len_payload_exec(s, e1) {
            Some(p) => p,
            None => {
                return None;
            },
        };
        if en <= end {
            match scan_record_exec(s, st, en, record_empty()) {
                Some(rv) => {
                    let mut acc2 = acc;
                    let ghost before = acc2@.map_values(|x: Record| x@);
                    let ghost rvv = rv@;
                    acc2.push(rv);
                    proof {
                        assert(acc2@.map_values(|x: Record| x@) =~= before.push(rvv));
                    }
                    scan_records_exec(s, en, end, acc2)
                },
                None => None,
            }
        } else {
            None
        }
    } else {
        match skip_value_exec(s, e1, w) {
            Some(e2) => {
                if pos < e2 && e2 <= end {
                    scan_records_exec(s, e2, end, acc)
                } else {
                    None
                }
            },
            None => None,
        }
    }
}

/// The mathematical form of a ratification message.
pub struct RatifyShape {
    pub id: Seq<char>,
    pub height: u32,
    pub r_type: Seq<char>,
    pub starting_round: Option<u64>,
    pub total_stake: Option<u64>,
    pub block_reward: Option<u64>,
    pub puzzle_reward: Option<u64>,
}

/// The mathematical form of an operation message.
pub struct OperationShape {
    pub op_type: i32,
    pub program_name: Seq<char>,
    pub mapping_id: Seq<char>,
    pub key_id: Option<Seq<char>>,
    pub value_id: Option<Seq<char>>,
    pub mapping_name: Seq<char>,
    pub key: Option<Seq<char>>,
    pub value: Option<Seq<char>>,
}

/// The mathematical form of an extracted payload.
pub struct ExtractedShape {
    pub ratifications: Seq<RatifyShape>,
    pub operations: Seq<OperationShape>,
}

impl View for Ratify {
    type V = RatifyShape;

    open spec fn view(&self) -> RatifyShape {
        RatifyShape {
            id: self.id@,
            height: self.height,
            r_type: self.r_type@,
            starting_round: self.starting_round,
            total_stake: self.total_stake,
            block_reward: self.block_reward,
            puzzle_reward: self.puzzle_reward,
        }
    }
}

impl View for Operation {
    type V = OperationShape;

    open spec fn view(&self) -> OperationShape {
        OperationShape {
            op_type: self.op_type,
            program_name: self.program_name@,
            mapping_id: self.mapping_id@,
            key_id: opt_str_view(self.key_id),
            value_id: opt_str_view(self.value_id),
            mapping_name: self.mapping_name@,
            key: opt_str_view(self.key),
            value: opt_str_view(self.value),
        }
    }
}

impl View for Extracted {
    type V = ExtractedShape;

    open spec fn view(&self) -> ExtractedShape {
        ExtractedShape {
            ratifications: self.ratifications@.map_values(|x: Ratify| x@),
            operations: self.operations@.map_values(|x: Operation| x@),
        }
    }
}

/// A ratification message with every field empty or absent.
pub open spec fn ratify_shape_empty() -> RatifyShape {
    RatifyShape {
        id: Seq::empty(),
        height: 0,
        r_type: Seq::empty(),
        starting_round: None,
        total_stake: None,
        block_reward: None,
        puzzle_reward: None,
    }
}

/// An operation message with every field empty or absent.
pub open spec fn operation_shape_empty() -> OperationShape {
    OperationShape {
        op_type: 0,
        program_name: Seq::empty(),
        mapping_id: Seq::empty(),
        key_id: None,
        value_id: None,
        mapping_name: Seq::empty(),
        key: None,
        value: None,
    }
}

/// Fold the ratification fields of `s[pos..end]` into `acc`.
pub open spec fn scan_ratify(s: Seq<u8>, pos: int, end: int, acc: RatifyShape) -> Option<
    RatifyShape,
>
    decreases end - pos,
{
    if pos >= end {
        Some(acc)
    } else {
        match parse_varint(s, pos) {
            None => None,
            Some((key, e1)) => {
                let f = key_field(key);
                let w = key_wire(key);
                if w == 2 && (f == 1 || f == 3) {
                    match parse_str_field(s, e1) {
                        None => None,
                        Some((txt, e2)) => {
                            if pos < e2 <= end {
                                let acc2 = if f == 1 {
                                    RatifyShape { id: txt, ..acc }
                                } else {
                                    RatifyShape { r_type: txt, ..acc }
                                };
                                scan_ratify(s, e2, end, acc2)
                            } else {
                                None
                            }
                        },
                    }
                } else if w == 0 && f == 2 {
                    match parse_varint(s, e1) {
                        None => None,
                        Some((v, e2)) => {
                            if pos < e2 <= end && v <= u32::MAX {
                                scan_ratify(s, e2, end, RatifyShape { height: v as u32, ..acc })
                            } else {
                                None
                            }
                        },
                    }
                } else if w == 0 && 4 <= f <= 7 {
                    match parse_varint(s, e1) {
                        None => None,
                        Some((v, e2)) => {
                            if pos < e2 <= end {
                                let acc2 = if f == 4 {
                                    RatifyShape { starting_round: Some(v), ..acc }
                                } else if f == 5 {
                                    RatifyShape { total_stake: Some(v), ..acc }
                                } else if f == 6 {
                                    RatifyShape { block_reward: Some(v), ..acc }
                                } else {
                                    RatifyShape { puzzle_reward: Some(v), ..acc }
                                };
                                scan_ratify(s, e2, end, acc2)
                            } else {
                                None
                            }
                        },
                    }
                } else {
                    match skip_value(s, e1, w) {
                        None => None,
                        Some(e2) => {
                            if pos < e2 <= end {
                                scan_ratify(s, e2, end, acc)
                            } else {
                                None
                            }
                        },
                    }
                }
            },
        }
    }
}

fn ratify_empty() -> (r: Ratify)
    ensures
        r@ == ratify_shape_empty(),
{
    Ratify {
        id: String::new(),
        height: 0,
        r_type: String::new(),
        starting_round: None,
        total_stake: None,
        block_reward: None,
        puzzle_reward: None,
    }
}

fn scan_ratify_exec(s: &[u8], pos: usize, end: usize, acc: Ratify) -> (r: Option<Ratify>)
    requires
        pos <= end <= s@.len(),
    ensures
        match r {
            Some(v) => scan_ratify(s@, pos as int, end as int, acc@) == Some(v@),
            None => scan_ratify(s@, pos as int, end as int, acc@) is None,
        },
    decreases end - pos,
{
    if pos >= end {
        return Some(acc);
    }
    let (key, e1) = match parse_varint_exec(s, pos) {
        Some(p) => p,
        None => {
            return None;
        },
    };
    let f = key / 8;
    let w = key % 8;
    if w == 2 && (f == 1 || f == 3) {
        let (txt, e2) = match parse_str_field_exec(s, e1) {
            Some(p) => p,
            None => {
                return None;
            },
        };
        if e2 <= end {
            let mut acc2 = acc;
            if f == 1 {
                acc2.id = txt;
            } else {
                acc2.r_type = txt;
            }
            scan_ratify_exec(s, e2, end, acc2)
        } else {
            None
        }
    } else if w == 0 && f == 2 {
        let (v, e2) = match parse_varint_exec(s, e1) {
            Some(p) => p,
            None => {
                return None;
            },
        };
        if e2 <= end && v <= u32::MAX as u64 {
            let mut acc2 = acc;
            acc2.height = v as u32;
            scan_ratify_exec(s, e2, end, acc2)
        } else {
            None
        }
    } else if w == 0 && 4 <= f && f <= 7 {
        let (v, e2) = match parse_varint_exec(s, e1) {
            Some(p) => p,
            None => {
                return None;
            },
        };
        if e2 <= end {
            let mut acc2 = acc;
            if f == 4 {
                acc2.starting_round = Some(v);
            } else if f == 5 {
                acc2.total_stake = Some(v);
            } else if f == 6 {
                acc2.block_reward = Some(v);
            } else {
                acc2.puzzle_reward = Some(v);
            }
            scan_ratify_exec(s, e2, end, acc2)
        } else {
            None
        }
    } else {
        match skip_value_exec(s, e1, w) {
            Some(e2) => {
                if pos < e2 && e2 <= end {
                    scan_ratify_exec(s, e2, end, acc)
                } else {
                    None
                }
            },
            None => None,
        }
    }
}

/// Fold the operation fields of `s[pos..end]` into `acc`.
pub open spec fn scan_operation(s: Seq<u8>, pos: int, end: int, acc: OperationShape) -> Option<
    OperationShape,
>
    decreases end - pos,
{
    if pos >= end {
        Some(acc)
    } else {
        match parse_varint(s, pos) {
            None => None,
            Some((key, e1)) => {
                let f = key_field(key);
                let w = key_wire(key);
                if w == 2 && (f == 2 || f == 3 || f == 6) {
                    match parse_str_field(s, e1) {
                        None => None,
                        Some((txt, e2)) => {
                            if pos < e2 <= end {
                                let acc2 = if f == 2 {
                                    OperationShape { program_name: txt, ..acc }
                                } else if f == 3 {
                                    OperationShape { mapping_id: txt, ..acc }
                                } else {
                                    OperationShape { mapping_name: txt, ..acc }
                                };
                                scan_operation(s, e2, end, acc2)
                            } else {
                                None
                            }
                        },
                    }
                } else if w == 2 && (f == 4 || f == 5 || f == 7 || f == 8) {
                    match parse_str_field(s, e1) {
                        None => None,
                        Some((txt, e2)) => {
                            if pos < e2 <= end {
                                let acc2 = if f == 4 {
                                    OperationShape { key_id: Some(txt), ..acc }
                                } else if f == 5 {
                                    OperationShape { value_id: Some(txt), ..acc }
                                } else if f == 7 {
                                    OperationShape { key: Some(txt), ..acc }
                                } else {
                                    OperationShape { value: Some(txt), ..acc }
                                };
                                scan_operation(s, e2, end, acc2)
                            } else {
                                None
                            }
                        },
                    }
                } else if w == 0 && f == 1 {
                    match parse_varint(s, e1) {
                        None => None,
                        Some((v, e2)) => {
                            if pos < e2 <= end {
                                scan_operation(
                                    s,
                                    e2,
                                    end,
                                    OperationShape { op_type: v as i32, ..acc },
                                )
                            } else {
                                None
                            }
                        },
                    }
                } else {
                    match skip_value(s, e1, w) {
                        None => None,
                        Some(e2) => {
                            if pos < e2 <= end {
                                scan_operation(s, e2, end, acc)
                            } else {
                                None
                            }
                        },
                    }
                }
            },
        }
    }
}

fn operation_empty() -> (r: Operation)
    ensures
        r@ == operation_shape_empty(),
{
    Operation {
        op_type: 0,
        program_name: String::new(),
        mapping_id: String::new(),
        key_id: None,
        value_id: None,
        mapping_name: String::new(),
        key: None,
        value: None,
    }
}

fn scan_operation_exec(s: &[u8], pos: usize, end: usize, acc: Operation) -> (r: Option<Operation>)
    requires
        pos <= end <= s@.len(),
    ensures
        match r {
            Some(v) => scan_operation(s@, pos as int, end as int, acc@) == Some(v@),
            None => scan_operation(s@, pos as int, end as int, acc@) is None,
        },
    decreases end - pos,
{
    if pos >= end {
        return Some(acc);
    }
    let (key, e1) = match parse_varint_exec(s, pos) {
        Some(p) => p,
        None => {
            return None;
        },
    };
    let f = key / 8;
    let w = key % 8;
    if w == 2 && (f == 2 || f == 3 || f == 6) {
        let (txt, e2) = match parse_str_field_exec(s, e1) {
            Some(p) => p,
            None => {
                return None;
            },
        };
        if e2 <= end {
            let mut acc2 = acc;
            if f == 2 {
                acc2.program_name = txt;
            } else if f == 3 {
                acc2.mapping_id = txt;
            } else {
                acc2.mapping_name = txt;
            }
            scan_operation_exec(s, e2, end, acc2)
        } else {
            None
        }
    } else if w == 2 && (f == 4 || f == 5 || f == 7 || f == 8) {
        let (txt, e2) = match parse_str_field_exec(s, e1) {
            Some(p) => p,
            None => {
                return None;
            },
        };
        if e2 <= end {
            let mut acc2 = acc;
            if f == 4 {
                acc2.key_id = Some(txt);
            } else if f == 5 {
                acc2.value_id = Some(txt);
            } else if f == 7 {
                acc2.key = Some(txt);
            } else {
                acc2.value = Some(txt);
            }
            scan_operation_exec(s, e2, end, acc2)
        } else {
            None
        }
    } else if w == 0 && f == 1 {
        let (v, e2) = match parse_varint_exec(s, e1) {
            Some(p) => p,
            None => {
                return None;
            },
        };
        if e2 <= end {
            let mut acc2 = acc;
            acc2.op_type = v as i32;
            scan_operation_exec(s, e2, end, acc2)
        } else {
            None
        }
    } else {
        match skip_value_exec(s, e1, w) {
            Some(e2) => {
                if pos < e2 && e2 <= end {
                    scan_operation_exec(s, e2, end, acc)
                } else {
                    None
                }
            },
            None => None,
        }
    }
}

/// Fold the extracted-payload fields of `s[pos..end]` into the two lists.
pub open spec fn scan_extracted(s: Seq<u8>, pos: int, end: int, acc: ExtractedShape) -> Option<
    ExtractedShape,
>
    decreases end - pos,
{
    if pos >= end {
        Some(acc)
    } else {
        match parse_varint(s, pos) {
            None => None,
            Some((key, e1)) => {
                let f = key_field(key);
                let w = key_wire(key);
                if w == 2 && f == 1 {
                    match parse_len_payload(s, e1) {
                        None => None,
                        Some((st, en)) => {
                            if pos < en <= end {
                                match scan_ratify(s, st, en, ratify_shape_empty()) {
                                    None => None,
                                    Some(rv) => scan_extracted(
                                        s,
                                        en,
                                        end,
                                        ExtractedShape {
                                            ratifications: acc.ratifications.push(rv),
                                            ..acc
                                        },
                                    ),
                                }
                            } else {
                                None
                            }
                        },
                    }
                } else if w == 2 && f == 2 {
                    match parse_len_payload(s, e1) {
                        None => None,
                        Some((st, en)) => {
                            if pos < en <= end {
                                match scan_operation(s, st, en, operation_shape_empty()) {
                                    None => None,
                                    Some(ov) => scan_extracted(
                                        s,
                                        en,
                                        end,
                                        ExtractedShape { operations: acc.operations.push(ov), ..acc },
                                    ),
                                }
                            } else {
                                None
                            }
                        },
                    }
                } else {
                    match skip_value(s, e1, w) {
                        None => None,
                        Some(e2) => {
                            if pos < e2 <= end {
                                scan_extracted(s, e2, end, acc)
                            } else {
                                None
                            }
                        },
                    }
                }
            },
        }
    }
}

/// The extracted payload a whole buffer encodes.
pub open spec fn spec_decode_extracted(s: Seq<u8>) -> Option<ExtractedShape> {
    scan_extracted(
        s,
        0,
        s.len() as int,
        ExtractedShape { ratifications: Seq::empty(), operations: Seq::empty() },
    )
}

/// Decode a whole buffer as an extracted payload.
pub fn decode_extracted(s: &[u8]) -> (r: Option<Extracted>)
    ensures
        match r {
            Some(v) => spec_decode_extracted(s@) == Some(v@),
            None => spec_decode_extracted(s@) is None,
        },
{
    let out = Extracted { ratifications: Vec::new(), operations: Vec::new() };
    proof {
        assert(out@.ratifications =~= Seq::<RatifyShape>::empty());
        assert(out@.operations =~= Seq::<OperationShape>::empty());
        assert(out@ == (ExtractedShape {
            ratifications: Seq::<RatifyShape>::empty(),
            operations: Seq::<OperationShape>::empty(),
        }));
    }
    scan_extracted_exec(s, 0, s.len(), out)
}

fn scan_extracted_exec(s: &[u8], pos: usize, end: usize, acc: Extracted) -> (r: Option<Extracted>)
    requires
        pos <= end <= s@.len(),
    ensures
        match r {
            Some(v) => scan_extracted(s@, pos as int, end as int, acc@) == Some(v@),
            None => scan_extracted(s@, pos as int, end as int, acc@) is None,
        },
    decreases end - pos,
{
    if pos >= end {
        return Some(acc);
    }
    let (key, e1) = match parse_varint_exec(s, pos) {
        Some(p) => p,
        None => {
            return None;
        },
    };
    let f = key / 8;
    let w = key % 8;
    if w == 2 && f == 1 {
        let (st, en) = match parse_len_payload_exec(s, e1) {
            Some(p) => p,
            None => {
                return None;
            },
        };
        if en <= end {
            match scan_ratify_exec(s, st, en, ratify_empty()) {
                Some(rv) => {
                    let mut acc2 = acc;
                    let ghost before = acc2@;
                    let ghost rvv = rv@;
                    acc2.ratifications.push(rv);
                    proof {
                        assert(acc2@.ratifications =~= before.ratifications.push(rvv));
                        assert(acc2@ == (ExtractedShape {
                            ratifications: before.ratifications.push(rvv),
                            ..before
                        }));
                    }
                    scan_extracted_exec(s, en, end, acc2)
                },
                None => None,
            }
        } else {
            None
        }
    } else if w == 2 && f == 2 {
        let (st, en) = match parse_len_payload_exec(s, e1) {
            Some(p) => p,
            None => {
                return None;
            },
        };
        if en <= end {
            match scan_operation_exec(s, st, en, operation_empty()) {
                Some(ov) => {
                    let mut acc2 = acc;
                    let ghost before = acc2@;
                    let ghost ovv = ov@;
                    acc2.operations.push(ov);
                    proof {
                        assert(acc2@.operations =~= before.operations.push(ovv));
                        assert(acc2@ == (ExtractedShape {
                            operations: before.operations.push(ovv),
                            ..before
                        }));
                    }
                    scan_extracted_exec(s, en, end, acc2)
                },
                None => None,
            }
        } else {
            None
        }
    } else {
        match skip_value_exec(s, e1, w) {
            Some(e2) => {
                if pos < e2 && e2 <= end {
                    scan_extracted_exec(s, e2, end, acc)
                } else {
                    None
                }
            },
            None => None,
        }
    }
}

/// Whether a text can travel as a string field: ASCII, with a length the
/// wire's length prefix can carry.
pub open spec fn text_ok(t: Seq<char>) -> bool {
    &&& forall|i: int| 0 <= i < t.len() ==> ((#[trigger] t[i]) as int) < 128
    &&& t.len() <= u64::MAX
}

/// ASCII characters written as bytes.
pub open spec fn ascii_bytes(t: Seq<char>) -> Seq<u8> {
    Seq::new(t.len(), |i: int| t[i] as u8)
}

/// In the ASCII range, writing a character as a byte and reading it back
/// is the identity.
proof fn lemma_ascii_char_byte(c: char)
    requires
        (c as int) < 128,
    ensures
        (c as u8) < 128,
        ((c as u8) as char) == c,
{
}

proof fn lemma_ascii_bytes_chars(t: Seq<char>)
    requires
        text_ok(t),
    ensures
        ascii_bytes(t).len() == t.len(),
        forall|j: int| 0 <= j < t.len() ==> #[trigger] ascii_bytes(t)[j] < 128,
        ascii_chars(ascii_bytes(t)) == t,
{
    assert forall|j: int| 0 <= j < t.len() implies #[trigger] ascii_bytes(t)[j] < 128 by {
        assert((t[j] as int) < 128);
        lemma_ascii_char_byte(t[j]);
        assert(ascii_bytes(t)[j] == t[j] as u8);
    }
    assert forall|j: int| 0 <= j < t.len() implies #[trigger] ascii_chars(ascii_bytes(t))[j]
        == t[j] by {
        assert((t[j] as int) < 128);
        lemma_ascii_char_byte(t[j]);
        assert(ascii_bytes(t)[j] == t[j] as u8);
        assert(ascii_chars(ascii_bytes(t))[j] == (t[j] as u8) as char);
    }
    assert(ascii_chars(ascii_bytes(t)) =~= t);
}

/// The canonical encoding of a field key.
pub open spec fn encode_key(f: u64, w: u64) -> Seq<u8> {
    encode_varint((f * 8 + w) as nat)
}

/// The canonical encoding of a string field.
pub open spec fn encode_text_field(f: u64, t: Seq<char>) -> Seq<u8> {
    encode_key(f, 2) + encode_str_payload(ascii_bytes(t))
}

/// The canonical encoding of an unsigned numeric field.
pub open spec fn encode_u64_field(f: u64, v: u64) -> Seq<u8> {
    encode_key(f, 0) + encode_varint(v as nat)
}

/// The canonical encoding of a length-delimited field.
pub open spec fn encode_len_field(f: u64, payload: Seq<u8>) -> Seq<u8> {
    encode_key(f, 2) + encode_varint(payload.len() as nat) + payload
}

proof fn lemma_text_field_step(s: Seq<u8>, pos: int, f: u64, t: Seq<char>)
    requires
        1 <= f <= 100,
        text_ok(t),
        segment_at(s, pos, encode_text_field(f, t)),
    ensures
        parse_varint(s, pos) == Some(((f * 8 + 2) as u64, pos + encode_key(f, 2).len())),
        key_field((f * 8 + 2) as u64) == f,
        key_wire((f * 8 + 2) as u64) == 2,
        parse_str_field(s, pos + encode_key(f, 2).len() as int) == Some(
            (t, pos + encode_text_field(f, t).len()),
        ),
        pos < pos + encode_text_field(f, t).len() <= s.len(),
{
    lemma_ascii_bytes_chars(t);
    lemma_segment_split(s, pos, encode_key(f, 2), encode_str_payload(ascii_bytes(t)));
    lemma_varint_at(s, pos, (f * 8 + 2) as nat);
    lemma_str_payload_at(s, pos + encode_key(f, 2).len() as int, ascii_bytes(t));
}

proof fn lemma_u64_field_step(s: Seq<u8>, pos: int, f: u64, v: u64)
    requires
        1 <= f <= 100,
        segment_at(s, pos, encode_u64_field(f, v)),
    ensures
        parse_varint(s, pos) == Some(((f * 8) as u64, pos + encode_key(f, 0).len())),
        key_field((f * 8) as u64) == f,
        key_wire((f * 8) as u64) == 0,
        parse_varint(s, pos + encode_key(f, 0).len() as int) == Some(
            (v, pos + encode_u64_field(f, v).len()),
        ),
        pos < pos + encode_u64_field(f, v).len() <= s.len(),
{
    lemma_segment_split(s, pos, encode_key(f, 0), encode_varint(v as nat));
    lemma_varint_at(s, pos, (f * 8) as nat);
    lemma_varint_at(s, pos + encode_key(f, 0).len() as int, v as nat);
}

proof fn lemma_len_field_step(s: Seq<u8>, pos: int, f: u64, payload: Seq<u8>)
    requires
        1 <= f <= 100,
        payload.len() <= u64::MAX,
        segment_at(s, pos, encode_len_field(f, payload)),
    ensures
        parse_varint(s, pos) == Some(((f * 8 + 2) as u64, pos + encode_key(f, 2).len())),
        key_field((f * 8 + 2) as u64) == f,
        key_wire((f * 8 + 2) as u64) == 2,
        parse_len_payload(s, pos + encode_key(f, 2).len() as int) == Some(
            (
                pos + encode_len_field(f, payload).len() - payload.len(),
                pos + encode_len_field(f, payload).len(),
            ),
        ),
        segment_at(s, pos + encode_len_field(f, payload).len() - payload.len(), payload),
        pos < pos + encode_len_field(f, payload).len() <= s.len(),
{
    let key = encode_key(f, 2);
    let lenv = encode_varint(payload.len() as nat);
    assert(encode_len_field(f, payload) == key + lenv + payload);
    assert((key + lenv + payload) =~= key + (lenv + payload));
    lemma_segment_split(s, pos, key, lenv + payload);
    lemma_varint_at(s, pos, (f * 8 + 2) as nat);
    lemma_segment_split(s, pos + key.len(), lenv, payload);
    lemma_varint_at(s, pos + key.len(), payload.len() as nat);
}

/// The canonical encoding of a ratification message: every required
/// field in tag order, optional counters only where present.
pub open spec fn encode_ratify(r: RatifyShape) -> Seq<u8> {
    encode_text_field(1, r.id) + encode_u64_field(2, r.height as u64) + encode_text_field(
        3,
        r.r_type,
    ) + (match r.starting_round {
        Some(v) => encode_u64_field(4, v),
        None => Seq::empty(),
    }) + (match r.total_stake {
        Some(v) => encode_u64_field(5, v),
        None => Seq::empty(),
    }) + (match r.block_reward {
        Some(v) => encode_u64_field(6, v),
        None => Seq::empty(),
    }) + (match r.puzzle_reward {
        Some(v) => encode_u64_field(7, v),
        None => Seq::empty(),
    })
}

/// Whether a ratification can travel: its strings are field texts.
pub open spec fn ratify_ok(r: RatifyShape) -> bool {
    text_ok(r.id) && text_ok(r.r_type)
}

proof fn lemma_scan_ratify_tail7(s: Seq<u8>, pos: int, end: int, acc: RatifyShape, r: RatifyShape)
    requires
        acc == (RatifyShape { puzzle_reward: None, ..r }),
        segment_at(
            s,
            pos,
            match r.puzzle_reward {
                Some(v) => encode_u64_field(7, v),
                None => Seq::empty(),
            },
        ),
        end == pos + (match r.puzzle_reward {
            Some(v) => encode_u64_field(7, v),
            None => Seq::<u8>::empty(),
        }).len(),
    ensures
        scan_ratify(s, pos, end, acc) == Some(r),
{
    match r.puzzle_reward {
        None => {
            assert(pos == end);
            assert(acc == r);
        },
        Some(v) => {
            lemma_u64_field_step(s, pos, 7, v);
            let acc2 = RatifyShape { puzzle_reward: Some(v), ..acc };
            assert(acc2 == r);
            assert(scan_ratify(s, pos, end, acc) == scan_ratify(s, end, end, acc2));
        },
    }
}

proof fn lemma_scan_ratify_tail6(s: Seq<u8>, pos: int, end: int, acc: RatifyShape, r: RatifyShape)
    requires
        acc == (RatifyShape { block_reward: None, puzzle_reward: None, ..r }),
        segment_at(
            s,
            pos,
            (match r.block_reward {
                Some(v) => encode_u64_field(6, v),
                None => Seq::<u8>::empty(),
            }) + (match r.puzzle_reward {
                Some(v) => encode_u64_field(7, v),
                None => Seq::<u8>::empty(),
            }),
        ),
        end == pos + (match r.block_reward {
            Some(v) => encode_u64_field(6, v),
            None => Seq::<u8>::empty(),
        }).len() + (match r.puzzle_reward {
            Some(v) => encode_u64_field(7, v),
            None => Seq::<u8>::empty(),
        }).len(),
    ensures
        scan_ratify(s, pos, end, acc) == Some(r),
{
    let e6 = match r.block_reward {
        Some(v) => encode_u64_field(6, v),
        None => Seq::<u8>::empty(),
    };
    let e7 = match r.puzzle_reward {
        Some(v) => encode_u64_field(7, v),
        None => Seq::<u8>::empty(),
    };
    lemma_segment_split(s, pos, e6, e7);
    match r.block_reward {
        None => {
            assert(acc == (RatifyShape { puzzle_reward: None, ..r }));
            lemma_scan_ratify_tail7(s, pos, end, acc, r);
        },
        Some(v) => {
            lemma_u64_field_step(s, pos, 6, v);
            let acc2 = RatifyShape { block_reward: Some(v), ..acc };
            assert(acc2 == (RatifyShape { puzzle_reward: None, ..r }));
            lemma_scan_ratify_tail7(s, pos + e6.len(), end, acc2, r);
            assert(scan_ratify(s, pos, end, acc) == scan_ratify(s, pos + e6.len(), end, acc2));
        },
    }
}

proof fn lemma_scan_ratify_tail5(s: Seq<u8>, pos: int, end: int, acc: RatifyShape, r: RatifyShape)
    requires
        acc == (RatifyShape { total_stake: None, block_reward: None, puzzle_reward: None, ..r }),
        segment_at(
            s,
            pos,
            (match r.total_stake {
                Some(v) => encode_u64_field(5, v),
                None => Seq::<u8>::empty(),
            }) + ((match r.block_reward {
                Some(v) => encode_u64_field(6, v),
                None => Seq::<u8>::empty(),
            }) + (match r.puzzle_reward {
                Some(v) => encode_u64_field(7, v),
                None => Seq::<u8>::empty(),
            })),
        ),
        end == pos + (match r.total_stake {
            Some(v) => encode_u64_field(5, v),
            None => Seq::<u8>::empty(),
        }).len() + (match r.block_reward {
            Some(v) => encode_u64_field(6, v),
            None => Seq::<u8>::empty(),
        }).len() + (match r.puzzle_reward {
            Some(v) => encode_u64_field(7, v),
            None => Seq::<u8>::empty(),
        }).len(),
    ensures
        scan_ratify(s, pos, end, acc) == Some(r),
{
    let e5 = match r.total_stake {
        Some(v) => encode_u64_field(5, v),
        None => Seq::<u8>::empty(),
    };
    let rest = (match r.block_reward {
        Some(v) => encode_u64_field(6, v),
        None => Seq::<u8>::empty(),
    }) + (match r.puzzle_reward {
        Some(v) => encode_u64_field(7, v),
        None => Seq::<u8>::empty(),
    });
    lemma_segment_split(s, pos, e5, rest);
    match r.total_stake {
        None => {
            assert(acc == (RatifyShape { block_reward: None, puzzle_reward: None, ..r }));
            lemma_scan_ratify_tail6(s, pos, end, acc, r);
        },
        Some(v) => {
            lemma_u64_field_step(s, pos, 5, v);
            let acc2 = RatifyShape { total_stake: Some(v), ..acc };
            assert(acc2 == (RatifyShape { block_reward: None, puzzle_reward: None, ..r }));
            lemma_scan_ratify_tail6(s, pos + e5.len(), end, acc2, r);
            assert(scan_ratify(s, pos, end, acc) == scan_ratify(s, pos + e5.len(), end, acc2));
        },
    }
}

/// Decoding the canonical encoding of a ratification is the identity.
#[verifier::rlimit(100)]
proof fn lemma_scan_ratify_of_encoding(s: Seq<u8>, pos: int, r: RatifyShape)
    requires
        ratify_ok(r),
        segment_at(s, pos, encode_ratify(r)),
    ensures
        scan_ratify(s, pos, pos + encode_ratify(r).len(), ratify_shape_empty()) == Some(r),
{
    let end = pos + encode_ratify(r).len() as int;
    let ea = encode_text_field(1, r.id);
    let eb = encode_u64_field(2, r.height as u64);
    let ec = encode_text_field(3, r.r_type);
    let e4 = match r.starting_round {
        Some(v) => encode_u64_field(4, v),
        None => Seq::<u8>::empty(),
    };
    let e5 = match r.total_stake {
        Some(v) => encode_u64_field(5, v),
        None => Seq::<u8>::empty(),
    };
    let e6 = match r.block_reward {
        Some(v) => encode_u64_field(6, v),
        None => Seq::<u8>::empty(),
    };
    let e7 = match r.puzzle_reward {
        Some(v) => encode_u64_field(7, v),
        None => Seq::<u8>::empty(),
    };
    assert(encode_ratify(r) == ea + eb + ec + e4 + e5 + e6 + e7);
    lemma_segment_split(s, pos, ea + eb + ec + e4 + e5 + e6, e7);
    lemma_segment_split(s, pos, ea + eb + ec + e4 + e5, e6);
    lemma_segment_split(s, pos, ea + eb + ec + e4, e5);
    lemma_segment_split(s, pos, ea + eb + ec, e4);
    lemma_segment_split(s, pos, ea + eb, ec);
    lemma_segment_split(s, pos, ea, eb);
    let p1 = pos + ea.len() as int;
    let p2 = p1 + eb.len() as int;
    let p3 = p2 + ec.len() as int;
    let p4 = p3 + e4.len() as int;
    lemma_text_field_step(s, pos, 1, r.id);
    let acc0 = ratify_shape_empty();
    let acc1 = RatifyShape { id: r.id, ..acc0 };
    assert(scan_ratify(s, pos, end, acc0) == scan_ratify(s, p1, end, acc1));
    lemma_u64_field_step(s, p1, 2, r.height as u64);
    let acc2 = RatifyShape { height: r.height, ..acc1 };
    assert(scan_ratify(s, p1, end, acc1) == scan_ratify(s, p2, end, acc2));
    lemma_text_field_step(s, p2, 3, r.r_type);
    let acc3 = RatifyShape { r_type: r.r_type, ..acc2 };
    assert(scan_ratify(s, p2, end, acc2) == scan_ratify(s, p3, end, acc3));
    assert(segment_at(s, p3, e4 + (e5 + (e6 + e7)))) by {
        assert(e4 + (e5 + (e6 + e7)) =~= ((e4 + e5) + e6) + e7);
        assert(segment_at(s, p3, ((e4 + e5) + e6) + e7)) by {
            let whole = ((e4 + e5) + e6) + e7;
            assert forall|j: int| 0 <= j < whole.len() implies s[p3 + j] == #[trigger] whole[j] by {
                if j < e4.len() {
                    assert(s[p3 + j] == e4[j]);
                } else if j < e4.len() + e5.len() {
                    assert(s[p4 + (j - e4.len())] == e5[j - e4.len()]);
                } else if j < e4.len() + e5.len() + e6.len() {
                    assert(s[p4 + e5.len() + (j - e4.len() - e5.len())] == e6[j - e4.len()
                        - e5.len()]);
                } else {
                    assert(s[p4 + e5.len() + e6.len() + (j - e4.len() - e5.len() - e6.len())]
                        == e7[j - e4.len() - e5.len() - e6.len()]);
                }
            }
        }
    }
    lemma_segment_split(s, p3, e4, e5 + (e6 + e7));
    match r.starting_round {
        None => {
            assert(acc3 == (RatifyShape {
                starting_round: None,
                total_stake: None,
                block_reward: None,
                puzzle_reward: None,
                ..r
            }));
            assert(segment_at(s, p4, e5 + (e6 + e7)));
            assert(e5 + (e6 + e7) =~= e5 + (e6 + e7));
            lemma_scan_ratify_tail5(s, p4, end, acc3, r);
            assert(scan_ratify(s, p3, end, acc3) == Some(r));
        },
        Some(v) => {
            lemma_u64_field_step(s, p3, 4, v);
            let acc4 = RatifyShape { starting_round: Some(v), ..acc3 };
            assert(acc4 == (RatifyShape {
                total_stake: None,
                block_reward: None,
                puzzle_reward: None,
                ..r
            }));
            assert(scan_ratify(s, p3, end, acc3) == scan_ratify(s, p4, end, acc4));
            lemma_scan_ratify_tail5(s, p4, end, acc4, r);
        },
    }
}

/// The canonical encoding of an operation message: every required field
/// in tag order, optional parts only where present.
pub open spec fn encode_operation(o: OperationShape) -> Seq<u8> {
    encode_u64_field(1, o.op_type as u64) + (encode_text_field(2, o.program_name) + (
    encode_text_field(3, o.mapping_id) + ((match o.key_id {
        Some(t) => encode_text_field(4, t),
        None => Seq::empty(),
    }) + ((match o.value_id {
        Some(t) => encode_text_field(5, t),
        None => Seq::empty(),
    }) + (encode_text_field(6, o.mapping_name) + ((match o.key {
        Some(t) => encode_text_field(7, t),
        None => Seq::empty(),
    }) + (match o.value {
        Some(t) => encode_text_field(8, t),
        None => Seq::empty(),
    })))))))
}

/// Whether an operation can travel: all its strings are field texts.
pub open spec fn operation_ok(o: OperationShape) -> bool {
    &&& text_ok(o.program_name)
    &&& text_ok(o.mapping_id)
    &&& text_ok(o.mapping_name)
    &&& (o.key_id matches Some(t) ==> text_ok(t))
    &&& (o.value_id matches Some(t) ==> text_ok(t))
    &&& (o.key matches Some(t) ==> text_ok(t))
    &&& (o.value matches Some(t) ==> text_ok(t))
}

proof fn lemma_scan_operation_tail8(
    s: Seq<u8>,
    pos: int,
    end: int,
    acc: OperationShape,
    o: OperationShape,
)
    requires
        operation_ok(o),
        acc == (OperationShape { value: None, ..o }),
        segment_at(
            s,
            pos,
            match o.value {
                Some(t) => encode_text_field(8, t),
                None => Seq::<u8>::empty(),
            },
        ),
        end == pos + (match o.value {
            Some(t) => encode_text_field(8, t),
            None => Seq::<u8>::empty(),
        }).len(),
    ensures
        scan_operation(s, pos, end, acc) == Some(o),
{
    match o.value {
        None => {
            assert(pos == end);
            assert(acc == o);
        },
        Some(t) => {
            lemma_text_field_step(s, pos, 8, t);
            let acc2 = OperationShape { value: Some(t), ..acc };
            assert(acc2 == o);
            assert(scan_operation(s, pos, end, acc) == scan_operation(s, end, end, acc2));
        },
    }
}

proof fn lemma_scan_operation_tail7(
    s: Seq<u8>,
    pos: int,
    end: int,
    acc: OperationShape,
    o: OperationShape,
)
    requires
        operation_ok(o),
        acc == (OperationShape { key: None, value: None, ..o }),
        segment_at(
            s,
            pos,
            (match o.key {
                Some(t) => encode_text_field(7, t),
                None => Seq::<u8>::empty(),
            }) + (match o.value {
                Some(t) => encode_text_field(8, t),
                None => Seq::<u8>::empty(),
            }),
        ),
        end == pos + (match o.key {
            Some(t) => encode_text_field(7, t),
            None => Seq::<u8>::empty(),
        }).len() + (match o.value {
            Some(t) => encode_text_field(8, t),
            None => Seq::<u8>::empty(),
        }).len(),
    ensures
        scan_operation(s, pos, end, acc) == Some(o),
{
    let e7 = match o.key {
        Some(t) => encode_text_field(7, t),
        None => Seq::<u8>::empty(),
    };
    let e8 = match o.value {
        Some(t) => encode_text_field(8, t),
        None => Seq::<u8>::empty(),
    };
    lemma_segment_split(s, pos, e7, e8);
    match o.key {
        None => {
            assert(acc == (OperationShape { value: None, ..o }));
            lemma_scan_operation_tail8(s, pos, end, acc, o);
        },
        Some(t) => {
            lemma_text_field_step(s, pos, 7, t);
            let acc2 = OperationShape { key: Some(t), ..acc };
            assert(acc2 == (OperationShape { value: None, ..o }));
            lemma_scan_operation_tail8(s, pos + e7.len(), end, acc2, o);
            assert(scan_operation(s, pos, end, acc) == scan_operation(s, pos + e7.len(), end, acc2));
        },
    }
}

proof fn lemma_scan_operation_tail6(
    s: Seq<u8>,
    pos: int,
    end: int,
    acc: OperationShape,
    o: OperationShape,
)
    requires
        operation_ok(o),
        acc == (OperationShape { mapping_name: Seq::empty(), key: None, value: None, ..o }),
        segment_at(
            s,
            pos,
            encode_text_field(6, o.mapping_name) + ((match o.key {
                Some(t) => encode_text_field(7, t),
                None => Seq::<u8>::empty(),
            }) + (match o.value {
                Some(t) => encode_text_field(8, t),
                None => Seq::<u8>::empty(),
            })),
        ),
        end == pos + encode_text_field(6, o.mapping_name).len() + (match o.key {
            Some(t) => encode_text_field(7, t),
            None => Seq::<u8>::empty(),
        }).len() + (match o.value {
            Some(t) => encode_text_field(8, t),
            None => Seq::<u8>::empty(),
        }).len(),
    ensures
        scan_operation(s, pos, end, acc) == Some(o),
{
    let e6 = encode_text_field(6, o.mapping_name);
    let rest = (match o.key {
        Some(t) => encode_text_field(7, t),
        None => Seq::<u8>::empty(),
    }) + (match o.value {
        Some(t) => encode_text_field(8, t),
        None => Seq::<u8>::empty(),
    });
    lemma_segment_split(s, pos, e6, rest);
    lemma_text_field_step(s, pos, 6, o.mapping_name);
    let acc2 = OperationShape { mapping_name: o.mapping_name, ..acc };
    assert(acc2 == (OperationShape { key: None, value: None, ..o }));
    lemma_scan_operation_tail7(s, pos + e6.len(), end, acc2, o);
    assert(scan_operation(s, pos, end, acc) == scan_operation(s, pos + e6.len(), end, acc2));
}

proof fn lemma_scan_operation_tail5(
    s: Seq<u8>,
    pos: int,
    end: int,
    acc: OperationShape,
    o: OperationShape,
)
    requires
        operation_ok(o),
        acc == (OperationShape {
            value_id: None,
            mapping_name: Seq::empty(),
            key: None,
            value: None,
            ..o
        }),
        segment_at(
            s,
            pos,
            (match o.value_id {
                Some(t) => encode_text_field(5, t),
                None => Seq::<u8>::empty(),
            }) + (encode_text_field(6, o.mapping_name) + ((match o.key {
                Some(t) => encode_text_field(7, t),
                None => Seq::<u8>::empty(),
            }) + (match o.value {
                Some(t) => encode_text_field(8, t),
                None => Seq::<u8>::empty(),
            }))),
        ),
        end == pos + (match o.value_id {
            Some(t) => encode_text_field(5, t),
            None => Seq::<u8>::empty(),
        }).len() + encode_text_field(6, o.mapping_name).len() + (match o.key {
            Some(t) => encode_text_field(7, t),
            None => Seq::<u8>::empty(),
        }).len() + (match o.value {
            Some(t) => encode_text_field(8, t),
            None => Seq::<u8>::empty(),
        }).len(),
    ensures
        scan_operation(s, pos, end, acc) == Some(o),
{
    let e5 = match o.value_id {
        Some(t) => encode_text_field(5, t),
        None => Seq::<u8>::empty(),
    };
    let rest = encode_text_field(6, o.mapping_name) + ((match o.key {
        Some(t) => encode_text_field(7, t),
        None => Seq::<u8>::empty(),
    }) + (match o.value {
        Some(t) => encode_text_field(8, t),
        None => Seq::<u8>::empty(),
    }));
    lemma_segment_split(s, pos, e5, rest);
    match o.value_id {
        None => {
            assert(acc == (OperationShape {
                mapping_name: Seq::empty(),
                key: None,
                value: None,
                ..o
            }));
            lemma_scan_operation_tail6(s, pos, end, acc, o);
        },
        Some(t) => {
            lemma_text_field_step(s, pos, 5, t);
            let acc2 = OperationShape { value_id: Some(t), ..acc };
            assert(acc2 == (OperationShape {
                mapping_name: Seq::empty(),
                key: None,
                value: None,
                ..o
            }));
            lemma_scan_operation_tail6(s, pos + e5.len(), end, acc2, o);
            assert(scan_operation(s, pos, end, acc) == scan_operation(s, pos + e5.len(), end, acc2));
        },
    }
}

/// Decoding the canonical encoding of an operation is the identity.
#[verifier::rlimit(100)]
proof fn lemma_scan_operation_of_encoding(s: Seq<u8>, pos: int, o: OperationShape)
    requires
        operation_ok(o),
        segment_at(s, pos, encode_operation(o)),
    ensures
        scan_operation(s, pos, pos + encode_operation(o).len(), operation_shape_empty()) == Some(o),
{
    let end = pos + encode_operation(o).len() as int;
    let ea = encode_u64_field(1, o.op_type as u64);
    let eb = encode_text_field(2, o.program_name);
    let ec = encode_text_field(3, o.mapping_id);
    let e4 = match o.key_id {
        Some(t) => encode_text_field(4, t),
        None => Seq::<u8>::empty(),
    };
    let e5 = match o.value_id {
        Some(t) => encode_text_field(5, t),
        None => Seq::<u8>::empty(),
    };
    let e6 = encode_text_field(6, o.mapping_name);
    let e7 = match o.key {
        Some(t) => encode_text_field(7, t),
        None => Seq::<u8>::empty(),
    };
    let e8 = match o.value {
        Some(t) => encode_text_field(8, t),
        None => Seq::<u8>::empty(),
    };
    assert(encode_operation(o) == ea + (eb + (ec + (e4 + (e5 + (e6 + (e7 + e8)))))));
    let p1 = pos + ea.len() as int;
    let p2 = p1 + eb.len() as int;
    let p3 = p2 + ec.len() as int;
    let p4 = p3 + e4.len() as int;
    lemma_segment_split(s, pos, ea, eb + (ec + (e4 + (e5 + (e6 + (e7 + e8))))));
    lemma_segment_split(s, p1, eb, ec + (e4 + (e5 + (e6 + (e7 + e8)))));
    lemma_segment_split(s, p2, ec, e4 + (e5 + (e6 + (e7 + e8))));
    lemma_segment_split(s, p3, e4, e5 + (e6 + (e7 + e8)));
    lemma_u64_field_step(s, pos, 1, o.op_type as u64);
    let ghost ty: i32 = o.op_type;
    assert((ty as u64) as i32 == ty) by (bit_vector);
    let acc0 = operation_shape_empty();
    let acc1 = OperationShape { op_type: o.op_type, ..acc0 };
    assert(scan_operation(s, pos, end, acc0) == scan_operation(s, p1, end, acc1));
    lemma_text_field_step(s, p1, 2, o.program_name);
    let acc2 = OperationShape { program_name: o.program_name, ..acc1 };
    assert(scan_operation(s, p1, end, acc1) == scan_operation(s, p2, end, acc2));
    lemma_text_field_step(s, p2, 3, o.mapping_id);
    let acc3 = OperationShape { mapping_id: o.mapping_id, ..acc2 };
    assert(scan_operation(s, p2, end, acc2) == scan_operation(s, p3, end, acc3));
    match o.key_id {
        None => {
            assert(acc3 == (OperationShape {
                key_id: None,
                value_id: None,
                mapping_name: Seq::empty(),
                key: None,
                value: None,
                ..o
            }));
            lemma_scan_operation_tail5(s, p4, end, acc3, o);
        },
        Some(t) => {
            lemma_text_field_step(s, p3, 4, t);
            let acc4 = OperationShape { key_id: Some(t), ..acc3 };
            assert(acc4 == (OperationShape {
                value_id: None,
                mapping_name: Seq::empty(),
                key: None,
                value: None,
                ..o
            }));
            assert(scan_operation(s, p3, end, acc3) == scan_operation(s, p4, end, acc4));
            lemma_scan_operation_tail5(s, p4, end, acc4, o);
        },
    }
}

/// Whether a ratification can travel framed: well-formed, and small
/// enough for the length prefix.
pub open spec fn ratify_wire_ok(r: RatifyShape) -> bool {
    ratify_ok(r) && encode_ratify(r).len() <= u64::MAX
}

/// Whether an operation can travel framed.
pub open spec fn operation_wire_ok(o: OperationShape) -> bool {
    operation_ok(o) && encode_operation(o).len() <= u64::MAX
}

/// The canonical encoding of the repeated ratification fields.
pub open spec fn encode_ratifications(rs: Seq<RatifyShape>) -> Seq<u8>
    decreases rs.len(),
{
    if rs.len() == 0 {
        Seq::empty()
    } else {
        encode_len_field(1, encode_ratify(rs[0])) + encode_ratifications(rs.drop_first())
    }
}

/// The canonical encoding of the repeated operation fields.
pub open spec fn encode_operations(ops: Seq<OperationShape>) -> Seq<u8>
    decreases ops.len(),
{
    if ops.len() == 0 {
        Seq::empty()
    } else {
        encode_len_field(2, encode_operation(ops[0])) + encode_operations(ops.drop_first())
    }
}

/// The canonical encoding of a whole extracted payload.
pub open spec fn encode_extracted(e: ExtractedShape) -> Seq<u8> {
    encode_ratifications(e.ratifications) + encode_operations(e.operations)
}

/// Whether an extracted payload can travel: every message in it can.
pub open spec fn extracted_ok(e: ExtractedShape) -> bool {
    &&& forall|i: int|
        0 <= i < e.ratifications.len() ==> ratify_wire_ok(#[trigger] e.ratifications[i])
    &&& forall|i: int| 0 <= i < e.operations.len() ==> operation_wire_ok(#[trigger] e.operations[i])
}

#[verifier::rlimit(100)]
proof fn lemma_scan_extracted_of_encoding(
    s: Seq<u8>,
    pos: int,
    end: int,
    acc: ExtractedShape,
    rats: Seq<RatifyShape>,
    ops: Seq<OperationShape>,
)
    requires
        forall|i: int| 0 <= i < rats.len() ==> ratify_wire_ok(#[trigger] rats[i]),
        forall|i: int| 0 <= i < ops.len() ==> operation_wire_ok(#[trigger] ops[i]),
        segment_at(s, pos, encode_ratifications(rats) + encode_operations(ops)),
        end == pos + encode_ratifications(rats).len() + encode_operations(ops).len(),
    ensures
        scan_extracted(s, pos, end, acc) == Some(
            ExtractedShape {
                ratifications: acc.ratifications + rats,
                operations: acc.operations + ops,
            },
        ),
    decreases rats.len(), ops.len(),
{
    let er = encode_ratifications(rats);
    let eo = encode_operations(ops);
    if rats.len() > 0 {
        let payload = encode_ratify(rats[0]);
        let head = encode_len_field(1, payload);
        let rtail = encode_ratifications(rats.drop_first());
        assert(er == head + rtail);
        assert((head + rtail) + eo =~= head + (rtail + eo));
        lemma_segment_split(s, pos, head, rtail + eo);
        assert(ratify_wire_ok(rats[0]));
        lemma_len_field_step(s, pos, 1, payload);
        let en = pos + head.len() as int;
        let st = en - payload.len() as int;
        lemma_scan_ratify_of_encoding(s, st, rats[0]);
        let acc2 = ExtractedShape { ratifications: acc.ratifications.push(rats[0]), ..acc };
        assert(scan_extracted(s, pos, end, acc) == scan_extracted(s, en, end, acc2));
        assert(forall|i: int|
            0 <= i < rats.drop_first().len() ==> #[trigger] rats.drop_first()[i] == rats[i + 1]);
        lemma_scan_extracted_of_encoding(s, en, end, acc2, rats.drop_first(), ops);
        assert(acc2.ratifications + rats.drop_first() =~= acc.ratifications + rats);
        assert((ExtractedShape {
            ratifications: acc2.ratifications + rats.drop_first(),
            operations: acc2.operations + ops,
        }) == (ExtractedShape {
            ratifications: acc.ratifications + rats,
            operations: acc.operations + ops,
        }));
    } else if ops.len() > 0 {
        assert(er =~= Seq::<u8>::empty());
        assert(er + eo =~= eo);
        assert(segment_at(s, pos, eo));
        let payload = encode_operation(ops[0]);
        let head = encode_len_field(2, payload);
        let otail = encode_operations(ops.drop_first());
        assert(eo == head + otail);
        lemma_segment_split(s, pos, head, otail);
        assert(operation_wire_ok(ops[0]));
        lemma_len_field_step(s, pos, 2, payload);
        let en = pos + head.len() as int;
        let st = en - payload.len() as int;
        lemma_scan_operation_of_encoding(s, st, ops[0]);
        let acc2 = ExtractedShape { operations: acc.operations.push(ops[0]), ..acc };
        assert(scan_extracted(s, pos, end, acc) == scan_extracted(s, en, end, acc2));
        assert(forall|i: int|
            0 <= i < ops.drop_first().len() ==> #[trigger] ops.drop_first()[i] == ops[i + 1]);
        assert(segment_at(s, en, encode_ratifications(rats) + otail)) by {
            assert(encode_ratifications(rats) + otail =~= otail);
        }
        lemma_scan_extracted_of_encoding(s, en, end, acc2, rats, ops.drop_first());
        assert(acc2.operations + ops.drop_first() =~= acc.operations + ops);
        assert(acc2.ratifications + rats =~= acc.ratifications + rats);
        assert((ExtractedShape {
            ratifications: acc2.ratifications + rats,
            operations: acc2.operations + ops.drop_first(),
        }) == (ExtractedShape {
            ratifications: acc.ratifications + rats,
            operations: acc.operations + ops,
        }));
    } else {
        assert(pos == end);
        assert(acc.ratifications + rats =~= acc.ratifications);
        assert(acc.operations + ops =~= acc.operations);
        assert((ExtractedShape {
            ratifications: acc.ratifications + rats,
            operations: acc.operations + ops,
        }) == acc);
    }
}

/// Decoding inverts encoding for a whole extracted payload: any payload
/// whose messages can travel comes back exactly from its canonical wire
/// bytes.
pub proof fn lemma_extracted_round_trip(e: ExtractedShape)
    requires
        extracted_ok(e),
    ensures
        spec_decode_extracted(encode_extracted(e)) == Some(e),
{
    let s = encode_extracted(e);
    assert(segment_at(s, 0, encode_ratifications(e.ratifications) + encode_operations(
        e.operations,
    ))) by {
        assert(forall|j: int| 0 <= j < s.len() ==> s[j] == #[trigger] s[j]);
    }
    let acc0 = ExtractedShape { ratifications: Seq::empty(), operations: Seq::empty() };
    lemma_scan_extracted_of_encoding(
        s,
        0,
        s.len() as int,
        acc0,
        e.ratifications,
        e.operations,
    );
    assert(acc0.ratifications + e.ratifications =~= e.ratifications);
    assert(acc0.operations + e.operations =~= e.operations);
    assert((ExtractedShape {
        ratifications: acc0.ratifications + e.ratifications,
        operations: acc0.operations + e.operations,
    }) == e);
}

} // verus!
