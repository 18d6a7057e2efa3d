//! Binary wire-format primitives of the feed's payload encoding:
//! variable-width integers, field keys, length-delimited fields, and
//! unknown-field skipping.  Every specification works over the raw byte
//! sequence and a cursor position, and every executable function returns
//! exactly what its specification denotes.
//!
//! String fields must be ASCII — the payloads carry addresses, hashes and
//! identifiers — and anything else is malformed.

use crate::json::ascii_chars;
use vstd::prelude::*;

verus! {

/// Ten seven-bit groups reached: the group weight of the tenth byte.
pub const VARINT_LAST_MULT: u64 = 0x8000000000000000;

/// Value and end position of the variable-width integer at `i`, little
/// endian in seven-bit groups, at most ten bytes long; `acc` and `mult`
/// carry the groups already read.
pub open spec fn scan_varint(s: Seq<u8>, i: int, mult: nat, acc: nat) -> Option<(nat, int)>
    decreases s.len() - i,
{
    if !(0 <= i < s.len()) {
        None
    } else {
        let g = (s[i] % 128) as nat;
        let acc2 = acc + g * mult;
        if s[i] < 128 {
            Some((acc2, i + 1))
        } else if mult >= VARINT_LAST_MULT {
            None
        } else {
            scan_varint(s, i + 1, mult * 128, acc2)
        }
    }
}

proof fn lemma_scan_varint_bounds(s: Seq<u8>, i: int, mult: nat, acc: nat)
    requires
        0 <= i <= s.len(),
    ensures
        scan_varint(s, i, mult, acc) matches Some(p) ==> i < p.1 <= s.len() && p.0 >= acc,
    decreases s.len() - i,
{
    if i < s.len() {
        let g = (s[i] % 128) as nat;
        assert(g * mult >= 0);
        if s[i] >= 128 && mult < VARINT_LAST_MULT {
            lemma_scan_varint_bounds(s, i + 1, mult * 128, acc + g * mult);
        }
    }
}

fn scan_varint_exec(s: &[u8], i: usize, mult: u128, acc: u128) -> (r: Option<(u128, usize)>)
    requires
        i <= s@.len(),
        1 <= mult <= 0x400000000000000000u128,
        acc < mult,
    ensures
        match r {
            Some(p) => scan_varint(s@, i as int, mult as nat, acc as nat) == Some(
                (p.0 as nat, p.1 as int),
            ) && i < p.1 <= s@.len(),
            None => scan_varint(s@, i as int, mult as nat, acc as nat) is None,
        },
    decreases s@.len() - i,
{
    proof {
        lemma_scan_varint_bounds(s@, i as int, mult as nat, acc as nat);
    }
    if i >= s.len() {
        return None;
    }
    let b = s[i];
    let g: u128 = (b % 128) as u128;
    proof {
        assert(g * mult <= 127 * 0x400000000000000000u128) by (nonlinear_arith)
            requires
                g <= 127,
                mult <= 0x400000000000000000u128,
        ;
    }
    let acc2: u128 = acc + g * mult;
    if b < 128 {
        Some((acc2, i + 1))
    } else if mult >= VARINT_LAST_MULT as u128 {
        None
    } else {
        proof {
            assert(acc2 < mult * 128) by (nonlinear_arith)
                requires
                    acc < mult,
                    g <= 127,
                    acc2 == acc + g * mult,
            ;
        }
        scan_varint_exec(s, i + 1, mult * 128, acc2)
    }
}

/// The 64-bit variable-width integer at `i`: its value and the position
/// just past it; `None` where the bytes run out, a value passes 64 bits,
/// or an eleventh byte would be needed.
pub open spec fn parse_varint(s: Seq<u8>, i: int) -> Option<(u64, int)> {
    match scan_varint(s, i, 1, 0) {
        Some((v, e)) => if v <= u64::MAX {
            Some((v as u64, e))
        } else {
            None
        },
        None => None,
    }
}

/// Decode one variable-width integer.
pub fn parse_varint_exec(s: &[u8], i: usize) -> (r: Option<(u64, usize)>)
    requires
        i <= s@.len(),
    ensures
        match r {
            Some(p) => parse_varint(s@, i as int) == Some((p.0, p.1 as int)) && i < p.1 <= s@.len(),
            None => parse_varint(s@, i as int) is None,
        },
{
    match scan_varint_exec(s, i, 1, 0) {
        Some((v, e)) => {
            if v <= u64::MAX as u128 {
                Some((v as u64, e))
            } else {
                None
            }
        },
        None => None,
    }
}

/// The field number a key encodes.
pub open spec fn key_field(key: u64) -> u64 {
    key / 8
}

/// The wire type a key encodes.
pub open spec fn key_wire(key: u64) -> u64 {
    key % 8
}

/// The position just past the value of a field with this wire type
/// starting at `i`; `None` for a wire type this format never carries or a
/// value passing the end of the buffer.
pub open spec fn skip_value(s: Seq<u8>, i: int, wire: u64) -> Option<int> {
    if wire == 0 {
        match parse_varint(s, i) {
            Some((v, e)) => Some(e),
            None => None,
        }
    } else if wire == 1 {
        if i + 8 <= s.len() {
            Some(i + 8)
        } else {
            None
        }
    } else if wire == 2 {
        match parse_varint(s, i) {
            Some((len, e)) => if e + len <= s.len() {
                Some(e + len)
            } else {
                None
            },
            None => None,
        }
    } else if wire == 5 {
        if i + 4 <= s.len() {
            Some(i + 4)
        } else {
            None
        }
    } else {
        None
    }
}

/// Step past one field value.
pub fn skip_value_exec(s: &[u8], i: usize, wire: u64) -> (r: Option<usize>)
    requires
        i <= s@.len(),
    ensures
        match r {
            Some(e) => skip_value(s@, i as int, wire) == Some(e as int) && i <= e <= s@.len(),
            None => skip_value(s@, i as int, wire) is None,
        },
{
    if wire == 0 {
        match parse_varint_exec(s, i) {
            Some((_, e)) => Some(e),
            None => None,
        }
    } else if wire == 1 {
        if s.len() - i >= 8 {
            Some(i + 8)
        } else {
            None
        }
    } else if wire == 2 {
        match parse_varint_exec(s, i) {
            Some((len, e)) => {
                if len <= (s.len() - e) as u64 {
                    Some(e + (len as usize))
                } else {
                    None
                }
            },
            None => None,
        }
    } else if wire == 5 {
        if s.len() - i >= 4 {
            Some(i + 4)
        } else {
            None
        }
    } else {
        None
    }
}

/// Start and end of the payload of a length-delimited field at `i`, with
/// the length prefix already consumed by the time `start` is reached.
pub open spec fn parse_len_payload(s: Seq<u8>, i: int) -> Option<(int, int)> {
    match parse_varint(s, i) {
        Some((len, e)) => if e + len <= s.len() {
            Some((e, e + len))
        } else {
            None
        },
        None => None,
    }
}

/// Locate a length-delimited payload.
pub fn parse_len_payload_exec(s: &[u8], i: usize) -> (r: Option<(usize, usize)>)
    requires
        i <= s@.len(),
    ensures
        match r {
            Some(p) => parse_len_payload(s@, i as int) == Some((p.0 as int, p.1 as int)) && i < p.0
                <= p.1 <= s@.len(),
            None => parse_len_payload(s@, i as int) is None,
        },
{
    match parse_varint_exec(s, i) {
        Some((len, e)) => {
            if len <= (s.len() - e) as u64 {
                Some((e, e + (len as usize)))
            } else {
                None
            }
        },
        None => None,
    }
}

/// The canonical encoding of a value as a variable-width integer:
/// little-endian seven-bit groups, a continuation bit on every byte but
/// the last.
pub open spec fn encode_varint(v: nat) -> Seq<u8>
    decreases v,
{
    if v < 128 {
        seq![v as u8]
    } else {
        seq![(128 + (v % 128)) as u8] + encode_varint(v / 128)
    }
}

/// Whether the scanner can take in `v` starting from this group weight
/// without meeting its ten-group cap.
spec fn varint_fits(v: nat, mult: nat) -> bool
    decreases v,
{
    if v < 128 {
        true
    } else {
        mult < VARINT_LAST_MULT && varint_fits(v / 128, mult * 128)
    }
}

proof fn lemma_varint_fits(v: nat, mult: nat)
    requires
        1 <= mult,
        v * mult < 0x400000000000000000,
    ensures
        varint_fits(v, mult),
    decreases v,
{
    if v >= 128 {
        assert(mult * 128 <= v * mult) by (nonlinear_arith)
            requires
                v >= 128,
                mult >= 1,
        ;
        assert(mult < VARINT_LAST_MULT);
        assert((v / 128) * (mult * 128) <= v * mult) by (nonlinear_arith)
            requires
                v >= 128,
                mult >= 1,
        ;
        lemma_varint_fits(v / 128, mult * 128);
    }
}

proof fn lemma_scan_varint_encoding(s: Seq<u8>, i: int, mult: nat, acc: nat, v: nat)
    requires
        1 <= mult,
        varint_fits(v, mult),
        0 <= i,
        i + encode_varint(v).len() <= s.len(),
        forall|j: int|
            0 <= j < encode_varint(v).len() ==> s[i + j] == #[trigger] encode_varint(v)[j],
    ensures
        scan_varint(s, i, mult, acc) == Some(
            ((acc + v * mult) as nat, i + encode_varint(v).len()),
        ),
    decreases v,
{
    let e = encode_varint(v);
    if v < 128 {
        assert(e[0] == v as u8);
        assert(s[i] == v as u8);
        assert((s[i] % 128) as nat == v);
    } else {
        assert(e[0] == (128 + (v % 128)) as u8);
        assert(128 + (v % 128) < 256);
        assert(s[i] == (128 + (v % 128)) as u8);
        assert(s[i] >= 128);
        assert((s[i] % 128) as nat == v % 128);
        let tail = encode_varint(v / 128);
        assert(e.len() == 1 + tail.len());
        assert forall|j: int| 0 <= j < tail.len() implies s[i + 1 + j] == #[trigger] tail[j] by {
            assert(e[1 + j] == tail[j]);
            assert(s[i + (1 + j)] == e[1 + j]);
        }
        lemma_scan_varint_encoding(s, i + 1, mult * 128, acc + (v % 128) * mult, v / 128);
        assert((v % 128) * mult + (v / 128) * (mult * 128) == v * mult) by (nonlinear_arith);
    }
}

/// Decoding the canonical encoding is the identity: wherever a buffer
/// carries `encode_varint(v)`, the decoder reads exactly `v` and stops
/// exactly past it.
pub proof fn lemma_varint_round_trip(s: Seq<u8>, i: int, v: nat)
    requires
        v <= u64::MAX,
        0 <= i,
        i + encode_varint(v).len() <= s.len(),
        s.subrange(i, i + encode_varint(v).len() as int) == encode_varint(v),
    ensures
        parse_varint(s, i) == Some((v as u64, i + encode_varint(v).len())),
{
    let e = encode_varint(v);
    assert forall|j: int| 0 <= j < e.len() implies s[i + j] == #[trigger] e[j] by {
        assert(s.subrange(i, i + e.len() as int)[j] == s[i + j]);
    }
    lemma_varint_fits(v, 1);
    lemma_scan_varint_encoding(s, i, 1, 0, v);
    assert(0 + v * 1 == v) by (nonlinear_arith);
}

/// Whether every byte of `s[i..e]` is ASCII.
pub open spec fn all_ascii(s: Seq<u8>, i: int, e: int) -> bool {
    forall|j: int| i <= j < e ==> s[j] < 128
}

/// The characters of an ASCII string field at `i`: a length prefix and
/// that many ASCII bytes.
pub open spec fn parse_str_field(s: Seq<u8>, i: int) -> Option<(Seq<char>, int)> {
    match parse_len_payload(s, i) {
        Some((start, end)) => if all_ascii(s, start, end) {
            Some((ascii_chars(s.subrange(start, end)), end))
        } else {
            None
        },
        None => None,
    }
}

/// The canonical encoding of a string field's value: the byte length,
/// then the bytes.
pub open spec fn encode_str_payload(bs: Seq<u8>) -> Seq<u8> {
    encode_varint(bs.len() as nat) + bs
}

/// Decoding the canonical encoding of an ASCII string value is the
/// identity: wherever a buffer carries `encode_str_payload(bs)`, the
/// decoder reads exactly the characters of `bs` and stops exactly past
/// them.
pub proof fn lemma_str_field_round_trip(s: Seq<u8>, i: int, bs: Seq<u8>)
    requires
        bs.len() <= u64::MAX,
        forall|j: int| 0 <= j < bs.len() ==> bs[j] < 128,
        0 <= i,
        i + encode_str_payload(bs).len() <= s.len(),
        s.subrange(i, i + encode_str_payload(bs).len() as int) == encode_str_payload(bs),
    ensures
        parse_str_field(s, i) == Some((ascii_chars(bs), i + encode_str_payload(bs).len())),
{
    let header = encode_varint(bs.len() as nat);
    let whole = encode_str_payload(bs);
    let start = i + header.len() as int;
    let end = start + bs.len() as int;
    assert forall|k: int| 0 <= k < whole.len() implies s[i + k] == #[trigger] whole[k] by {
        assert(s.subrange(i, i + whole.len() as int)[k] == s[i + k]);
    }
    assert(s.subrange(i, i + header.len() as int) =~= header);
    lemma_varint_round_trip(s, i, bs.len() as nat);
    assert(parse_len_payload(s, i) == Some((start, end)));
    assert forall|j: int| 0 <= j < bs.len() implies s[start + j] == #[trigger] bs[j] by {
        assert(whole[header.len() + j] == bs[j]);
        assert(s[i + (header.len() + j)] == whole[header.len() + j]);
    }
    assert forall|j: int| start <= j < end implies s[j] < 128 by {
        assert(s[start + (j - start)] == bs[j - start]);
    }
    assert(all_ascii(s, start, end));
    assert(s.subrange(start, end) =~= bs);
}

/// Whether the buffer carries exactly these bytes at position `i`.
pub open spec fn segment_at(s: Seq<u8>, i: int, seg: Seq<u8>) -> bool {
    &&& 0 <= i
    &&& i + seg.len() <= s.len()
    &&& forall|j: int| 0 <= j < seg.len() ==> s[i + j] == #[trigger] seg[j]
}

/// A carried concatenation is its parts carried back to back.
pub proof fn lemma_segment_split(s: Seq<u8>, i: int, a: Seq<u8>, b: Seq<u8>)
    requires
        segment_at(s, i, a + b),
    ensures
        segment_at(s, i, a),
        segment_at(s, i + a.len(), b),
{
    assert forall|j: int| 0 <= j < a.len() implies s[i + j] == #[trigger] a[j] by {
        assert((a + b)[j] == a[j]);
    }
    assert forall|j: int| 0 <= j < b.len() implies s[i + a.len() + j] == #[trigger] b[j] by {
        assert((a + b)[a.len() + j] == b[j]);
        assert(s[i + (a.len() + j)] == (a + b)[a.len() + j]);
    }
}

/// The varint round trip, for a carried segment.
pub proof fn lemma_varint_at(s: Seq<u8>, i: int, v: nat)
    requires
        v <= u64::MAX,
        segment_at(s, i, encode_varint(v)),
    ensures
        parse_varint(s, i) == Some((v as u64, i + encode_varint(v).len())),
{
    assert(s.subrange(i, i + encode_varint(v).len() as int) =~= encode_varint(v));
    lemma_varint_round_trip(s, i, v);
}

/// The string-field round trip, for a carried segment.
pub proof fn lemma_str_payload_at(s: Seq<u8>, i: int, bs: Seq<u8>)
    requires
        bs.len() <= u64::MAX,
        forall|j: int| 0 <= j < bs.len() ==> bs[j] < 128,
        segment_at(s, i, encode_str_payload(bs)),
    ensures
        parse_str_field(s, i) == Some((ascii_chars(bs), i + encode_str_payload(bs).len())),
{
    assert(s.subrange(i, i + encode_str_payload(bs).len() as int) =~= encode_str_payload(bs));
    lemma_str_field_round_trip(s, i, bs);
}

/// Decode one ASCII string field.
pub fn parse_str_field_exec(s: &[u8], i: usize) -> (r: Option<(String, usize)>)
    requires
        i <= s@.len(),
    ensures
        match r {
            Some(p) => parse_str_field(s@, i as int) matches Some(q) && q.0 == p.0@ && q.1 == p.1
                && i < p.1 <= s@.len(),
            None => parse_str_field(s@, i as int) is None,
        },
{
    let (start, end) = match parse_len_payload_exec(s, i) {
        Some(p) => p,
        None => {
            return None;
        },
    };
    let mut out = String::new();
    let mut j: usize = start;
    while j < end
        invariant
            parse_len_payload(s@, i as int) == Some((start as int, end as int)),
            i < start <= j <= end <= s@.len(),
            out@ == ascii_chars(s@.subrange(start as int, j as int)),
            forall|q: int| start <= q < j ==> s@[q] < 128,
        decreases end - j,
    {
        let b = s[j];
        if b >= 128 {
            proof {
                assert(s@[j as int] >= 128);
                assert(!all_ascii(s@, start as int, end as int));
            }
            return None;
        }
        let ghost pre = s@.subrange(start as int, j as int);
        crate::numtext::push_char(&mut out, b as char);
        proof {
            assert(s@.subrange(start as int, j as int + 1) =~= pre.push(s@[j as int]));
            assert(ascii_chars(pre.push(s@[j as int])) =~= ascii_chars(pre).push(
                s@[j as int] as char,
            ));
        }
        j = j + 1;
    }
    Some((out, end))
}

} // verus!
