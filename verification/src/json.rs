//! A verified decoder for the JSON subset the node's mapping-lookup
//! endpoint serves: a bare unsigned number, or one flat object whose
//! member values are strings, unsigned numbers, or booleans.  Strings must
//! be printable ASCII without escapes; anything else is a shape mismatch,
//! which the pipeline treats as fatal schema drift.
//!
//! Every specification works over the raw byte sequence and a cursor
//! position, and every executable function returns exactly what its
//! specification denotes.

use vstd::prelude::*;

verus! {

/// One member value: a boolean, an unsigned number, or a string.
#[derive(Clone, Debug, PartialEq, Eq)]
pub enum JsonScalar {
    Flag(bool),
    Num(u64),
    Text(String),
}

/// The mathematical form of a member value.
pub enum ScalarShape {
    Flag(bool),
    Num(u64),
    Text(Seq<char>),
}

impl View for JsonScalar {
    type V = ScalarShape;

    open spec fn view(&self) -> ScalarShape {
        match self {
            JsonScalar::Flag(b) => ScalarShape::Flag(*b),
            JsonScalar::Num(n) => ScalarShape::Num(*n),
            JsonScalar::Text(s) => ScalarShape::Text(s@),
        }
    }
}

/// ASCII bytes read as characters.
pub open spec fn ascii_chars(bs: Seq<u8>) -> Seq<char> {
    bs.map_values(|b: u8| b as char)
}

pub open spec fn is_ws(b: u8) -> bool {
    b == 32 || b == 9 || b == 10 || b == 13
}

pub open spec fn is_digit(b: u8) -> bool {
    48 <= b <= 57
}

/// A byte allowed inside a string token: printable ASCII except the quote
/// and the backslash.
pub open spec fn is_text_byte(b: u8) -> bool {
    32 <= b <= 126 && b != 34 && b != 92
}

/// First position at or after `i` holding no whitespace.
pub open spec fn skip_ws(s: Seq<u8>, i: int) -> int
    decreases s.len() - i,
{
    if 0 <= i < s.len() && is_ws(s[i]) {
        skip_ws(s, i + 1)
    } else {
        i
    }
}

proof fn lemma_skip_ws_bounds(s: Seq<u8>, i: int)
    requires
        0 <= i <= s.len(),
    ensures
        i <= skip_ws(s, i) <= s.len(),
    decreases s.len() - i,
{
    if i < s.len() && is_ws(s[i]) {
        lemma_skip_ws_bounds(s, i + 1);
    }
}

fn skip_ws_exec(s: &[u8], i: usize) -> (r: usize)
    requires
        i <= s@.len(),
    ensures
        r == skip_ws(s@, i as int),
        i <= r <= s@.len(),
    decreases s@.len() - i,
{
    proof {
        lemma_skip_ws_bounds(s@, i as int);
    }
    if i < s.len() {
        let b = s[i];
        if b == 32 || b == 9 || b == 10 || b == 13 {
            return skip_ws_exec(s, i + 1);
        }
    }
    i
}

/// Position just past the closing quote of a string token whose content
/// starts at `i`, where the content is all text bytes; `None` on an
/// unterminated or ill-formed token.
pub open spec fn scan_text_end(s: Seq<u8>, i: int) -> Option<int>
    decreases s.len() - i,
{
    if !(0 <= i < s.len()) {
        None
    } else if s[i] == 34 {
        Some(i + 1)
    } else if is_text_byte(s[i]) {
        scan_text_end(s, i + 1)
    } else {
        None
    }
}

proof fn lemma_scan_text_end_bounds(s: Seq<u8>, i: int)
    requires
        0 <= i <= s.len(),
    ensures
        scan_text_end(s, i) matches Some(e) ==> i < e <= s.len(),
    decreases s.len() - i,
{
    if i < s.len() && s[i] != 34 && is_text_byte(s[i]) {
        lemma_scan_text_end_bounds(s, i + 1);
    }
}

fn scan_text_end_exec(s: &[u8], i: usize) -> (r: Option<usize>)
    requires
        i <= s@.len(),
    ensures
        match r {
            Some(e) => scan_text_end(s@, i as int) == Some(e as int) && i < e <= s@.len(),
            None => scan_text_end(s@, i as int) is None,
        },
    decreases s@.len() - i,
{
    proof {
        lemma_scan_text_end_bounds(s@, i as int);
    }
    if i >= s.len() {
        None
    } else if s[i] == 34 {
        Some(i + 1)
    } else if 32 <= s[i] && s[i] <= 126 && s[i] != 92 {
        scan_text_end_exec(s, i + 1)
    } else {
        None
    }
}

/// The characters of the string token whose content occupies `i..e-1`.
pub open spec fn text_content(s: Seq<u8>, i: int, e: int) -> Seq<char> {
    ascii_chars(s.subrange(i, e - 1))
}

fn text_content_exec(s: &[u8], i: usize, e: usize) -> (r: String)
    requires
        i < e <= s@.len(),
    ensures
        r@ == text_content(s@, i as int, e as int),
{
    let mut out = String::new();
    let mut j: usize = i;
    while j < e - 1
        invariant
            i <= j <= e - 1,
            i < e <= s@.len(),
            out@ == ascii_chars(s@.subrange(i as int, j as int)),
        decreases e - 1 - j,
    {
        let ghost pre = s@.subrange(i as int, j as int);
        crate::numtext::push_char(&mut out, s[j] as char);
        proof {
            assert(s@.subrange(i as int, j as int + 1) =~= pre.push(s@[j as int]));
            assert(ascii_chars(pre.push(s@[j as int])) =~= ascii_chars(pre).push(
                s@[j as int] as char,
            ));
        }
        j = j + 1;
    }
    out
}

/// Accumulated value and end position of the digit run starting at `i`.
pub open spec fn scan_num(s: Seq<u8>, i: int, acc: nat) -> (nat, int)
    decreases s.len() - i,
{
    if 0 <= i < s.len() && is_digit(s[i]) {
        scan_num(s, i + 1, acc * 10 + (s[i] - 48) as nat)
    } else {
        (acc, i)
    }
}

proof fn lemma_scan_num_bounds(s: Seq<u8>, i: int, acc: nat)
    requires
        0 <= i <= s.len(),
    ensures
        i <= scan_num(s, i, acc).1 <= s.len(),
        scan_num(s, i, acc).0 >= acc,
    decreases s.len() - i,
{
    if i < s.len() && is_digit(s[i]) {
        lemma_scan_num_bounds(s, i + 1, acc * 10 + (s[i] - 48) as nat);
        assert(acc * 10 + (s[i] - 48) as nat >= acc) by (nonlinear_arith);
    }
}

fn scan_num_exec(s: &[u8], i: usize, acc: u64) -> (r: Option<(u64, usize)>)
    requires
        i <= s@.len(),
    ensures
        match r {
            Some((v, e)) => scan_num(s@, i as int, acc as nat) == (v as nat, e as int) && i <= e
                <= s@.len(),
            None => scan_num(s@, i as int, acc as nat).0 > u64::MAX,
        },
    decreases s@.len() - i,
{
    proof {
        lemma_scan_num_bounds(s@, i as int, acc as nat);
    }
    if i < s.len() && 48 <= s[i] && s[i] <= 57 {
        let d = (s[i] - 48) as u64;
        let next = match acc.checked_mul(10) {
            Some(m) => m.checked_add(d),
            None => None,
        };
        match next {
            Some(v) => scan_num_exec(s, i + 1, v),
            None => {
                proof {
                    lemma_scan_num_bounds(s@, i as int + 1, acc as nat * 10 + (s@[i as int]
                        - 48) as nat);
                }
                None
            },
        }
    } else {
        Some((acc, i))
    }
}

/// The scalar token starting exactly at `i`: a quoted string, a digit run,
/// `true`, or `false`; with the position just past it.
pub open spec fn scan_scalar(s: Seq<u8>, i: int) -> Option<(ScalarShape, int)> {
    if !(0 <= i < s.len()) {
        None
    } else if s[i] == 34 {
        match scan_text_end(s, i + 1) {
            Some(e) => Some((ScalarShape::Text(text_content(s, i + 1, e)), e)),
            None => None,
        }
    } else if is_digit(s[i]) {
        let (v, e) = scan_num(s, i, 0);
        if v <= u64::MAX {
            Some((ScalarShape::Num(v as u64), e))
        } else {
            None
        }
    } else if i + 4 <= s.len() && s[i] == 116 && s[i + 1] == 114 && s[i + 2] == 117 && s[i + 3]
        == 101 {
        Some((ScalarShape::Flag(true), i + 4))
    } else if i + 5 <= s.len() && s[i] == 102 && s[i + 1] == 97 && s[i + 2] == 108 && s[i + 3]
        == 115 && s[i + 4] == 101 {
        Some((ScalarShape::Flag(false), i + 5))
    } else {
        None
    }
}

fn scan_scalar_exec(s: &[u8], i: usize) -> (r: Option<(JsonScalar, usize)>)
    requires
        i <= s@.len(),
    ensures
        match r {
            Some((v, e)) => scan_scalar(s@, i as int) matches Some(p) && p.0 == v@ && p.1 == e as int
                && i < e <= s@.len(),
            None => scan_scalar(s@, i as int) is None,
        },
{
    if i >= s.len() {
        return None;
    }
    let b = s[i];
    if b == 34 {
        match scan_text_end_exec(s, i + 1) {
            Some(e) => {
                let text = text_content_exec(s, i + 1, e);
                Some((JsonScalar::Text(text), e))
            },
            None => None,
        }
    } else if 48 <= b && b <= 57 {
        match scan_num_exec(s, i, 0) {
            Some((v, e)) => {
                proof {
                    assert(scan_num(s@, i as int, 0) == scan_num(
                        s@,
                        i as int + 1,
                        (s@[i as int] - 48) as nat,
                    ));
                    lemma_scan_num_bounds(s@, i as int + 1, (s@[i as int] - 48) as nat);
                }
                Some((JsonScalar::Num(v), e))
            },
            None => None,
        }
    } else if s.len() - i >= 4 && b == 116 && s[i + 1] == 114 && s[i + 2] == 117 && s[i + 3]
        == 101 {
        Some((JsonScalar::Flag(true), i + 4))
    } else if s.len() - i >= 5 && b == 102 && s[i + 1] == 97 && s[i + 2] == 108 && s[i + 3] == 115
        && s[i + 4] == 101 {
        Some((JsonScalar::Flag(false), i + 5))
    } else {
        None
    }
}

/// The members of a flat object, as views.
pub open spec fn fields_view(v: Seq<(String, JsonScalar)>) -> Seq<(Seq<char>, ScalarShape)> {
    v.map_values(|p: (String, JsonScalar)| (p.0@, p.1@))
}

/// Members from position `i` (which must hold the opening quote of a key)
/// up to and past the closing brace, appended to `acc`.  The explicit
/// progress guards (`i < nk <= s.len()`) always hold of positions the
/// scanners return; they only make termination evident.
pub open spec fn scan_members(s: Seq<u8>, i: int, acc: Seq<(Seq<char>, ScalarShape)>) -> Option<
    (Seq<(Seq<char>, ScalarShape)>, int),
>
    decreases s.len() - i,
{
    if !(0 <= i < s.len() && s[i] == 34) {
        None
    } else {
        match scan_text_end(s, i + 1) {
            None => None,
            Some(ke) => {
                let key = text_content(s, i + 1, ke);
                let c = skip_ws(s, ke);
                if !(0 <= c < s.len() && s[c] == 58) {
                    None
                } else {
                    let vstart = skip_ws(s, c + 1);
                    match scan_scalar(s, vstart) {
                        None => None,
                        Some((v, ve)) => {
                            let acc2 = acc.push((key, v));
                            let d = skip_ws(s, ve);
                            if 0 <= d < s.len() && s[d] == 44 {
                                let nk = skip_ws(s, d + 1);
                                if i < nk <= s.len() {
                                    scan_members(s, nk, acc2)
                                } else {
                                    None
                                }
                            } else if 0 <= d < s.len() && s[d] == 125 {
                                Some((acc2, d + 1))
                            } else {
                                None
                            }
                        },
                    }
                }
            }
        }
    }
}

fn scan_members_exec(s: &[u8], i: usize, acc: Vec<(String, JsonScalar)>) -> (r: Option<
    (Vec<(String, JsonScalar)>, usize),
>)
    requires
        i <= s@.len(),
    ensures
        match r {
            Some((fields, e)) => scan_members(s@, i as int, fields_view(acc@)) matches Some(p)
                && p.0 == fields_view(fields@) && p.1 == e as int && e <= s@.len(),
            None => scan_members(s@, i as int, fields_view(acc@)) is None,
        },
    decreases s@.len() - i,
{
    if !(i < s.len() && s[i] == 34) {
        return None;
    }
    let ke = match scan_text_end_exec(s, i + 1) {
        Some(ke) => ke,
        None => {
            return None;
        },
    };
    let key = text_content_exec(s, i + 1, ke);
    let c = skip_ws_exec(s, ke);
    if !(c < s.len() && s[c] == 58) {
        return None;
    }
    let vstart = skip_ws_exec(s, c + 1);
    let (v, ve) = match scan_scalar_exec(s, vstart) {
        Some(p) => p,
        None => {
            return None;
        },
    };
    let ghost old_acc = fields_view(acc@);
    let mut acc2 = acc;
    acc2.push((key, v));
    proof {
        assert(fields_view(acc2@) =~= old_acc.push((acc2@.last().0@, acc2@.last().1@)));
    }
    let d = skip_ws_exec(s, ve);
    if d < s.len() && s[d] == 44 {
        let nk = skip_ws_exec(s, d + 1);
        scan_members_exec(s, nk, acc2)
    } else if d < s.len() && s[d] == 125 {
        Some((acc2, d + 1))
    } else {
        None
    }
}

/// A whole body holding one flat object, with nothing but whitespace
/// around it.
pub open spec fn parse_object(s: Seq<u8>) -> Option<Seq<(Seq<char>, ScalarShape)>> {
    let i = skip_ws(s, 0);
    if !(0 <= i < s.len() && s[i] == 123) {
        None
    } else {
        let j = skip_ws(s, i + 1);
        if 0 <= j < s.len() && s[j] == 125 {
            if skip_ws(s, j + 1) == s.len() {
                Some(Seq::empty())
            } else {
                None
            }
        } else {
            match scan_members(s, j, Seq::empty()) {
                None => None,
                Some((fields, e)) => {
                    if skip_ws(s, e) == s.len() {
                        Some(fields)
                    } else {
                        None
                    }
                },
            }
        }
    }
}

/// Decode a flat JSON object from a response body.
pub fn parse_object_exec(s: &[u8]) -> (r: Option<Vec<(String, JsonScalar)>>)
    ensures
        match r {
            Some(fields) => parse_object(s@) == Some(fields_view(fields@)),
            None => parse_object(s@) is None,
        },
{
    let i = skip_ws_exec(s, 0);
    if !(i < s.len() && s[i] == 123) {
        return None;
    }
    let j = skip_ws_exec(s, i + 1);
    if j < s.len() && s[j] == 125 {
        let e = skip_ws_exec(s, j + 1);
        if e == s.len() {
            let out: Vec<(String, JsonScalar)> = Vec::new();
            proof {
                assert(fields_view(out@) =~= Seq::<(Seq<char>, ScalarShape)>::empty());
            }
            Some(out)
        } else {
            None
        }
    } else {
        let start: Vec<(String, JsonScalar)> = Vec::new();
        proof {
            assert(fields_view(start@) =~= Seq::<(Seq<char>, ScalarShape)>::empty());
        }
        match scan_members_exec(s, j, start) {
            Some((fields, e)) => {
                let t = skip_ws_exec(s, e);
                if t == s.len() {
                    Some(fields)
                } else {
                    None
                }
            },
            None => None,
        }
    }
}

/// A whole body holding one bare unsigned number, with nothing but
/// whitespace around it.
pub open spec fn parse_bare_u64(s: Seq<u8>) -> Option<u64> {
    let i = skip_ws(s, 0);
    if 0 <= i < s.len() && is_digit(s[i]) {
        let (v, e) = scan_num(s, i, 0);
        if v <= u64::MAX && skip_ws(s, e) == s.len() {
            Some(v as u64)
        } else {
            None
        }
    } else {
        None
    }
}

/// Decode a bare unsigned number from a response body.
pub fn parse_bare_u64_exec(s: &[u8]) -> (r: Option<u64>)
    ensures
        r == parse_bare_u64(s@),
{
    let i = skip_ws_exec(s, 0);
    if i < s.len() && 48 <= s[i] && s[i] <= 57 {
        match scan_num_exec(s, i, 0) {
            Some((v, e)) => {
                proof {
                    lemma_scan_num_bounds(s@, i as int, 0);
                }
                let t = skip_ws_exec(s, e);
                if t == s.len() {
                    Some(v)
                } else {
                    None
                }
            },
            None => None,
        }
    } else {
        None
    }
}

/// First member with this name, if any.
pub open spec fn field_lookup(fields: Seq<(Seq<char>, ScalarShape)>, name: Seq<char>) -> Option<
    ScalarShape,
>
    decreases fields.len(),
{
    if fields.len() == 0 {
        None
    } else if fields[0].0 == name {
        Some(fields[0].1)
    } else {
        field_lookup(fields.drop_first(), name)
    }
}

proof fn lemma_field_lookup_none(fields: Seq<(Seq<char>, ScalarShape)>, name: Seq<char>)
    requires
        forall|j: int| 0 <= j < fields.len() ==> fields[j].0 != name,
    ensures
        field_lookup(fields, name) is None,
    decreases fields.len(),
{
    if fields.len() > 0 {
        lemma_field_lookup_none(fields.drop_first(), name);
    }
}

proof fn lemma_field_lookup_at_index(
    fields: Seq<(Seq<char>, ScalarShape)>,
    name: Seq<char>,
    i: int,
)
    requires
        0 <= i < fields.len(),
        fields[i].0 == name,
        forall|j: int| 0 <= j < i ==> fields[j].0 != name,
    ensures
        field_lookup(fields, name) == Some(fields[i].1),
    decreases i,
{
    if i > 0 {
        assert(forall|j: int| 0 <= j < i - 1 ==> fields.drop_first()[j] == fields[j + 1]);
        lemma_field_lookup_at_index(fields.drop_first(), name, i - 1);
    }
}

/// Reference to the first member with this name.
pub fn find_field<'a>(fields: &'a Vec<(String, JsonScalar)>, name: &str) -> (r: Option<
    &'a JsonScalar,
>)
    ensures
        match r {
            Some(v) => field_lookup(fields_view(fields@), name@) == Some(v@),
            None => field_lookup(fields_view(fields@), name@) is None,
        },
{
    let want = String::from_str(name);
    let n = fields.len();
    let mut i: usize = 0;
    while i < n
        invariant
            n == fields@.len(),
            i <= n,
            want@ == name@,
            forall|j: int| 0 <= j < i ==> fields_view(fields@)[j].0 != name@,
        decreases n - i,
    {
        if fields[i].0 == want {
            proof {
                lemma_field_lookup_at_index(fields_view(fields@), name@, i as int);
            }
            return Some(&fields[i].1);
        }
        proof {
            assert(fields_view(fields@)[i as int].0 == fields@[i as int].0@);
        }
        i = i + 1;
    }
    proof {
        lemma_field_lookup_none(fields_view(fields@), name@);
    }
    None
}

/// The named member, which must be an unsigned number.
pub fn get_num_field(fields: &Vec<(String, JsonScalar)>, name: &str) -> (r: Option<u64>)
    ensures
        match r {
            Some(v) => field_lookup(fields_view(fields@), name@) == Some(ScalarShape::Num(v)),
            None => !(field_lookup(fields_view(fields@), name@) matches Some(sv) && sv is Num),
        },
{
    match find_field(fields, name) {
        Some(JsonScalar::Num(n)) => Some(*n),
        _ => None,
    }
}

/// The named member, which must be an unsigned number fitting 32 bits.
pub fn get_num32_field(fields: &Vec<(String, JsonScalar)>, name: &str) -> (r: Option<u32>)
    ensures
        match r {
            Some(v) => field_lookup(fields_view(fields@), name@) == Some(
                ScalarShape::Num(v as u64),
            ),
            None => !(field_lookup(fields_view(fields@), name@) matches Some(sv) && sv matches
                ScalarShape::Num(n) && n <= u32::MAX),
        },
{
    match find_field(fields, name) {
        Some(JsonScalar::Num(n)) => {
            if *n <= u32::MAX as u64 {
                Some(*n as u32)
            } else {
                None
            }
        },
        _ => None,
    }
}

/// The named member, which must be a string.
pub fn get_text_field(fields: &Vec<(String, JsonScalar)>, name: &str) -> (r: Option<String>)
    ensures
        match r {
            Some(v) => field_lookup(fields_view(fields@), name@) == Some(ScalarShape::Text(v@)),
            None => !(field_lookup(fields_view(fields@), name@) matches Some(sv) && sv is Text),
        },
{
    match find_field(fields, name) {
        Some(JsonScalar::Text(t)) => Some(t.clone()),
        _ => None,
    }
}

/// The named member, which must be a boolean.
pub fn get_flag_field(fields: &Vec<(String, JsonScalar)>, name: &str) -> (r: Option<bool>)
    ensures
        match r {
            Some(v) => field_lookup(fields_view(fields@), name@) == Some(ScalarShape::Flag(v)),
            None => !(field_lookup(fields_view(fields@), name@) matches Some(sv) && sv is Flag),
        },
{
    match find_field(fields, name) {
        Some(JsonScalar::Flag(b)) => Some(*b),
        _ => None,
    }
}

} // verus!
