//! The cursor tracker's persisted form.  After each committed block the
//! driver stores the module name, the committed height, and the feed's
//! cursor; on restart it reads them back and resumes the session at the
//! exact point of last successful commit.  Writing and reading are
//! inverses, so a restart can neither reprocess nor skip history.

use crate::numtext::all_dec_digits;
use crate::numtext::dec_str_of;
use crate::numtext::dec_value;
use crate::numtext::is_dec_digit;
use crate::numtext::lemma_dec_round_trip;
use crate::numtext::parse_u64;
use crate::numtext::push_char;
use crate::numtext::u64_to_string;
use vstd::prelude::*;
use vstd::string::StrSliceExecFns;
use vstd::string::StringExecFns;

verus! {

/// The persisted text: module name, committed height, and cursor, each
/// on its own line (the cursor, coming last, may itself span lines).
pub open spec fn spec_render_cursor(module: Seq<char>, height: u64, cursor: Seq<char>) -> Seq<
    char,
> {
    module + seq!['\n'] + dec_str_of(height as nat) + seq!['\n'] + cursor
}

/// Render one cursor record for persistence.
pub fn render_cursor_record(module_name: &String, height: u64, cursor: &String) -> (r: String)
    ensures
        r@ == spec_render_cursor(module_name@, height, cursor@),
{
    let mut out = module_name.clone();
    push_char(&mut out, '\n');
    let digits = u64_to_string(height);
    out.append(digits.as_str());
    push_char(&mut out, '\n');
    out.append(cursor.as_str());
    proof {
        assert(out@ =~= spec_render_cursor(module_name@, height, cursor@));
    }
    out
}

/// The first line break at or after `i`.
pub open spec fn find_line_break(s: Seq<char>, i: int) -> Option<int>
    decreases s.len() - i,
{
    if !(0 <= i < s.len()) {
        None
    } else if s[i] == '\n' {
        Some(i)
    } else {
        find_line_break(s, i + 1)
    }
}

proof fn lemma_find_line_break_none(s: Seq<char>, i: int)
    requires
        forall|j: int| i <= j < s.len() ==> s[j] != '\n',
    ensures
        find_line_break(s, i) is None,
    decreases s.len() - i,
{
    if 0 <= i < s.len() {
        lemma_find_line_break_none(s, i + 1);
    }
}

proof fn lemma_find_line_break_at(s: Seq<char>, i: int, k: int)
    requires
        0 <= i <= k < s.len(),
        s[k] == '\n',
        forall|j: int| i <= j < k ==> s[j] != '\n',
    ensures
        find_line_break(s, i) == Some(k),
    decreases k - i,
{
    if i < k {
        lemma_find_line_break_at(s, i + 1, k);
    }
}

/// The record a persisted text denotes: the first line as the module,
/// the second as the decimal height, everything after as the cursor.
pub open spec fn spec_parse_cursor(s: Seq<char>) -> Option<(Seq<char>, u64, Seq<char>)> {
    match find_line_break(s, 0) {
        None => None,
        Some(a) => match find_line_break(s, a + 1) {
            None => None,
            Some(b) => {
                let digits = s.subrange(a + 1, b);
                if digits.len() > 0 && all_dec_digits(digits) && dec_value(digits) <= u64::MAX {
                    Some(
                        (
                            s.subrange(0, a),
                            dec_value(digits) as u64,
                            s.subrange(b + 1, s.len() as int),
                        ),
                    )
                } else {
                    None
                }
            },
        },
    }
}

fn find_line_break_exec(s: &str, i: usize, n: usize) -> (r: Option<usize>)
    requires
        n == s@.len(),
        i <= n,
    ensures
        match r {
            Some(k) => find_line_break(s@, i as int) == Some(k as int) && i <= k < n,
            None => find_line_break(s@, i as int) is None,
        },
{
    let mut j: usize = i;
    while j < n
        invariant
            n == s@.len(),
            i <= j <= n,
            forall|q: int| i <= q < j ==> s@[q] != '\n',
        decreases n - j,
    {
        if s.get_char(j) == '\n' {
            proof {
                lemma_find_line_break_at(s@, i as int, j as int);
            }
            return Some(j);
        }
        j = j + 1;
    }
    proof {
        lemma_find_line_break_none(s@, i as int);
    }
    None
}

/// Read one persisted cursor record back.
pub fn parse_cursor_record(s: &str) -> (r: Option<(String, u64, String)>)
    ensures
        match r {
            Some(t) => spec_parse_cursor(s@) matches Some(q) && q.0 == t.0@ && q.1 == t.1 && q.2
                == t.2@,
            None => spec_parse_cursor(s@) is None,
        },
{
    let n = s.unicode_len();
    let a = match find_line_break_exec(s, 0, n) {
        Some(a) => a,
        None => {
            return None;
        },
    };
    let b = match find_line_break_exec(s, a + 1, n) {
        Some(b) => b,
        None => {
            return None;
        },
    };
    let digits = s.substring_char(a + 1, b);
    let height = match parse_u64(digits) {
        Some(h) => h,
        None => {
            return None;
        },
    };
    let module = s.substring_char(0, a).to_owned();
    let cursor = s.substring_char(b + 1, n).to_owned();
    Some((module, height, cursor))
}

/// Writing then reading a cursor record is the identity, for any module
/// name without a line break and any cursor text at all.
pub proof fn lemma_cursor_round_trip(module: Seq<char>, height: u64, cursor: Seq<char>)
    requires
        forall|i: int| 0 <= i < module.len() ==> module[i] != '\n',
    ensures
        spec_parse_cursor(spec_render_cursor(module, height, cursor)) == Some(
            (module, height, cursor),
        ),
{
    let digits = dec_str_of(height as nat);
    lemma_dec_round_trip(height as nat);
    let s = spec_render_cursor(module, height, cursor);
    let a = module.len() as int;
    let b = a + 1 + digits.len() as int;
    assert(s[a] == '\n');
    assert(s[b] == '\n');
    assert forall|j: int| 0 <= j < a implies s[j] != '\n' by {
        assert(s[j] == module[j]);
    }
    assert forall|j: int| a + 1 <= j < b implies s[j] != '\n' by {
        assert(s[j] == digits[j - a - 1]);
        assert(is_dec_digit(digits[j - a - 1]));
    }
    lemma_find_line_break_at(s, 0, a);
    lemma_find_line_break_at(s, a + 1, b);
    assert(s.subrange(0, a) =~= module);
    assert(s.subrange(a + 1, b) =~= digits);
    assert(s.subrange(b + 1, s.len() as int) =~= cursor);
}

} // verus!
