//! Currency-amount extraction.  A cleaned line may carry a numeral —
//! up to three comma-separated digit groups — followed by a space and
//! the marker `ISK`, both ends sitting on a word boundary (the
//! neighbouring character, if any, is no ASCII letter, digit or
//! underscore).  Only the first such occurrence counts; its digit
//! groups, commas dropped, are read as one unsigned number.  A value
//! beyond the 64-bit range is a failed parse and contributes nothing.

use vstd::prelude::*;

use crate::text::is_digit_char;
use crate::text::is_word_char;
use crate::text::digit_check;
use crate::text::word_check;

verus! {

/// Character allowed inside the numeral body: a digit or a comma.
pub open spec fn is_amount_char(c: char) -> bool {
    is_digit_char(c) || c == ','
}

/// First index at or after `i` holding neither a digit nor a comma;
/// the numeral body starting at `i` ends there.
pub open spec fn body_end(s: Seq<char>, i: int) -> int
    decreases s.len() - i,
{
    if i < 0 || i >= s.len() {
        i
    } else if is_amount_char(s[i]) {
        body_end(s, i + 1)
    } else {
        i
    }
}

proof fn lemma_body_end(s: Seq<char>, i: int)
    requires
        0 <= i <= s.len(),
    ensures
        i <= body_end(s, i) <= s.len(),
        forall|k: int| i <= k < body_end(s, i) ==> is_amount_char(s[k]),
    decreases s.len() - i,
{
    if i < s.len() && is_amount_char(s[i]) {
        lemma_body_end(s, i + 1);
    }
}

/// Number of commas in `s` between `i` (inclusive) and `e`
/// (exclusive).
pub open spec fn commas_between(s: Seq<char>, i: int, e: int) -> int
    decreases e - i,
{
    if e <= i {
        0
    } else {
        commas_between(s, i, e - 1) + (if s[e - 1] == ',' {
            1int
        } else {
            0int
        })
    }
}

/// No word character stands right before index `i`.
pub open spec fn boundary_before(s: Seq<char>, i: int) -> bool {
    i == 0 || !is_word_char(s[i - 1])
}

/// No word character stands at index `i`.
pub open spec fn boundary_after(s: Seq<char>, i: int) -> bool {
    i == s.len() || !is_word_char(s[i])
}

/// The currency pattern matches at `i`: a digit on a word boundary
/// opens a body of digits and at most two commas, and right after the
/// body come a space and `ISK`, closed by a word boundary.
pub open spec fn amount_match_at(s: Seq<char>, i: int) -> bool {
    let e = body_end(s, i);
    &&& 0 <= i < s.len()
    &&& is_digit_char(s[i])
    &&& boundary_before(s, i)
    &&& commas_between(s, i, e) <= 2
    &&& e + 4 <= s.len()
    &&& s[e] == ' '
    &&& s[e + 1] == 'I'
    &&& s[e + 2] == 'S'
    &&& s[e + 3] == 'K'
    &&& boundary_after(s, e + 4)
}

/// Position of the first match at or after `from`, if any.
pub open spec fn first_amount_match(s: Seq<char>, from: int) -> Option<int>
    decreases s.len() - from,
{
    if from < 0 || from >= s.len() {
        None
    } else if amount_match_at(s, from) {
        Some(from)
    } else {
        first_amount_match(s, from + 1)
    }
}

/// Value of the numeral body `t`, read left to right from `acc`,
/// commas skipped.
pub open spec fn amount_val(t: Seq<char>, acc: nat) -> nat
    decreases t.len(),
{
    if t.len() == 0 {
        acc
    } else if t[0] == ',' {
        amount_val(t.drop_first(), acc)
    } else {
        amount_val(t.drop_first(), acc * 10 + (t[0] as int - 48) as nat)
    }
}

proof fn lemma_amount_val_lower(t: Seq<char>, acc: nat)
    ensures
        amount_val(t, acc) >= acc,
    decreases t.len(),
{
    if t.len() == 0 {
    } else if t[0] == ',' {
        lemma_amount_val_lower(t.drop_first(), acc);
    } else {
        lemma_amount_val_lower(t.drop_first(), acc * 10 + (t[0] as int - 48) as nat);
    }
}

/// The amount carried by a cleaned line: the value of the first
/// match, or nothing when the pattern never occurs.
pub open spec fn line_amount(s: Seq<char>) -> Option<nat> {
    match first_amount_match(s, 0) {
        Some(i) => Some(amount_val(s.subrange(i, body_end(s, i)), 0)),
        None => None,
    }
}

/// What one cleaned line adds to the running total: a value beyond
/// the 64-bit range, like a missing match, adds nothing.
pub open spec fn line_added(s: Seq<char>) -> u64 {
    match line_amount(s) {
        Some(v) => if v <= u64::MAX {
            v as u64
        } else {
            0
        },
        None => 0,
    }
}

/// Scans the numeral body beginning at `i`; returns its end and its
/// comma count.
fn scan_body(line: &str, i: usize) -> (r: (usize, usize))
    requires
        i <= line@.len(),
    ensures
        r.0 == body_end(line@, i as int),
        i <= r.0 <= line@.len(),
        r.1 == commas_between(line@, i as int, r.0 as int),
{
    let n = line.unicode_len();
    let mut k: usize = i;
    let mut commas: usize = 0;
    loop
        invariant_except_break
            i <= k <= n,
            n == line@.len(),
            body_end(line@, i as int) == body_end(line@, k as int),
            commas == commas_between(line@, i as int, k as int),
            commas <= k - i,
        ensures
            i <= k <= n,
            n == line@.len(),
            body_end(line@, i as int) == k as int,
            commas == commas_between(line@, i as int, k as int),
        decreases n - k,
    {
        if k == n {
            break;
        }
        let c = line.get_char(k);
        if !(digit_check(c) || c == ',') {
            break;
        }
        if c == ',' {
            commas = commas + 1;
        }
        k = k + 1;
    }
    (k, commas)
}

/// Reads the value of the body `[i, e)`; `None` when it exceeds the
/// 64-bit range.
fn amount_value(line: &str, i: usize, e: usize) -> (r: Option<u64>)
    requires
        i <= e <= line@.len(),
        forall|k: int| i <= k < e ==> is_amount_char(line@[k]),
    ensures
        ({
            let v = amount_val(line@.subrange(i as int, e as int), 0);
            if v <= u64::MAX {
                r == Some(v as u64)
            } else {
                r is None
            }
        }),
{
    let mut val: u64 = 0;
    let mut k: usize = i;
    while k < e
        invariant
            i <= k <= e <= line@.len(),
            forall|t: int| i <= t < e ==> is_amount_char(line@[t]),
            amount_val(line@.subrange(i as int, e as int), 0) == amount_val(
                line@.subrange(k as int, e as int),
                val as nat,
            ),
        decreases e - k,
    {
        let c = line.get_char(k);
        proof {
            assert(line@.subrange(k as int, e as int)[0] == line@[k as int]);
            assert(line@.subrange(k as int, e as int).drop_first() =~= line@.subrange(
                k + 1,
                e as int,
            ));
        }
        if c == ',' {
            k = k + 1;
        } else {
            let d = (c as u32 - 48) as u64;
            proof {
                assert(is_digit_char(line@[k as int]));
            }
            if val > u64::MAX / 10 || (val == u64::MAX / 10 && d > u64::MAX % 10) {
                proof {
                    let next = val as nat * 10 + (line@[k as int] as int - 48) as nat;
                    assert(next > u64::MAX);
                    lemma_amount_val_lower(line@.subrange(k + 1, e as int), next);
                }
                return None;
            }
            val = val * 10 + d;
            k = k + 1;
        }
    }
    proof {
        assert(line@.subrange(e as int, e as int) =~= Seq::<char>::empty());
    }
    Some(val)
}

/// Does the pattern match at position `i`?
fn amount_match_check(line: &str, i: usize) -> (r: bool)
    requires
        i < line@.len(),
    ensures
        r == amount_match_at(line@, i as int),
{
    let n = line.unicode_len();
    if !digit_check(line.get_char(i)) {
        return false;
    }
    if i > 0 && word_check(line.get_char(i - 1)) {
        return false;
    }
    let (e, commas) = scan_body(line, i);
    if commas > 2 {
        return false;
    }
    if n - e < 4 {
        return false;
    }
    if line.get_char(e) != ' ' || line.get_char(e + 1) != 'I' || line.get_char(e + 2) != 'S'
        || line.get_char(e + 3) != 'K' {
        return false;
    }
    if e + 4 < n && word_check(line.get_char(e + 4)) {
        return false;
    }
    true
}

/// Extracts the first currency amount of a cleaned line, if one is
/// there and fits the 64-bit range.
pub fn extract_amount(line: &str) -> (r: Option<u64>)
    ensures
        ({
            match line_amount(line@) {
                Some(v) => if v <= u64::MAX {
                    r == Some(v as u64)
                } else {
                    r is None
                },
                None => r is None,
            }
        }),
        r == Some(line_added(line@)) || (r is None && line_added(line@) == 0),
{
    let n = line.unicode_len();
    let mut i: usize = 0;
    while i < n
        invariant
            0 <= i <= n,
            n == line@.len(),
            first_amount_match(line@, 0) == first_amount_match(line@, i as int),
        decreases n - i,
    {
        if amount_match_check(line, i) {
            let (e, _commas) = scan_body(line, i);
            proof {
                lemma_body_end(line@, i as int);
            }
            return amount_value(line, i, e);
        }
        i = i + 1;
    }
    None
}

} // verus!
