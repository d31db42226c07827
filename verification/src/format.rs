//! Decimal rendering of the running total: a number becomes its
//! digit string, and a digit string gains a comma before each group
//! of three counted from the right.

use vstd::prelude::*;

use crate::text::is_digit_char;

verus! {

/// Digit character for a value `0..=9`.
pub open spec fn digit_char(d: int) -> char {
    ((48 + d) as u32) as char
}

/// Decimal digit string of `n`, most significant digit first.
pub open spec fn digits_of(n: nat) -> Seq<char>
    decreases n,
{
    if n < 10 {
        seq![digit_char(n as int)]
    } else {
        digits_of(n / 10) + seq![digit_char((n % 10) as int)]
    }
}

/// `s` with a comma before each group of three, from the right.
pub open spec fn with_commas(s: Seq<char>) -> Seq<char>
    decreases s.len(),
{
    if s.len() <= 3 {
        s
    } else {
        with_commas(s.take(s.len() - 3)) + seq![','] + s.skip(s.len() - 3)
    }
}

/// A rendered number consists of digit characters alone.
pub proof fn lemma_digits_of_digits(n: nat)
    ensures
        forall|k: int| 0 <= k < digits_of(n).len() ==> is_digit_char(digits_of(n)[k]),
    decreases n,
{
    if n < 10 {
        assert(is_digit_char(digit_char(n as int)));
    } else {
        lemma_digits_of_digits(n / 10);
        assert(is_digit_char(digit_char((n % 10) as int)));
        assert(forall|k: int|
            0 <= k < digits_of(n / 10).len() ==> digits_of(n)[k] == digits_of(n / 10)[k]);
    }
}

fn digit_str(d: u64) -> (r: &'static str)
    requires
        d < 10,
    ensures
        r@ == seq![digit_char(d as int)],
{
    proof {
        reveal_strlit("0");
        reveal_strlit("1");
        reveal_strlit("2");
        reveal_strlit("3");
        reveal_strlit("4");
        reveal_strlit("5");
        reveal_strlit("6");
        reveal_strlit("7");
        reveal_strlit("8");
        reveal_strlit("9");
    }
    let r = if d == 0 {
        "0"
    } else if d == 1 {
        "1"
    } else if d == 2 {
        "2"
    } else if d == 3 {
        "3"
    } else if d == 4 {
        "4"
    } else if d == 5 {
        "5"
    } else if d == 6 {
        "6"
    } else if d == 7 {
        "7"
    } else if d == 8 {
        "8"
    } else {
        "9"
    };
    proof {
        assert(r@ =~= seq![digit_char(d as int)]);
    }
    r
}

/// Digit string of `n`.
pub fn u64_to_digits(n: u64) -> (r: String)
    ensures
        r@ == digits_of(n as nat),
    decreases n,
{
    if n < 10 {
        String::from_str(digit_str(n))
    } else {
        let mut r = u64_to_digits(n / 10);
        r.append(digit_str(n % 10));
        r
    }
}

/// Groups a digit string by thousands: a comma lands before each
/// three-digit group counted from the right.
pub fn add_commas(s: &str) -> (r: String)
    requires
        forall|k: int| 0 <= k < s@.len() ==> is_digit_char(s@[k]),
    ensures
        r@ == with_commas(s@),
    decreases s@.len(),
{
    let n = s.unicode_len();
    if n <= 3 {
        String::from_str(s)
    } else {
        let head = s.substring_char(0, n - 3);
        let tail = s.substring_char(n - 3, n);
        proof {
            assert(head@ =~= s@.take(s@.len() - 3));
            assert(forall|k: int| 0 <= k < head@.len() ==> is_digit_char(head@[k]));
            reveal_strlit(",");
        }
        let mut r = add_commas(head);
        r.append(",");
        r.append(tail);
        proof {
            assert(r@ =~= with_commas(s@));
        }
        r
    }
}

} // verus!
