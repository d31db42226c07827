//! Markup stripping: every complete `<...>` span — a `<` together
//! with the next `>` after it — is noise and is removed from a line
//! before any matching or amount extraction.  A `<` with no closing
//! `>` anywhere after it is ordinary text and stays.

use vstd::assert_by_contradiction;
use vstd::prelude::*;

use crate::text::find_char_spec;
use crate::text::lemma_find_char_spec;
use crate::text::find_char_at;

verus! {

/// What remains of `s` from index `i` on, once every complete
/// `<...>` span (shortest match) has been removed.
pub open spec fn strip_from(s: Seq<char>, i: int) -> Seq<char>
    decreases s.len() - i,
    via strip_from_decreases
{
    if i < 0 || i >= s.len() {
        Seq::empty()
    } else if s[i] == '<' && find_char_spec(s, '>', i + 1) is Some {
        strip_from(s, find_char_spec(s, '>', i + 1)->Some_0 + 1)
    } else {
        seq![s[i]] + strip_from(s, i + 1)
    }
}

#[via_fn]
proof fn strip_from_decreases(s: Seq<char>, i: int) {
    if 0 <= i < s.len() && s[i] == '<' && find_char_spec(s, '>', i + 1) is Some {
        lemma_find_char_spec(s, '>', i + 1);
    }
}

/// The cleaned form of a whole line.
pub open spec fn strip_markup_spec(s: Seq<char>) -> Seq<char> {
    strip_from(s, 0)
}

/// Total length of the spans removed from `s` from index `i` on.
pub open spec fn spans_len_from(s: Seq<char>, i: int) -> int
    decreases s.len() - i,
    via spans_len_from_decreases
{
    if i < 0 || i >= s.len() {
        0
    } else if s[i] == '<' && find_char_spec(s, '>', i + 1) is Some {
        let j = find_char_spec(s, '>', i + 1)->Some_0;
        (j + 1 - i) + spans_len_from(s, j + 1)
    } else {
        spans_len_from(s, i + 1)
    }
}

#[via_fn]
proof fn spans_len_from_decreases(s: Seq<char>, i: int) {
    if 0 <= i < s.len() && s[i] == '<' && find_char_spec(s, '>', i + 1) is Some {
        lemma_find_char_spec(s, '>', i + 1);
    }
}

/// Total length of the spans that stripping removes from `s`.
pub open spec fn spans_len(s: Seq<char>) -> int {
    spans_len_from(s, 0)
}

proof fn lemma_strip_len_from(s: Seq<char>, i: int)
    requires
        0 <= i <= s.len(),
    ensures
        strip_from(s, i).len() + spans_len_from(s, i) == s.len() - i,
    decreases s.len() - i,
{
    if i >= s.len() {
    } else if s[i] == '<' && find_char_spec(s, '>', i + 1) is Some {
        lemma_find_char_spec(s, '>', i + 1);
        let j = find_char_spec(s, '>', i + 1)->Some_0;
        lemma_strip_len_from(s, j + 1);
    } else {
        lemma_strip_len_from(s, i + 1);
    }
}

/// The cleaned line is shorter than the raw one by exactly the total
/// length of the removed spans; in particular a line with no
/// complete span keeps its length.
pub proof fn lemma_strip_markup_len(s: Seq<char>)
    ensures
        strip_markup_spec(s).len() + spans_len(s) == s.len(),
{
    lemma_strip_len_from(s, 0);
}

/// A complete span is still present: some `<` with a later `>`.
pub open spec fn has_span(s: Seq<char>) -> bool {
    exists|a: int, b: int| 0 <= a < b < s.len() && s[a] == '<' && s[b] == '>'
}

proof fn lemma_strip_identity_from(s: Seq<char>, i: int)
    requires
        0 <= i <= s.len(),
        !has_span(s),
    ensures
        strip_from(s, i) == s.skip(i),
    decreases s.len() - i,
{
    if i >= s.len() {
        assert(strip_from(s, i) =~= s.skip(i));
    } else {
        if s[i] == '<' && find_char_spec(s, '>', i + 1) is Some {
            lemma_find_char_spec(s, '>', i + 1);
            let j = find_char_spec(s, '>', i + 1)->Some_0;
            assert(0 <= i < j < s.len() && s[i] == '<' && s[j] == '>');
            assert(false);
        }
        lemma_strip_identity_from(s, i + 1);
        assert(strip_from(s, i) =~= s.skip(i));
    }
}

/// Text with no complete span left is not changed by stripping.
pub proof fn lemma_strip_markup_identity(s: Seq<char>)
    requires
        !has_span(s),
    ensures
        strip_markup_spec(s) == s,
{
    lemma_strip_identity_from(s, 0);
    assert(s.skip(0) =~= s);
}

proof fn lemma_strip_no_gt(s: Seq<char>, i: int)
    requires
        0 <= i <= s.len(),
        forall|k: int| i <= k < s.len() ==> s[k] != '>',
    ensures
        forall|k: int| 0 <= k < strip_from(s, i).len() ==> strip_from(s, i)[k] != '>',
    decreases s.len() - i,
{
    if i >= s.len() {
    } else {
        lemma_find_char_spec(s, '>', i + 1);
        lemma_strip_no_gt(s, i + 1);
        let t = strip_from(s, i);
        assert forall|k: int| 0 <= k < t.len() implies t[k] != '>' by {
            if k == 0 {
                assert(t[0] == s[i]);
            } else {
                assert(t[k] == strip_from(s, i + 1)[k - 1]);
            }
        }
    }
}

proof fn lemma_strip_no_span_from(s: Seq<char>, i: int)
    requires
        0 <= i <= s.len(),
    ensures
        !has_span(strip_from(s, i)),
    decreases s.len() - i,
{
    if i >= s.len() {
        assert_by_contradiction!(!has_span(strip_from(s, i)), {
            let (a, b) = choose|a: int, b: int|
                0 <= a < b < strip_from(s, i).len() && strip_from(s, i)[a] == '<'
                    && strip_from(s, i)[b] == '>';
        });
    } else if s[i] == '<' && find_char_spec(s, '>', i + 1) is Some {
        lemma_find_char_spec(s, '>', i + 1);
        let j = find_char_spec(s, '>', i + 1)->Some_0;
        lemma_strip_no_span_from(s, j + 1);
    } else {
        lemma_strip_no_span_from(s, i + 1);
        let t = strip_from(s, i);
        let rest = strip_from(s, i + 1);
        if s[i] == '<' {
            lemma_find_char_spec(s, '>', i + 1);
            lemma_strip_no_gt(s, i + 1);
        }
        assert_by_contradiction!(!has_span(t), {
            let (a, b) = choose|a: int, b: int|
                0 <= a < b < t.len() && t[a] == '<' && t[b] == '>';
            assert(t[b] == rest[b - 1]);
            if a == 0 {
                assert(t[0] == s[i]);
            } else {
                assert(t[a] == rest[a - 1]);
                assert(has_span(rest));
            }
        });
    }
}

/// Stripping is idempotent: a line already cleaned is left as it is.
pub proof fn lemma_strip_markup_idempotent(s: Seq<char>)
    ensures
        strip_markup_spec(strip_markup_spec(s)) == strip_markup_spec(s),
{
    lemma_strip_no_span_from(s, 0);
    lemma_strip_markup_identity(strip_markup_spec(s));
}

/// Removes every complete `<...>` span from `line`.
pub fn strip_markup(line: &str) -> (r: String)
    ensures
        r@ == strip_markup_spec(line@),
{
    let n = line.unicode_len();
    let mut out = String::new();
    let mut i: usize = 0;
    while i < n
        invariant
            0 <= i <= n,
            n == line@.len(),
            out@ + strip_from(line@, i as int) == strip_from(line@, 0),
        decreases n - i,
    {
        let c = line.get_char(i);
        if c == '<' {
            match find_char_at(line, '>', i + 1) {
                Some(j) => {
                    proof {
                        assert(out@ + strip_from(line@, j + 1) =~= out@ + strip_from(
                            line@,
                            i as int,
                        ));
                    }
                    i = j + 1;
                },
                None => {
                    let ghost out0 = out@;
                    let piece = line.substring_char(i, i + 1);
                    out.append(piece);
                    proof {
                        assert(piece@ =~= seq![line@[i as int]]);
                        assert(out@ + strip_from(line@, i + 1) =~= out0 + strip_from(
                            line@,
                            i as int,
                        ));
                    }
                    i = i + 1;
                },
            }
        } else {
            let ghost out0 = out@;
            let piece = line.substring_char(i, i + 1);
            out.append(piece);
            proof {
                assert(piece@ =~= seq![line@[i as int]]);
                assert(out@ + strip_from(line@, i + 1) =~= out0 + strip_from(line@, i as int));
            }
            i = i + 1;
        }
    }
    proof {
        assert(out@ + strip_from(line@, n as int) =~= out@);
    }
    out
}

} // verus!
