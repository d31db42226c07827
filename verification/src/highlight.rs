//! Keyword classification and line splitting for styled display.
//! Keywords are scanned in configured order; the first one found as a
//! literal substring wins, and the line splits around its first
//! occurrence.  The keyword's identity — compared without regard to
//! ASCII case or one pair of surrounding parentheses — picks one of
//! five canonical classes, each with a fixed highlight color; any
//! other keyword falls back to the neutral class, whose lines are
//! also recorded in the side output file.

use vstd::prelude::*;

use crate::text::lower;
use crate::text::contains_sub;
use crate::text::find_sub_spec;
use crate::text::find_substring;
use crate::text::str_eq_lower;
use crate::text::lemma_find_sub_spec;

verus! {

/// The five canonical keyword classes and the fallback.
#[derive(Clone, Copy, Debug, PartialEq, Eq, Structural)]
pub enum Category {
    Hint,
    Combat,
    Notify,
    Bounty,
    NoneKeyword,
    Fallback,
}

/// Palette roles used for highlighting.
#[derive(Clone, Copy, Debug, PartialEq, Eq, Structural)]
pub enum Color {
    Cyan,
    Yellow,
    Red,
    Violet,
    Green,
    Blue,
}

/// The fixed color of each keyword class.
pub open spec fn category_color(c: Category) -> Color {
    match c {
        Category::Hint => Color::Yellow,
        Category::Combat => Color::Red,
        Category::Notify => Color::Violet,
        Category::Bounty => Color::Green,
        Category::NoneKeyword => Color::Blue,
        Category::Fallback => Color::Cyan,
    }
}

impl Category {
    /// The color this class is rendered in.
    pub fn color(&self) -> (r: Color)
        ensures
            r == category_color(*self),
    {
        match self {
            Category::Hint => Color::Yellow,
            Category::Combat => Color::Red,
            Category::Notify => Color::Violet,
            Category::Bounty => Color::Green,
            Category::NoneKeyword => Color::Blue,
            Category::Fallback => Color::Cyan,
        }
    }
}

/// Canonical form of a keyword: one pair of surrounding parentheses
/// dropped, ASCII letters lowercased.
pub open spec fn canon_keyword(k: Seq<char>) -> Seq<char> {
    if k.len() >= 2 && k[0] == '(' && k[k.len() - 1] == ')' {
        lower(k.subrange(1, k.len() - 1))
    } else {
        lower(k)
    }
}

/// The class a configured keyword belongs to.
pub open spec fn keyword_category(k: Seq<char>) -> Category {
    let c = canon_keyword(k);
    if c == "hint"@ {
        Category::Hint
    } else if c == "combat"@ {
        Category::Combat
    } else if c == "notify"@ {
        Category::Notify
    } else if c == "bounty"@ {
        Category::Bounty
    } else if c == "none"@ {
        Category::NoneKeyword
    } else {
        Category::Fallback
    }
}

proof fn lemma_canon_literals()
    ensures
        lower("hint"@) == "hint"@,
        lower("combat"@) == "combat"@,
        lower("notify"@) == "notify"@,
        lower("bounty"@) == "bounty"@,
        lower("none"@) == "none"@,
{
    reveal_strlit("hint");
    reveal_strlit("combat");
    reveal_strlit("notify");
    reveal_strlit("bounty");
    reveal_strlit("none");
    assert(lower("hint"@) =~= "hint"@);
    assert(lower("combat"@) =~= "combat"@);
    assert(lower("notify"@) =~= "notify"@);
    assert(lower("bounty"@) =~= "bounty"@);
    assert(lower("none"@) =~= "none"@);
}

/// Classifies a configured keyword.
pub fn classify_keyword(k: &str) -> (r: Category)
    ensures
        r == keyword_category(k@),
{
    proof {
        lemma_canon_literals();
    }
    let n = k.unicode_len();
    let base = if n >= 2 && k.get_char(0) == '(' && k.get_char(n - 1) == ')' {
        k.substring_char(1, n - 1)
    } else {
        k
    };
    proof {
        assert(canon_keyword(k@) == lower(base@));
    }
    if str_eq_lower(base, "hint") {
        Category::Hint
    } else if str_eq_lower(base, "combat") {
        Category::Combat
    } else if str_eq_lower(base, "notify") {
        Category::Notify
    } else if str_eq_lower(base, "bounty") {
        Category::Bounty
    } else if str_eq_lower(base, "none") {
        Category::NoneKeyword
    } else {
        Category::Fallback
    }
}

/// Index of the first configured keyword, at or after `w`, that
/// occurs in the line.
pub open spec fn first_keyword_index(line: Seq<char>, words: Seq<Seq<char>>, w: int) -> Option<
    int,
>
    decreases words.len() - w,
{
    if w < 0 || w >= words.len() {
        None
    } else if contains_sub(line, words[w]) {
        Some(w)
    } else {
        first_keyword_index(line, words, w + 1)
    }
}

/// One line split for display: the matched keyword, the text on
/// either side, and the class fixing its color.
#[derive(Debug)]
pub struct Highlight {
    pub before: String,
    pub keyword: String,
    pub after: String,
    pub category: Category,
}

/// `r` is the right highlight of `line` under the configured words
/// `ws`: nothing when no word occurs in the line; otherwise the
/// split of the line around the first occurrence of the first
/// matching word, classified by that word's identity.
pub open spec fn highlighted(line: Seq<char>, ws: Seq<Seq<char>>, r: Option<Highlight>) -> bool {
    match first_keyword_index(line, ws, 0) {
        Some(w) => match r {
            Some(h) => {
                let pos = find_sub_spec(line, ws[w], 0)->Some_0;
                &&& h.keyword@ == ws[w]
                &&& h.before@ == line.take(pos)
                &&& h.after@ == line.skip(pos + ws[w].len())
                &&& h.before@ + h.keyword@ + h.after@ == line
                &&& h.category == keyword_category(ws[w])
            },
            None => false,
        },
        None => r is None,
    }
}

/// Splits the line at the first occurrence of the first matching
/// configured keyword, if any keyword matches at all.
pub fn highlight_line(line: &str, words: &Vec<String>) -> (r: Option<Highlight>)
    ensures
        highlighted(line@, words.deep_view(), r),
{
    let ghost ws = words.deep_view();
    let mut w: usize = 0;
    while w < words.len()
        invariant
            0 <= w <= words.len(),
            ws == words.deep_view(),
            first_keyword_index(line@, ws, 0) == first_keyword_index(line@, ws, w as int),
        decreases words.len() - w,
    {
        let word = &words[w];
        proof {
            assert(ws[w as int] == word@);
        }
        match find_substring(line, word.as_str()) {
            Some(pos) => {
                proof {
                    lemma_find_sub_spec(line@, word@, 0);
                }
                let n = line.unicode_len();
                let m = word.as_str().unicode_len();
                let before = line.substring_char(0, pos);
                let after = line.substring_char(pos + m, n);
                let cat = classify_keyword(word.as_str());
                let h = Highlight {
                    before: String::from_str(before),
                    keyword: word.clone(),
                    after: String::from_str(after),
                    category: cat,
                };
                proof {
                    assert(h.before@ + h.keyword@ + h.after@ =~= line@);
                }
                return Some(h);
            },
            None => {
                w = w + 1;
            },
        }
    }
    None
}

} // verus!
