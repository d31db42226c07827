//! The tail loop's state machine.  Each pass first erases a total
//! line still on screen, then processes the newly read lines one by
//! one — strip markup, accumulate the line's amount, classify for
//! display — and closes by drawing the running total when the bounty
//! statistic is on.  The surrounding application reads, prints and
//! sleeps; every decision stands here.

use vstd::prelude::*;

use crate::amount::extract_amount;
use crate::amount::line_added;
use crate::config::bounty_stat_enabled;
use crate::config::stats_enable_bounty;
use crate::format::add_commas;
use crate::format::digits_of;
use crate::format::lemma_digits_of_digits;
use crate::format::u64_to_digits;
use crate::format::with_commas;
use crate::highlight::Category;
use crate::highlight::Highlight;
use crate::highlight::highlighted;
use crate::highlight::highlight_line;
use crate::markup::strip_markup;
use crate::markup::strip_markup_spec;

verus! {

/// Unsigned 64-bit wrap-around addition: the running total
/// accumulates exactly as the machine's unsigned addition does.
pub open spec fn wrap_add(a: u64, b: u64) -> u64 {
    vstd::wrapping::u64_specs::wrapping_add(a, b)
}

/// What the caller must do for one processed line.
pub struct LineOutput {
    /// Styled display of the cleaned line, when a keyword matched.
    pub display: Option<Highlight>,
    /// Cleaned line to append to the side output file; present
    /// exactly for the fallback keyword class.
    pub record: Option<String>,
}

/// The rendering of the running total at the end of a pass.
pub struct TotalDisplay {
    /// The total, digit-grouped: `1,234,567`.
    pub amount: String,
    /// The whole line: `Total Bounty: 1,234,567 ISK`.
    pub text: String,
}

/// The text of the total line for a given total.
pub open spec fn total_line_text(total: u64) -> Seq<char> {
    "Total Bounty: "@ + with_commas(digits_of(total as nat)) + " ISK"@
}

/// Ongoing monitoring state: the keyword configuration held
/// read-only, the running total, the byte cursor into the watched
/// file, and whether the total line is currently on screen.
pub struct Session {
    /// Keywords to highlight, in priority order.
    pub search_words: Vec<String>,
    /// Whether the bounty statistic was configured.
    pub bounty_enabled: bool,
    /// Running sum of the extracted amounts, wrapping at 64 bits.
    pub total_bounty: u64,
    /// A total line is on screen and must be erased next pass.
    pub total_displayed: bool,
    /// How far into the watched file reading has come, in bytes.
    pub cursor: u64,
}

impl Session {
    /// Opens a session over the configured keywords and statistics.
    pub fn new(search_words: Vec<String>, stats: &Vec<String>) -> (r: Session)
        ensures
            r.search_words == search_words,
            r.bounty_enabled == bounty_stat_enabled(stats.deep_view()),
            r.total_bounty == 0,
            r.total_displayed == false,
            r.cursor == 0,
    {
        let bounty_enabled = stats_enable_bounty(stats);
        Session { search_words, bounty_enabled, total_bounty: 0, total_displayed: false, cursor: 0 }
    }

    /// Opens a pass: says whether the previously drawn total line
    /// must be erased, and forgets it either way.
    pub fn begin_pass(&mut self) -> (erase: bool)
        ensures
            erase == old(self).total_displayed,
            final(self).total_displayed == false,
            final(self).search_words == old(self).search_words,
            final(self).bounty_enabled == old(self).bounty_enabled,
            final(self).total_bounty == old(self).total_bounty,
            final(self).cursor == old(self).cursor,
    {
        let erase = self.total_displayed;
        self.total_displayed = false;
        erase
    }

    /// One raw line: cleans it, adds its amount to the running
    /// total, and decides display and side-file recording.
    pub fn process_line(&mut self, raw: &str) -> (out: LineOutput)
        ensures
            final(self).total_bounty == wrap_add(
                old(self).total_bounty,
                line_added(strip_markup_spec(raw@)),
            ),
            highlighted(strip_markup_spec(raw@), old(self).search_words.deep_view(), out.display),
            out.record is Some <==> (out.display is Some && out.display->Some_0.category
                == Category::Fallback),
            out.record is Some ==> out.record->Some_0@ == strip_markup_spec(raw@),
            final(self).search_words == old(self).search_words,
            final(self).bounty_enabled == old(self).bounty_enabled,
            final(self).total_displayed == old(self).total_displayed,
            final(self).cursor == old(self).cursor,
    {
        let cleaned = strip_markup(raw);
        match extract_amount(cleaned.as_str()) {
            Some(v) => {
                self.total_bounty = self.total_bounty.wrapping_add(v);
            },
            None => {},
        }
        let display = highlight_line(cleaned.as_str(), &self.search_words);
        let record = match &display {
            Some(h) => if h.category == Category::Fallback {
                Some(cleaned.clone())
            } else {
                None
            },
            None => None,
        };
        LineOutput { display, record }
    }

    /// Closes a pass: when the bounty statistic is on and the total
    /// is not already on screen, yields the total's rendering and
    /// remembers that it is now drawn.
    pub fn finish_pass(&mut self) -> (r: Option<TotalDisplay>)
        ensures
            old(self).bounty_enabled && !old(self).total_displayed ==> {
                &&& r is Some
                &&& r->Some_0.amount@ == with_commas(digits_of(old(self).total_bounty as nat))
                &&& r->Some_0.text@ == total_line_text(old(self).total_bounty)
                &&& final(self).total_displayed == true
            },
            !(old(self).bounty_enabled && !old(self).total_displayed) ==> r is None
                && final(self).total_displayed == old(self).total_displayed,
            final(self).search_words == old(self).search_words,
            final(self).bounty_enabled == old(self).bounty_enabled,
            final(self).total_bounty == old(self).total_bounty,
            final(self).cursor == old(self).cursor,
    {
        if self.bounty_enabled && !self.total_displayed {
            proof {
                lemma_digits_of_digits(self.total_bounty as nat);
            }
            let digits = u64_to_digits(self.total_bounty);
            let amount = add_commas(digits.as_str());
            let mut text = String::from_str("Total Bounty: ");
            text.append(amount.as_str());
            text.append(" ISK");
            self.total_displayed = true;
            Some(TotalDisplay { amount, text })
        } else {
            None
        }
    }

    /// Moves the read cursor forward by the bytes just consumed; it
    /// never moves backwards, and pins at the top of its range.
    pub fn advance_cursor(&mut self, n: u64)
        ensures
            final(self).cursor == if old(self).cursor + n <= u64::MAX {
                (old(self).cursor + n) as u64
            } else {
                u64::MAX
            },
            old(self).cursor <= final(self).cursor,
            final(self).search_words == old(self).search_words,
            final(self).bounty_enabled == old(self).bounty_enabled,
            final(self).total_bounty == old(self).total_bounty,
            final(self).total_displayed == old(self).total_displayed,
    {
        if n <= u64::MAX - self.cursor {
            self.cursor = self.cursor + n;
        } else {
            self.cursor = u64::MAX;
        }
    }
}

/// Accumulation is order-independent: two cleaned lines raise the
/// total to the same value whichever is processed first.
pub proof fn lemma_accumulation_order_independent(total: u64, l1: Seq<char>, l2: Seq<char>)
    ensures
        wrap_add(wrap_add(total, line_added(l1)), line_added(l2)) == wrap_add(
            wrap_add(total, line_added(l2)),
            line_added(l1),
        ),
{
}

} // verus!
