//! Configuration data and log-file discovery.  The surrounding
//! application parses the config file and lists the directory; the
//! decisions — which statistics are on, which directory entry is the
//! log to watch — are made here.

use vstd::prelude::*;

use crate::text::str_eq;

verus! {

/// The resolved configuration: where the logs sit, which keywords to
/// highlight (in priority order), and which named statistics to
/// keep.
pub struct Config {
    pub log_dir_path: String,
    pub search_words: Vec<String>,
    pub stats: Vec<String>,
}

/// The bounty statistic is on when `stats` names it, bare or in
/// parentheses.
pub open spec fn bounty_stat_enabled(stats: Seq<Seq<char>>) -> bool {
    exists|i: int|
        0 <= i < stats.len() && (stats[i] == "bounty"@ || stats[i] == "(bounty)"@)
}

/// Decides whether the configured statistics enable bounty
/// accumulation.
pub fn stats_enable_bounty(stats: &Vec<String>) -> (r: bool)
    ensures
        r == bounty_stat_enabled(stats.deep_view()),
{
    let ghost ss = stats.deep_view();
    let mut i: usize = 0;
    while i < stats.len()
        invariant
            0 <= i <= stats.len(),
            ss == stats.deep_view(),
            forall|k: int| 0 <= k < i ==> !(ss[k] == "bounty"@ || ss[k] == "(bounty)"@),
        decreases stats.len() - i,
    {
        let w = &stats[i];
        proof {
            assert(ss[i as int] == w@);
        }
        if str_eq(w.as_str(), "bounty") || str_eq(w.as_str(), "(bounty)") {
            return true;
        }
        i = i + 1;
    }
    false
}

/// One candidate entry of the watched directory: its file name and
/// its modification time, in any monotone unit such as seconds.
pub struct LogFile {
    pub name: String,
    pub modified: u64,
}

/// The name carries the log extension `.txt` (with a non-empty stem
/// in front of the dot).
pub open spec fn is_log_name(name: Seq<char>) -> bool {
    name.len() > 4 && name.subrange(name.len() - 4, name.len() as int) == ".txt"@
}

/// Does this file name carry the log extension?
pub fn is_log_file_name(name: &str) -> (r: bool)
    ensures
        r == is_log_name(name@),
{
    proof {
        reveal_strlit(".txt");
    }
    let n = name.unicode_len();
    if n <= 4 {
        return false;
    }
    let r = name.get_char(n - 4) == '.' && name.get_char(n - 3) == 't' && name.get_char(n - 2)
        == 'x' && name.get_char(n - 1) == 't';
    proof {
        if r {
            assert(name@.subrange(n - 4, n as int) =~= ".txt"@);
        } else {
            let t = name@.subrange(n - 4, n as int);
            assert(t[0] == name@[n - 4] && t[1] == name@[n - 3] && t[2] == name@[n - 2] && t[3]
                == name@[n - 1]);
        }
    }
    r
}

/// Picks the most recently modified `.txt` entry; among equally
/// recent ones, the earliest in the listing wins.  `None` when no
/// entry carries the extension.
pub fn pick_most_recent_log_file(files: &Vec<LogFile>) -> (r: Option<usize>)
    ensures
        match r {
            Some(i) => {
                &&& i < files@.len()
                &&& is_log_name(files@[i as int].name@)
                &&& forall|j: int|
                    0 <= j < files@.len() && is_log_name(files@[j].name@) ==> files@[j].modified
                        <= files@[i as int].modified
                &&& forall|j: int|
                    0 <= j < i && is_log_name(files@[j].name@) ==> files@[j].modified
                        < files@[i as int].modified
            },
            None => forall|j: int| 0 <= j < files@.len() ==> !is_log_name(files@[j].name@),
        },
{
    let mut best: Option<usize> = None;
    let mut i: usize = 0;
    while i < files.len()
        invariant
            0 <= i <= files@.len(),
            match best {
                Some(b) => {
                    &&& b < i
                    &&& is_log_name(files@[b as int].name@)
                    &&& forall|j: int|
                        0 <= j < i && is_log_name(files@[j].name@) ==> files@[j].modified
                            <= files@[b as int].modified
                    &&& forall|j: int|
                        0 <= j < b && is_log_name(files@[j].name@) ==> files@[j].modified
                            < files@[b as int].modified
                },
                None => forall|j: int| 0 <= j < i ==> !is_log_name(files@[j].name@),
            },
        decreases files@.len() - i,
    {
        let f = &files[i];
        if is_log_file_name(f.name.as_str()) {
            match best {
                Some(b) => {
                    let current = files[b].modified;
                    if f.modified > current {
                        best = Some(i);
                    }
                },
                None => {
                    best = Some(i);
                },
            }
        }
        i = i + 1;
    }
    best
}

} // verus!
