//! Session state machine, accumulation, configuration and log-file
//! discovery.

use evelog::config::pick_most_recent_log_file;
use evelog::config::Config;
use evelog::config::LogFile;
use evelog::highlight::Category;
use evelog::session::Session;

fn words(ws: &[&str]) -> Vec<String> {
    ws.iter().map(|w| w.to_string()).collect()
}

#[test]
fn accumulation_is_order_independent() {
    let stats = words(&["bounty"]);
    let l1 = "first 1,000 ISK";
    let l2 = "second 234 ISK";

    let mut a = Session::new(words(&[]), &stats);
    a.process_line(l1);
    a.process_line(l2);

    let mut b = Session::new(words(&[]), &stats);
    b.process_line(l2);
    b.process_line(l1);

    assert_eq!(a.total_bounty, 1234);
    assert_eq!(a.total_bounty, b.total_bounty);
}

#[test]
fn amountless_lines_leave_the_total_alone() {
    let mut s = Session::new(words(&[]), &words(&["bounty"]));
    s.process_line("nothing here");
    s.process_line("999999999999999999999 ISK");
    assert_eq!(s.total_bounty, 0);
}

#[test]
fn markup_is_stripped_before_matching() {
    let mut s = Session::new(words(&["npc"]), &words(&["bounty"]));
    let out = s.process_line("kill <b>500 ISK</b> npc<tag> now");
    assert_eq!(s.total_bounty, 500);
    let h = out.display.unwrap();
    assert_eq!(h.before.as_str(), "kill 500 ISK ");
    assert_eq!(h.after.as_str(), " now");
}

#[test]
fn fallback_keyword_is_recorded_to_the_side_file() {
    let mut s = Session::new(words(&["oddball"]), &words(&[]));
    let out = s.process_line("an oddball <x>appears");
    let h = out.display.as_ref().unwrap();
    assert_eq!(h.category, Category::Fallback);
    assert_eq!(out.record.as_deref(), Some("an oddball appears"));
}

#[test]
fn canonical_keywords_are_not_recorded() {
    let mut s = Session::new(words(&["hint"]), &words(&[]));
    let out = s.process_line("a hint appears");
    assert!(out.display.is_some());
    assert!(out.record.is_none());
}

#[test]
fn total_line_is_drawn_once_and_erased_next_pass() {
    let mut s = Session::new(words(&[]), &words(&["bounty"]));
    assert!(!s.begin_pass());
    s.process_line("loot 2,500 ISK");
    let total = s.finish_pass().unwrap();
    assert_eq!(total.amount.as_str(), "2,500");
    assert_eq!(total.text.as_str(), "Total Bounty: 2,500 ISK");
    // the next pass must erase the drawn line first
    assert!(s.begin_pass());
    let again = s.finish_pass().unwrap();
    assert_eq!(again.text.as_str(), "Total Bounty: 2,500 ISK");
}

#[test]
fn disabled_bounty_stat_draws_no_total() {
    let mut s = Session::new(words(&[]), &words(&["kills"]));
    assert!(!s.bounty_enabled);
    s.process_line("loot 2,500 ISK");
    assert!(s.finish_pass().is_none());
}

#[test]
fn parenthesised_bounty_stat_counts() {
    let s = Session::new(words(&[]), &words(&["(bounty)"]));
    assert!(s.bounty_enabled);
}

#[test]
fn cursor_only_moves_forward() {
    let mut s = Session::new(words(&[]), &words(&[]));
    s.advance_cursor(10);
    assert_eq!(s.cursor, 10);
    s.advance_cursor(0);
    assert_eq!(s.cursor, 10);
    s.advance_cursor(u64::MAX);
    assert_eq!(s.cursor, u64::MAX);
}

#[test]
fn end_to_end_bounty_scenario() {
    let config = Config {
        log_dir_path: "logs".to_string(),
        search_words: words(&["bounty"]),
        stats: words(&["bounty"]),
    };
    let mut s = Session::new(config.search_words, &config.stats);
    assert!(!s.begin_pass());

    let out1 = s.process_line("Pirate killed <npc> bounty 1,000 ISK");
    let h = out1.display.unwrap();
    assert_eq!(h.category, Category::Bounty);
    assert_eq!(h.before.as_str(), "Pirate killed  ");
    assert_eq!(h.keyword.as_str(), "bounty");
    assert_eq!(h.after.as_str(), " 1,000 ISK");

    let out2 = s.process_line("Nothing happened");
    assert!(out2.display.is_none());

    let total = s.finish_pass().unwrap();
    assert_eq!(total.text.as_str(), "Total Bounty: 1,000 ISK");
}

#[test]
fn most_recent_log_file_wins() {
    let files = vec![
        LogFile { name: "old.txt".to_string(), modified: 10 },
        LogFile { name: "notes.md".to_string(), modified: 99 },
        LogFile { name: "new.txt".to_string(), modified: 42 },
    ];
    assert_eq!(pick_most_recent_log_file(&files), Some(2));
}

#[test]
fn log_file_ties_break_to_the_earliest_entry() {
    let files = vec![
        LogFile { name: "a.txt".to_string(), modified: 7 },
        LogFile { name: "b.txt".to_string(), modified: 7 },
    ];
    assert_eq!(pick_most_recent_log_file(&files), Some(0));
}

#[test]
fn directory_without_logs_yields_nothing() {
    let files = vec![LogFile { name: "notes.md".to_string(), modified: 3 }];
    assert_eq!(pick_most_recent_log_file(&files), None);
    let bare = vec![LogFile { name: ".txt".to_string(), modified: 3 }];
    assert_eq!(pick_most_recent_log_file(&bare), None);
}
