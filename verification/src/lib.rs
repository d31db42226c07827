//! Verified core of a log-watching utility.
//!
//! The library cleans raw log lines of bracketed markup, extracts
//! currency amounts ("1,234 ISK") and accumulates them, classifies
//! lines against an ordered keyword list for styled display, formats
//! running totals with thousands separators, and picks the most
//! recently modified log file from a directory listing.  All I/O —
//! reading the watched file, the terminal, the config file — lives in
//! the surrounding application, which feeds plain values in and
//! carries the returned display instructions out.

pub mod amount;
pub mod config;
pub mod format;
pub mod highlight;
pub mod markup;
pub mod session;
pub mod text;
