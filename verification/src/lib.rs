//! Counting of lines, words, bytes, and characters over byte streams,
//! together with the pure decision logic of a concurrent counting pipeline:
//! classifying user patterns, choosing a scan strategy per path, and
//! formatting one result line per file.

pub mod counter;
pub mod counts;
pub mod numeral;
pub mod options;
pub mod pattern;
pub mod scan;
