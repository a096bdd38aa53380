use rwc::counter::{count_content, directory_counts, fast_file_counts, plan_count, ScanPlan};
use rwc::counts::Counts;
use rwc::options::Options;
use rwc::scan::{scan_bytes_chunk, scan_text_chunk};

fn all_metrics() -> Options {
    Options::new(true, true, true, true, false)
}

fn bytes_and_lines() -> Options {
    Options::new(true, false, true, false, false)
}

fn bytes_only() -> Options {
    Options::new(true, false, false, false, false)
}

#[test]
fn hello_world_all_metrics() {
    let counts = count_content(b"hello world\n", &all_metrics());
    assert_eq!(counts.line_count, 1);
    assert_eq!(counts.word_count, 2);
    assert_eq!(counts.byte_count, 12);
    assert_eq!(counts.char_count, 12);
    assert!(!counts.is_a_directory);
}

#[test]
fn empty_input_all_counts_zero() {
    let option_sets = vec![
        all_metrics(),
        bytes_and_lines(),
        bytes_only(),
        Options::new(false, false, false, false, false),
        Options::new(false, true, false, true, true),
    ];
    for opt in option_sets {
        let counts = count_content(b"", &opt);
        assert_eq!(counts.line_count, 0);
        assert_eq!(counts.word_count, 0);
        assert_eq!(counts.byte_count, 0);
        assert_eq!(counts.char_count, 0);
    }
}

#[test]
fn trailing_word_is_undercounted() {
    let counts = count_content(b"hello world", &all_metrics());
    assert_eq!(counts.word_count, 1);
    let terminated = count_content(b"hello world\n", &all_metrics());
    assert_eq!(terminated.word_count, 2);
}

#[test]
fn newline_terminated_content_counts_lines_under_both_scans() {
    let text_scan = count_content(b"one\ntwo\n", &all_metrics());
    assert_eq!(text_scan.line_count, 2);
    let byte_scan = count_content(b"one\ntwo\n", &bytes_and_lines());
    assert_eq!(byte_scan.line_count, 2);
    assert_eq!(byte_scan.byte_count, 8);
    assert_eq!(byte_scan.char_count, 0);
    assert_eq!(byte_scan.word_count, 0);
}

#[test]
fn malformed_utf8_is_replaced_not_fatal() {
    let input: [u8; 3] = [b'h', 0xff, b'\n'];
    let counts = count_content(&input, &all_metrics());
    assert_eq!(counts.char_count, 3);
    assert_eq!(counts.line_count, 1);
    // the replacement character re-encodes as three bytes, so the total
    // diverges from the raw length of the input
    assert_eq!(counts.byte_count, 5);
}

#[test]
fn lone_continuation_bytes_each_become_one_replacement() {
    let input: [u8; 2] = [0x80, 0x80];
    let counts = count_content(&input, &all_metrics());
    assert_eq!(counts.char_count, 2);
    assert_eq!(counts.byte_count, 6);
    assert_eq!(counts.word_count, 0);
    assert_eq!(counts.line_count, 0);
}

#[test]
fn well_formed_utf8_byte_count_matches_true_length() {
    let input = "h\u{e9}llo".as_bytes();
    assert_eq!(input.len(), 6);
    let counts = count_content(input, &all_metrics());
    assert_eq!(counts.byte_count, 6);
    assert_eq!(counts.char_count, 5);
}

#[test]
fn byte_scan_is_indifferent_to_malformed_utf8() {
    let input: [u8; 4] = [0xff, 0xfe, b'\n', 0x80];
    let counts = count_content(&input, &bytes_and_lines());
    assert_eq!(counts.byte_count, 4);
    assert_eq!(counts.line_count, 1);
}

#[test]
fn multibyte_whitespace_does_not_split_words() {
    // U+00A0 no-break space is not ASCII whitespace
    let counts = count_content("a\u{a0}b c\n".as_bytes(), &all_metrics());
    assert_eq!(counts.word_count, 2);
}

#[test]
fn fast_path_is_chosen_only_for_named_files_counting_bytes_alone() {
    assert_eq!(plan_count(false, true, &bytes_only()), ScanPlan::FastBytes);
    assert_eq!(plan_count(true, false, &bytes_only()), ScanPlan::ByteScan);
    assert_eq!(plan_count(false, true, &bytes_and_lines()), ScanPlan::ByteScan);
    assert_eq!(plan_count(false, true, &all_metrics()), ScanPlan::TextScan);
    assert_eq!(plan_count(false, false, &all_metrics()), ScanPlan::DirectoryMark);
    let chars_only = Options::new(true, false, false, true, false);
    assert_eq!(plan_count(false, true, &chars_only), ScanPlan::TextScan);
}

#[test]
fn fast_path_takes_the_reported_file_size() {
    let counts = fast_file_counts(12345);
    assert_eq!(counts.byte_count, 12345);
    assert_eq!(counts.line_count, 0);
    assert_eq!(counts.word_count, 0);
    assert_eq!(counts.char_count, 0);
    assert!(!counts.is_a_directory);
}

#[test]
fn directory_record_is_marked_and_zeroed() {
    let counts = directory_counts();
    assert!(counts.is_a_directory);
    assert_eq!(counts.byte_count, 0);
    assert_eq!(counts.line_count, 0);
    assert_eq!(counts.word_count, 0);
    assert_eq!(counts.char_count, 0);
}

#[test]
fn byte_chunks_accumulate() {
    let opt = bytes_and_lines();
    let mut counts = Counts::new();
    scan_bytes_chunk(&mut counts, b"one\ntw", &opt);
    scan_bytes_chunk(&mut counts, b"o\n", &opt);
    assert_eq!(counts.byte_count, 8);
    assert_eq!(counts.line_count, 2);
}

#[test]
fn word_state_carries_across_text_chunks() {
    let opt = all_metrics();
    let mut counts = Counts::new();
    let mut in_word = false;
    let first: Vec<char> = "hello wo".chars().collect();
    let second: Vec<char> = "rld".chars().collect();
    scan_text_chunk(&mut counts, &mut in_word, &first, &opt);
    assert_eq!(counts.word_count, 1);
    assert!(in_word);
    scan_text_chunk(&mut counts, &mut in_word, &second, &opt);
    assert_eq!(counts.word_count, 1);
    assert_eq!(counts.char_count, 11);
    assert_eq!(counts.byte_count, 11);
    assert!(in_word);
}
