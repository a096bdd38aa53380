use rwc::counts::Counts;
use rwc::options::Options;

fn sample() -> Counts {
    let mut c = Counts::new();
    c.line_count = 1;
    c.word_count = 2;
    c.byte_count = 12;
    c.char_count = 12;
    c
}

#[test]
fn all_fields_in_fixed_order_with_filename_last() {
    let opt = Options::new(true, true, true, true, false);
    let line = sample().display("f.txt", &opt);
    assert_eq!(line.as_deref(), Some("1 2 12 12 f.txt\n"));
}

#[test]
fn stdin_marker_omits_the_filename() {
    let opt = Options::new(true, true, true, true, false);
    let line = sample().display("-", &opt);
    assert_eq!(line.as_deref(), Some("1 2 12 12\n"));
}

#[test]
fn only_selected_fields_appear() {
    let lines_only = Options::new(false, false, true, false, false);
    assert_eq!(sample().display("f", &lines_only).as_deref(), Some("1 f\n"));
    let bytes_only = Options::new(true, false, false, false, false);
    assert_eq!(sample().display("f", &bytes_only).as_deref(), Some("12 f\n"));
    let words_and_chars = Options::new(false, true, false, true, false);
    assert_eq!(sample().display("f", &words_and_chars).as_deref(), Some("2 12 f\n"));
}

#[test]
fn default_metrics_substitution_selects_lines_words_bytes() {
    let opt = Options::new(false, false, false, false, false);
    assert!(opt.show_lines && opt.show_words && opt.show_bytes);
    assert!(!opt.show_chars);
    assert!(opt.utf_required);
    assert_eq!(sample().display("f", &opt).as_deref(), Some("1 2 12 f\n"));
}

#[test]
fn explicit_flags_are_kept_verbatim() {
    let opt = Options::new(false, false, false, true, true);
    assert!(!opt.show_lines && !opt.show_words && !opt.show_bytes && opt.show_chars);
    assert!(opt.utf_required);
    assert!(opt.show_dirs);
}

#[test]
fn anything_but_bytes_means_some_non_byte_metric() {
    assert!(Options::new(true, false, true, false, false).anything_but_bytes());
    assert!(Options::new(false, true, false, false, false).anything_but_bytes());
    assert!(Options::new(true, false, false, true, false).anything_but_bytes());
    assert!(!Options::new(true, false, false, false, false).anything_but_bytes());
}

#[test]
fn zero_counts_format_as_zero_digits() {
    let opt = Options::new(false, false, false, false, false);
    let line = Counts::new().display("f", &opt);
    assert_eq!(line.as_deref(), Some("0 0 0 f\n"));
}

#[test]
fn multi_digit_numerals_format_in_order() {
    assert_eq!(rwc::numeral::decimal_string(0), "0");
    assert_eq!(rwc::numeral::decimal_string(7), "7");
    assert_eq!(rwc::numeral::decimal_string(120), "120");
    assert_eq!(rwc::numeral::decimal_string(1234567890), "1234567890");
}

#[test]
fn single_field_for_stdin_has_no_spaces() {
    let opt = Options::new(false, false, true, false, false);
    assert_eq!(sample().display("-", &opt).as_deref(), Some("1\n"));
}

#[test]
fn directory_marker_line_when_dirs_are_shown() {
    let mut c = Counts::new();
    c.is_a_directory = true;
    let opt = Options::new(true, true, true, true, true);
    assert_eq!(c.display("somedir", &opt).as_deref(), Some("dir somedir\n"));
}

#[test]
fn directory_is_silently_skipped_when_dirs_are_hidden() {
    let mut c = Counts::new();
    c.is_a_directory = true;
    let opt = Options::new(true, true, true, true, false);
    assert!(c.display("somedir", &opt).is_none());
}
