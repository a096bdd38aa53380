use vstd::prelude::*;
use vstd::utf8::{decode_utf8, valid_utf8};
use crate::counts::Counts;
use crate::options::Options;
use crate::scan::{
    newline_count, newline_count_bytes, scan_bytes_chunk, scan_text_chunk, utf8_len,
    words_completed,
};

verus! {

/// The characters that lossy UTF-8 decoding yields for a byte sequence:
/// every well-formed sequence decodes to its characters, and each
/// malformed sequence is replaced by one replacement character instead of
/// failing. The decoding depends on the bytes alone.
pub uninterp spec fn lossy_utf8_of(bytes: Seq<u8>) -> Seq<char>;

/// Relies on utf8::BufReadDecoder::read_to_string_lossy for lossy UTF-8
/// decoding: on well-formed input it decodes exactly, each decoded
/// character consumes at least one input byte, and reading from an
/// in-memory byte slice cannot fail (the error arm is unreachable).
#[verifier::external_body]
fn decode_lossy(bytes: &[u8]) -> (r: Vec<char>)
    ensures
        r@ == lossy_utf8_of(bytes@),
        valid_utf8(bytes@) ==> r@ == decode_utf8(bytes@),
        r@.len() <= bytes@.len(),
{
    match utf8::BufReadDecoder::read_to_string_lossy(bytes) {
        Ok(s) => s.chars().collect(),
        Err(_) => Vec::new(),
    }
}

/// Counts one path's whole content held in memory, choosing the scan
/// algorithm the way one counting task does: the text-oriented scan when
/// words or characters are requested, the byte-oriented scan otherwise.
/// The text-oriented scan never fails on malformed UTF-8; it counts the
/// replacement characters the lossy decoding substituted.
pub fn count_content(bytes: &[u8], opt: &Options) -> (r: Counts)
    requires
        opt.wf(),
        4 * bytes@.len() <= usize::MAX,
    ensures
        !r.is_a_directory,
        opt.utf_required ==> {
            let s = lossy_utf8_of(bytes@);
            &&& r.char_count == s.len()
            &&& r.byte_count == utf8_len(s)
            &&& r.line_count == if opt.show_lines {
                newline_count(s) as int
            } else {
                0
            }
            &&& r.word_count == if opt.show_words {
                words_completed(s, false) as int
            } else {
                0
            }
        },
        !opt.utf_required ==> {
            &&& r.byte_count == bytes@.len()
            &&& r.line_count == if opt.show_lines {
                newline_count_bytes(bytes@) as int
            } else {
                0
            }
            &&& r.char_count == 0
            &&& r.word_count == 0
        },
        opt.utf_required && valid_utf8(bytes@) ==> r.byte_count == bytes@.len(),
        bytes@.len() == 0 ==> r.byte_count == 0 && r.line_count == 0 && r.word_count == 0
            && r.char_count == 0,
{
    let mut counts = Counts::new();
    if opt.utf_required {
        let chars = decode_lossy(bytes);
        let mut in_word = false;
        scan_text_chunk(&mut counts, &mut in_word, &chars, opt);
        proof {
            if valid_utf8(bytes@) {
                crate::scan::lemma_utf8_len_of_decoding(bytes@);
            }
        }
    } else {
        scan_bytes_chunk(&mut counts, bytes, opt);
    }
    counts
}

/// What one counting task does with a path token, decided from the
/// configuration and from what kind of filesystem entry the token names.
#[derive(Clone, Copy, Debug, PartialEq, Eq, Structural)]
pub enum ScanPlan {
    /// The token names something other than a regular file: report a
    /// directory record, all counts zero, without reading any content.
    DirectoryMark,
    /// Only the byte count is requested for a named regular file: take
    /// the filesystem-reported size and never read the content.
    FastBytes,
    /// Stream the content through the text-oriented scan.
    TextScan,
    /// Stream the content through the byte-oriented scan.
    ByteScan,
}

/// Chooses the scan strategy for one path token. The fast byte-count
/// path applies only to a named regular file when byte counting is
/// requested with no line, word, or character counts; standard input is
/// always streamed.
pub fn plan_count(is_stdin: bool, is_regular_file: bool, opt: &Options) -> (p: ScanPlan)
    requires
        opt.wf(),
    ensures
        (p is DirectoryMark) == (!is_stdin && !is_regular_file),
        (p is FastBytes) == (!is_stdin && is_regular_file && opt.show_bytes && !opt.show_lines
            && !opt.show_words && !opt.show_chars),
        (p is TextScan) == ((is_stdin || is_regular_file) && opt.utf_required && !(!is_stdin
            && is_regular_file && opt.show_bytes && !opt.show_lines && !opt.show_words
            && !opt.show_chars)),
        (p is ByteScan) == ((is_stdin || is_regular_file) && !opt.utf_required && !(!is_stdin
            && is_regular_file && opt.show_bytes && !opt.show_lines && !opt.show_words
            && !opt.show_chars)),
{
    if !is_stdin && !is_regular_file {
        ScanPlan::DirectoryMark
    } else if !is_stdin && opt.show_bytes && !opt.anything_but_bytes() {
        ScanPlan::FastBytes
    } else if opt.utf_required {
        ScanPlan::TextScan
    } else {
        ScanPlan::ByteScan
    }
}

/// The record for the fast byte-count path: the byte count is the
/// filesystem-reported size and the content is never read, so every
/// other count stays zero.
pub fn fast_file_counts(file_size: usize) -> (r: Counts)
    ensures
        r.byte_count == file_size,
        r.line_count == 0,
        r.word_count == 0,
        r.char_count == 0,
        !r.is_a_directory,
{
    let mut counts = Counts::new();
    counts.byte_count = file_size;
    counts
}

/// The record for a token that names something other than a regular
/// file: marked as a directory, all counts zero, no content read.
pub fn directory_counts() -> (r: Counts)
    ensures
        r.is_a_directory,
        r.byte_count == 0,
        r.line_count == 0,
        r.word_count == 0,
        r.char_count == 0,
{
    let mut counts = Counts::new();
    counts.is_a_directory = true;
    counts
}

} // verus!
