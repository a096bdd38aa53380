use vstd::prelude::*;
use vstd::utf8::{
    char_is_scalar, char_u32_cast, decode_first_scalar, decode_utf8, decode_utf8_first_scalar,
    encode_scalar, encode_utf8, has_width_1_encoding, has_width_2_encoding, has_width_3_encoding,
    last_continuation_byte, leading_byte_width_1, leading_byte_width_2, leading_byte_width_3,
    leading_byte_width_4, length_of_first_scalar, pop_first_scalar, second_last_continuation_byte,
    take_first_scalar, third_last_continuation_byte, valid_first_scalar, valid_utf8,
};
use crate::counts::Counts;
use crate::options::Options;

verus! {

/// ASCII whitespace, the only whitespace notion the word scanner uses:
/// space, horizontal tab, line feed, vertical tab, form feed, carriage
/// return. Multi-byte whitespace never separates words.
pub open spec fn is_ascii_ws(c: char) -> bool {
    c == ' ' || c == '\t' || c == '\n' || c == '\u{b}' || c == '\u{c}' || c == '\r'
}

/// Executable form of [`is_ascii_ws`].
pub fn char_is_ascii_ws(c: char) -> (r: bool)
    ensures
        r == is_ascii_ws(c),
{
    c == ' ' || c == '\t' || c == '\n' || c == '\u{b}' || c == '\u{c}' || c == '\r'
}

/// How many line-feed bytes a byte sequence holds.
pub open spec fn newline_count_bytes(s: Seq<u8>) -> nat
    decreases s.len(),
{
    if s.len() == 0 {
        0
    } else {
        newline_count_bytes(s.drop_last()) + if s.last() == 10u8 {
            1nat
        } else {
            0nat
        }
    }
}

/// How many line-feed characters a character sequence holds.
pub open spec fn newline_count(s: Seq<char>) -> nat
    decreases s.len(),
{
    if s.len() == 0 {
        0
    } else {
        newline_count(s.drop_last()) + if s.last() == '\n' {
            1nat
        } else {
            0nat
        }
    }
}

/// The length in bytes of one character's UTF-8 encoding.
pub open spec fn char_utf8_len(c: char) -> nat {
    encode_scalar(c as u32).len()
}

/// The length in bytes of a character sequence once re-encoded as UTF-8.
pub open spec fn utf8_len(s: Seq<char>) -> nat {
    encode_utf8(s).len()
}

/// The word-scanner state after reading a character sequence: whether the
/// scan stands inside a word, starting from state `init`.
pub open spec fn in_word_after(s: Seq<char>, init: bool) -> bool {
    if s.len() == 0 {
        init
    } else {
        !is_ascii_ws(s.last())
    }
}

/// How many words the two-state scanner completes over a character
/// sequence, starting from state `init`: the count fires exactly on the
/// transition from "inside a word" to whitespace, so a word still open
/// when the sequence ends is not counted.
pub open spec fn words_completed(s: Seq<char>, init: bool) -> nat
    decreases s.len(),
{
    if s.len() == 0 {
        0
    } else {
        words_completed(s.drop_last(), init) + if in_word_after(s.drop_last(), init)
            && is_ascii_ws(s.last()) {
            1nat
        } else {
            0nat
        }
    }
}

/// Computes the length of one character's UTF-8 encoding.
pub fn encoded_char_len(c: char) -> (l: usize)
    ensures
        l == char_utf8_len(c),
        1 <= l <= 4,
{
    proof {
        char_is_scalar(c);
    }
    let u = c as u32;
    if u < 0x80 {
        1
    } else if u < 0x800 {
        2
    } else if u < 0x10000 {
        3
    } else {
        4
    }
}

/// Re-encoding a character sequence extended by one character appends
/// that character's encoding.
pub proof fn lemma_encode_utf8_push(s: Seq<char>, c: char)
    ensures
        encode_utf8(s.push(c)) == encode_utf8(s) + encode_scalar(c as u32),
    decreases s.len(),
{
    if s.len() == 0 {
        reveal_with_fuel(encode_utf8, 2);
        assert(s.push(c)[0] == c);
        assert(s.push(c).drop_first() =~= Seq::<char>::empty());
        assert(encode_utf8(s.push(c)) =~= encode_utf8(s) + encode_scalar(c as u32));
    } else {
        assert(s.push(c)[0] == s[0]);
        assert(s.push(c).drop_first() =~= s.drop_first().push(c));
        lemma_encode_utf8_push(s.drop_first(), c);
        assert(encode_utf8(s.push(c)) =~= encode_utf8(s) + encode_scalar(c as u32));
    }
}

/// For well-formed UTF-8 input, the byte count gathered by the
/// text-oriented scan — the re-encoded length of the decoded characters —
/// equals the true byte length of the input.
pub proof fn lemma_utf8_len_of_decoding(bytes: Seq<u8>)
    requires
        valid_utf8(bytes),
    ensures
        utf8_len(decode_utf8(bytes)) == bytes.len(),
{
    vstd::utf8::decode_utf8_encode_utf8(bytes);
}

/// Byte-oriented scan of one chunk, used when neither words nor
/// characters are requested: every raw byte is counted, and when line
/// counting is on, each line-feed byte bumps the line count. No decoding
/// happens, so malformed UTF-8 is irrelevant here.
pub fn scan_bytes_chunk(counts: &mut Counts, buf: &[u8], opt: &Options)
    requires
        old(counts).byte_count + buf@.len() <= usize::MAX,
        old(counts).line_count + buf@.len() <= usize::MAX,
    ensures
        final(counts).byte_count == old(counts).byte_count + buf@.len(),
        final(counts).line_count == old(counts).line_count + if opt.show_lines {
            newline_count_bytes(buf@) as int
        } else {
            0
        },
        final(counts).word_count == old(counts).word_count,
        final(counts).char_count == old(counts).char_count,
        final(counts).is_a_directory == old(counts).is_a_directory,
{
    counts.byte_count = counts.byte_count + buf.len();
    if opt.show_lines {
        let n = buf.len();
        let mut i: usize = 0;
        while i < n
            invariant
                n == buf@.len(),
                0 <= i <= n,
                old(counts).byte_count + buf@.len() <= usize::MAX,
                old(counts).line_count + buf@.len() <= usize::MAX,
                counts.byte_count == old(counts).byte_count + buf@.len(),
                counts.line_count == old(counts).line_count + newline_count_bytes(
                    buf@.subrange(0, i as int),
                ),
                counts.line_count <= old(counts).line_count + i,
                counts.word_count == old(counts).word_count,
                counts.char_count == old(counts).char_count,
                counts.is_a_directory == old(counts).is_a_directory,
            decreases n - i,
        {
            let ghost prefix = buf@.subrange(0, i as int);
            if buf[i] == 10u8 {
                counts.line_count = counts.line_count + 1;
            }
            proof {
                let next = buf@.subrange(0, i as int + 1);
                assert(next.drop_last() =~= prefix);
                assert(next.last() == buf@[i as int]);
            }
            i = i + 1;
        }
        proof {
            assert(buf@.subrange(0, buf@.len() as int) =~= buf@);
        }
    }
}

/// Text-oriented scan of one chunk of already-decoded characters, used
/// when words or characters are requested. Every character is counted;
/// the byte count accumulates each character's re-encoded UTF-8 length
/// (for input that held malformed sequences this can diverge from the raw
/// byte length — an accepted, documented approximation); line and word
/// counts are taken only when requested, and the word-scanner state is
/// carried in `in_word` across chunks of the same stream.
pub fn scan_text_chunk(counts: &mut Counts, in_word: &mut bool, chars: &Vec<char>, opt: &Options)
    requires
        old(counts).char_count + chars@.len() <= usize::MAX,
        old(counts).byte_count + 4 * chars@.len() <= usize::MAX,
        old(counts).line_count + chars@.len() <= usize::MAX,
        old(counts).word_count + chars@.len() <= usize::MAX,
    ensures
        final(counts).char_count == old(counts).char_count + chars@.len(),
        final(counts).byte_count == old(counts).byte_count + utf8_len(chars@),
        final(counts).line_count == old(counts).line_count + if opt.show_lines {
            newline_count(chars@) as int
        } else {
            0
        },
        final(counts).word_count == old(counts).word_count + if opt.show_words {
            words_completed(chars@, *old(in_word)) as int
        } else {
            0
        },
        final(counts).is_a_directory == old(counts).is_a_directory,
        *final(in_word) == if opt.show_words {
            in_word_after(chars@, *old(in_word))
        } else {
            *old(in_word)
        },
{
    let n = chars.len();
    let mut i: usize = 0;
    proof {
        assert(chars@.subrange(0, 0) =~= Seq::<char>::empty());
    }
    while i < n
        invariant
            n == chars@.len(),
            0 <= i <= n,
            old(counts).char_count + chars@.len() <= usize::MAX,
            old(counts).byte_count + 4 * chars@.len() <= usize::MAX,
            old(counts).line_count + chars@.len() <= usize::MAX,
            old(counts).word_count + chars@.len() <= usize::MAX,
            counts.char_count == old(counts).char_count + i,
            counts.byte_count == old(counts).byte_count + utf8_len(chars@.subrange(0, i as int)),
            counts.byte_count <= old(counts).byte_count + 4 * i,
            counts.line_count == old(counts).line_count + if opt.show_lines {
                newline_count(chars@.subrange(0, i as int)) as int
            } else {
                0
            },
            counts.line_count <= old(counts).line_count + i,
            counts.word_count == old(counts).word_count + if opt.show_words {
                words_completed(chars@.subrange(0, i as int), *old(in_word)) as int
            } else {
                0
            },
            counts.word_count <= old(counts).word_count + i,
            counts.is_a_directory == old(counts).is_a_directory,
            *in_word == if opt.show_words {
                in_word_after(chars@.subrange(0, i as int), *old(in_word))
            } else {
                *old(in_word)
            },
        decreases n - i,
    {
        let ghost prefix = chars@.subrange(0, i as int);
        let c = chars[i];
        proof {
            let next = chars@.subrange(0, i as int + 1);
            assert(next.drop_last() =~= prefix);
            assert(next.last() == chars@[i as int]);
            assert(next =~= prefix.push(c));
            lemma_encode_utf8_push(prefix, c);
        }
        counts.char_count = counts.char_count + 1;
        let l = encoded_char_len(c);
        counts.byte_count = counts.byte_count + l;
        if opt.show_lines && c == '\n' {
            counts.line_count = counts.line_count + 1;
        }
        if opt.show_words {
            let is_whitespace = char_is_ascii_ws(c);
            if *in_word && is_whitespace {
                counts.word_count = counts.word_count + 1;
            }
            *in_word = !is_whitespace;
        }
        i = i + 1;
    }
    proof {
        assert(chars@.subrange(0, chars@.len() as int) =~= chars@);
    }
}

/// How many words a character sequence holds outright: the number of
/// maximal runs of non-whitespace characters.
pub open spec fn word_run_count(s: Seq<char>) -> nat
    decreases s.len(),
{
    if s.len() == 0 {
        0
    } else {
        word_run_count(s.drop_last()) + if !is_ascii_ws(s.last()) && (s.len() == 1 || is_ascii_ws(
            s[s.len() - 2],
        )) {
            1nat
        } else {
            0nat
        }
    }
}

/// The word scanner's running tally: the completed words plus the word
/// still open, if any, account for every word run seen so far.
proof fn lemma_word_tally(s: Seq<char>)
    ensures
        words_completed(s, false) + if in_word_after(s, false) {
            1nat
        } else {
            0nat
        } == word_run_count(s),
    decreases s.len(),
{
    if s.len() == 0 {
    } else {
        lemma_word_tally(s.drop_last());
        if s.len() >= 2 {
            assert(s.drop_last().last() == s[s.len() - 2]);
        }
    }
}

/// When content ends inside a word — no trailing whitespace after its
/// final word — the scanner undercounts that trailing word by exactly
/// one, because the count fires only on a word-to-whitespace transition.
pub proof fn lemma_trailing_word_undercount(s: Seq<char>)
    requires
        s.len() > 0,
        !is_ascii_ws(s.last()),
    ensures
        words_completed(s, false) + 1 == word_run_count(s),
{
    lemma_word_tally(s);
}

/// When content ends in whitespace, every word run has been completed
/// and the scanner's count is exact.
pub proof fn lemma_final_whitespace_exact_count(s: Seq<char>)
    requires
        s.len() == 0 || is_ascii_ws(s.last()),
    ensures
        words_completed(s, false) == word_run_count(s),
{
    lemma_word_tally(s);
}

/// Splitting a byte sequence splits its line-feed tally.
proof fn lemma_newline_count_bytes_concat(a: Seq<u8>, b: Seq<u8>)
    ensures
        newline_count_bytes(a + b) == newline_count_bytes(a) + newline_count_bytes(b),
    decreases b.len(),
{
    if b.len() == 0 {
        assert(a + b =~= a);
    } else {
        lemma_newline_count_bytes_concat(a, b.drop_last());
        assert((a + b).drop_last() =~= a + b.drop_last());
        assert((a + b).last() == b.last());
    }
}

/// Splitting a character sequence splits its line-feed tally.
proof fn lemma_newline_count_concat(a: Seq<char>, b: Seq<char>)
    ensures
        newline_count(a + b) == newline_count(a) + newline_count(b),
    decreases b.len(),
{
    if b.len() == 0 {
        assert(a + b =~= a);
    } else {
        lemma_newline_count_concat(a, b.drop_last());
        assert((a + b).drop_last() =~= a + b.drop_last());
        assert((a + b).last() == b.last());
    }
}

/// A byte sequence without line-feed bytes tallies zero lines.
proof fn lemma_newline_count_bytes_zero(s: Seq<u8>)
    requires
        forall|i: int| 0 <= i < s.len() ==> s[i] != 10u8,
    ensures
        newline_count_bytes(s) == 0,
    decreases s.len(),
{
    if s.len() == 0 {
    } else {
        lemma_newline_count_bytes_zero(s.drop_last());
    }
}

/// The line tallies of the two scan algorithms agree on well-formed
/// UTF-8 content: the byte-oriented scan's count of line-feed bytes
/// equals the text-oriented scan's count of line-feed characters in the
/// decoded stream. A line feed is encoded as the single byte `0x0a`, and
/// that byte never occurs inside a multi-byte encoding.
pub proof fn lemma_line_counts_agree(b: Seq<u8>)
    requires
        valid_utf8(b),
    ensures
        newline_count(decode_utf8(b)) == newline_count_bytes(b),
    decreases b.len(),
{
    if b.len() == 0 {
    } else {
        let k = length_of_first_scalar(b);
        let head = take_first_scalar(b);
        let tail = pop_first_scalar(b);
        let c = decode_first_scalar(b) as char;
        let cc = c as u32;
        assert(valid_first_scalar(b));
        assert(1 <= k && k <= b.len());
        assert(b =~= head + tail);
        lemma_newline_count_bytes_concat(head, tail);
        decode_utf8_first_scalar(b);
        assert(head == encode_scalar(cc));
        assert('\n' as u32 == 10);
        if c == '\n' {
            assert(cc == 10);
            assert(has_width_1_encoding(10));
            assert(leading_byte_width_1(10) == 10u8) by (bit_vector);
            assert(head =~= seq![10u8]);
            assert(seq![10u8].drop_last() =~= Seq::<u8>::empty());
            reveal_with_fuel(newline_count_bytes, 2);
            assert(newline_count_bytes(head) == 1);
        } else {
            assert(cc != 10) by {
                if cc == 10 {
                    char_u32_cast(c, 10);
                    char_u32_cast('\n', 10);
                }
            }
            assert(forall|i: int| 0 <= i < head.len() ==> head[i] != 10u8) by {
                if has_width_1_encoding(cc) {
                    assert(leading_byte_width_1(cc) != 10u8) by (bit_vector)
                        requires
                            cc != 10u32 && cc <= 0x7f,
                    ;
                } else {
                    assert(last_continuation_byte(cc) != 10u8) by (bit_vector);
                    if has_width_2_encoding(cc) {
                        assert(leading_byte_width_2(cc) != 10u8) by (bit_vector);
                    } else if has_width_3_encoding(cc) {
                        assert(leading_byte_width_3(cc) != 10u8) by (bit_vector);
                        assert(second_last_continuation_byte(cc) != 10u8) by (bit_vector);
                    } else {
                        assert(leading_byte_width_4(cc) != 10u8) by (bit_vector);
                        assert(second_last_continuation_byte(cc) != 10u8) by (bit_vector);
                        assert(third_last_continuation_byte(cc) != 10u8) by (bit_vector);
                    }
                }
            }
            lemma_newline_count_bytes_zero(head);
        }
        lemma_line_counts_agree(tail);
        assert(decode_utf8(b) == seq![c] + decode_utf8(tail));
        lemma_newline_count_concat(seq![c], decode_utf8(tail));
        assert(seq![c].drop_last() =~= Seq::<char>::empty());
        reveal_with_fuel(newline_count, 2);
        assert(newline_count(seq![c]) == if c == '\n' {
            1nat
        } else {
            0nat
        });
    }
}

} // verus!
