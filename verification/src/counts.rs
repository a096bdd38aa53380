use vstd::prelude::*;
use vstd::string::StringExecFns;
use crate::numeral::{dec_rep, push_decimal};
use crate::options::Options;
use crate::pattern::is_stdin_marker;

verus! {

/// Per-path result record: the four counts gathered by one scan, and
/// whether the path turned out to be a directory (in which case every
/// count stays zero and no content is read).
#[derive(Debug)]
pub struct Counts {
    pub word_count: usize,
    pub line_count: usize,
    pub byte_count: usize,
    pub char_count: usize,
    pub is_a_directory: bool,
}

/// The selected fields joined by single spaces, in the fixed order
/// lines, words, bytes, chars, with the filename appended last.
pub open spec fn spec_join_fields(parts: Seq<Seq<char>>) -> Seq<char>
    decreases parts.len(),
{
    if parts.len() == 0 {
        Seq::empty()
    } else if parts.len() == 1 {
        parts[0]
    } else {
        spec_join_fields(parts.drop_last()) + seq![' '] + parts.last()
    }
}

/// The fields of one result line, each as its own character sequence:
/// the numerals of the active counts in the fixed order lines, words,
/// bytes, chars, then the filename unless the token is the stdin marker.
pub open spec fn spec_result_fields(c: Counts, filename: Seq<char>, opt: Options) -> Seq<
    Seq<char>,
> {
    let p0: Seq<Seq<char>> = Seq::empty();
    let p1 = if opt.show_lines {
        p0.push(dec_rep(c.line_count as nat))
    } else {
        p0
    };
    let p2 = if opt.show_words {
        p1.push(dec_rep(c.word_count as nat))
    } else {
        p1
    };
    let p3 = if opt.show_bytes {
        p2.push(dec_rep(c.byte_count as nat))
    } else {
        p2
    };
    let p4 = if opt.show_chars {
        p3.push(dec_rep(c.char_count as nat))
    } else {
        p3
    };
    if filename != seq!['-'] {
        p4.push(filename)
    } else {
        p4
    }
}

/// The line that the sink prints for one successful result, newline
/// included, or `None` when nothing is printed: a directory argument
/// yields a `dir` marker line when directories are shown and is silently
/// skipped otherwise.
pub open spec fn spec_result_line(c: Counts, filename: Seq<char>, opt: Options) -> Option<
    Seq<char>,
> {
    if c.is_a_directory {
        if opt.show_dirs {
            Some(seq!['d', 'i', 'r', ' '] + filename + seq!['\n'])
        } else {
            None
        }
    } else {
        Some(spec_join_fields(spec_result_fields(c, filename, opt)) + seq!['\n'])
    }
}

impl Counts {
    /// A zeroed record for a path not yet scanned.
    pub fn new() -> (r: Self)
        ensures
            r.word_count == 0,
            r.line_count == 0,
            r.byte_count == 0,
            r.char_count == 0,
            !r.is_a_directory,
    {
        Counts {
            word_count: 0,
            line_count: 0,
            byte_count: 0,
            char_count: 0,
            is_a_directory: false,
        }
    }

    /// Formats the output line for this record, or returns `None` when the
    /// record is for a directory and directory markers are off.
    pub fn display(&self, filename: &str, opt: &Options) -> (r: Option<String>)
        ensures
            r is Some <==> spec_result_line(*self, filename@, *opt) is Some,
            r matches Some(s) ==> Some(s@) == spec_result_line(*self, filename@, *opt),
    {
        if self.is_a_directory {
            if opt.show_dirs {
                let mut res = String::new();
                res.append("dir ");
                res.append(filename);
                res.append("\n");
                proof {
                    reveal_strlit("dir ");
                    reveal_strlit("\n");
                    assert("dir "@ =~= seq!['d', 'i', 'r', ' ']);
                    assert("\n"@ =~= seq!['\n']);
                    assert(res@ =~= seq!['d', 'i', 'r', ' '] + filename@ + seq!['\n']);
                }
                return Some(res);
            }
            return None;
        }
        let mut res = String::new();
        let ghost mut parts: Seq<Seq<char>> = Seq::empty();
        let mut space_needed = false;
        proof {
            assert(res@ =~= spec_join_fields(parts));
        }
        if opt.show_lines {
            push_decimal(&mut res, self.line_count);
            proof {
                parts = parts.push(dec_rep(self.line_count as nat));
                lemma_join_push(parts.drop_last(), parts.last());
                assert(parts.drop_last() =~= Seq::empty());
                assert(res@ =~= spec_join_fields(parts));
            }
            space_needed = true;
        }
        if opt.show_words {
            if space_needed {
                res.append(" ");
            }
            push_decimal(&mut res, self.word_count);
            proof {
                let prev = parts;
                parts = parts.push(dec_rep(self.word_count as nat));
                assert(parts.drop_last() =~= prev);
                lemma_join_push(prev, parts.last());
                reveal_strlit(" ");
                assert(" "@ =~= seq![' ']);
                assert(res@ =~= spec_join_fields(parts));
            }
            space_needed = true;
        }
        if opt.show_bytes {
            if space_needed {
                res.append(" ");
            }
            push_decimal(&mut res, self.byte_count);
            proof {
                let prev = parts;
                parts = parts.push(dec_rep(self.byte_count as nat));
                assert(parts.drop_last() =~= prev);
                lemma_join_push(prev, parts.last());
                reveal_strlit(" ");
                assert(" "@ =~= seq![' ']);
                assert(res@ =~= spec_join_fields(parts));
            }
            space_needed = true;
        }
        if opt.show_chars {
            if space_needed {
                res.append(" ");
            }
            push_decimal(&mut res, self.char_count);
            proof {
                let prev = parts;
                parts = parts.push(dec_rep(self.char_count as nat));
                assert(parts.drop_last() =~= prev);
                lemma_join_push(prev, parts.last());
                reveal_strlit(" ");
                assert(" "@ =~= seq![' ']);
                assert(res@ =~= spec_join_fields(parts));
            }
            space_needed = true;
        }
        if !is_stdin_marker(filename) {
            if space_needed {
                res.append(" ");
            }
            res.append(filename);
            proof {
                let prev = parts;
                parts = parts.push(filename@);
                assert(parts.drop_last() =~= prev);
                lemma_join_push(prev, parts.last());
                reveal_strlit(" ");
                assert(" "@ =~= seq![' ']);
                assert(res@ =~= spec_join_fields(parts));
            }
        }
        res.append("\n");
        proof {
            reveal_strlit("\n");
            assert("\n"@ =~= seq!['\n']);
            assert(parts =~= spec_result_fields(*self, filename@, *opt));
            assert(res@ =~= spec_join_fields(spec_result_fields(*self, filename@, *opt))
                + seq!['\n']);
        }
        Some(res)
    }
}

/// Joining after appending one more field adds a separating space exactly
/// when some field was already present.
proof fn lemma_join_push(parts: Seq<Seq<char>>, last: Seq<char>)
    ensures
        parts.len() == 0 ==> spec_join_fields(parts.push(last)) == last,
        parts.len() > 0 ==> spec_join_fields(parts.push(last)) == spec_join_fields(parts)
            + seq![' '] + last,
{
    let p = parts.push(last);
    assert(p.drop_last() =~= parts);
    assert(p.last() == last);
    if parts.len() == 0 {
        assert(spec_join_fields(p) == p[0]);
    }
}

} // verus!
